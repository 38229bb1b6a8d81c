//! Integers and strings as they appear on the wire: big-endian, two's
//! complement, and NUL-terminated UTF-8.

use vstd::prelude::*;
use vstd::arithmetic::div_mod::lemma_fundamental_div_mod_converse;

verus! {

/// The unsigned 16-bit value written big-endian in the first two bytes of `b`.
pub open spec fn u16_from_be(b: Seq<u8>) -> int
    recommends
        b.len() >= 2,
{
    b[0] as int * 256 + b[1] as int
}

/// The unsigned 32-bit value written big-endian in the first four bytes of `b`.
pub open spec fn u32_from_be(b: Seq<u8>) -> int
    recommends
        b.len() >= 4,
{
    b[0] as int * 16777216 + b[1] as int * 65536 + b[2] as int * 256 + b[3] as int
}

/// The signed 16-bit value written big-endian in the first two bytes of `b`.
pub open spec fn i16_from_be(b: Seq<u8>) -> i16
    recommends
        b.len() >= 2,
{
    let u = u16_from_be(b);
    if u < 32768 {
        u as i16
    } else {
        (u - 65536) as i16
    }
}

/// The signed 32-bit value written big-endian in the first four bytes of `b`.
pub open spec fn i32_from_be(b: Seq<u8>) -> i32
    recommends
        b.len() >= 4,
{
    let u = u32_from_be(b);
    if u < 2147483648 {
        u as i32
    } else {
        (u - 4294967296) as i32
    }
}

/// The two bytes of `v`, most significant first, for `0 <= v < 65536`.
pub open spec fn be_bytes_unsigned16(v: int) -> Seq<u8> {
    seq![(v / 256) as u8, (v % 256) as u8]
}

/// The four bytes of `v`, most significant first, for `0 <= v < 4294967296`.
pub open spec fn be_bytes_unsigned32(v: int) -> Seq<u8> {
    seq![
        (v / 16777216) as u8,
        ((v / 65536) % 256) as u8,
        ((v / 256) % 256) as u8,
        (v % 256) as u8,
    ]
}

/// The eight bytes of `v`, most significant first, for `0 <= v < 2^64`.
pub open spec fn be_bytes_unsigned64(v: int) -> Seq<u8> {
    be_bytes_unsigned32(v / 4294967296) + be_bytes_unsigned32(v % 4294967296)
}

/// Big-endian two's complement bytes of a signed 16-bit integer.
pub open spec fn be_bytes_i16(v: i16) -> Seq<u8> {
    be_bytes_unsigned16(
        if v < 0 {
            v + 65536
        } else {
            v as int
        },
    )
}

/// Big-endian two's complement bytes of a signed 32-bit integer.
pub open spec fn be_bytes_i32(v: i32) -> Seq<u8> {
    be_bytes_unsigned32(
        if v < 0 {
            v + 4294967296
        } else {
            v as int
        },
    )
}

/// Big-endian bytes of an unsigned 32-bit integer.
pub open spec fn be_bytes_u32(v: u32) -> Seq<u8> {
    be_bytes_unsigned32(v as int)
}

/// Big-endian two's complement bytes of a signed 64-bit integer.
pub open spec fn be_bytes_i64(v: i64) -> Seq<u8> {
    be_bytes_unsigned64(
        if v < 0 {
            v + 18446744073709551616
        } else {
            v as int
        },
    )
}

/// Reading back the bytes of a signed 16-bit integer gives the integer.
pub proof fn lemma_i16_round_trip(v: i16)
    ensures
        be_bytes_i16(v).len() == 2,
        i16_from_be(be_bytes_i16(v)) == v,
{
}

/// Reading back the bytes of a signed 32-bit integer gives the integer.
pub proof fn lemma_i32_round_trip(v: i32)
    ensures
        be_bytes_i32(v).len() == 4,
        i32_from_be(be_bytes_i32(v)) == v,
{
}

/// Writing the signed 16-bit value read from two bytes gives those bytes back.
pub proof fn lemma_i16_bytes_round_trip(b: Seq<u8>)
    requires
        b.len() == 2,
    ensures
        be_bytes_i16(i16_from_be(b)) == b,
{
    assert(be_bytes_i16(i16_from_be(b)) =~= b);
}

/// The bytes of the unsigned 32-bit value read from four bytes are those
/// bytes.
proof fn lemma_unsigned32_bytes(b: Seq<u8>)
    requires
        b.len() == 4,
    ensures
        be_bytes_unsigned32(u32_from_be(b)) == b,
{
    let u = u32_from_be(b);
    let b0 = b[0] as int;
    let b1 = b[1] as int;
    let b2 = b[2] as int;
    let b3 = b[3] as int;
    lemma_fundamental_div_mod_converse(u, 16777216, b0, b1 * 65536 + b2 * 256 + b3);
    lemma_fundamental_div_mod_converse(u, 65536, b0 * 256 + b1, b2 * 256 + b3);
    lemma_fundamental_div_mod_converse(b0 * 256 + b1, 256, b0, b1);
    lemma_fundamental_div_mod_converse(u, 256, b0 * 65536 + b1 * 256 + b2, b3);
    lemma_fundamental_div_mod_converse(b0 * 65536 + b1 * 256 + b2, 256, b0 * 256 + b1, b2);
    assert(be_bytes_unsigned32(u) =~= b);
}

/// Writing the signed 32-bit value read from four bytes gives those bytes back.
pub proof fn lemma_i32_bytes_round_trip(b: Seq<u8>)
    requires
        b.len() == 4,
    ensures
        be_bytes_i32(i32_from_be(b)) == b,
{
    lemma_unsigned32_bytes(b);
}

/// Reads the unsigned byte at `pos`.
pub fn read_u8(buf: &[u8], pos: usize) -> (v: u8)
    requires
        pos < buf@.len(),
    ensures
        v == buf@[pos as int],
{
    buf[pos]
}

/// Reads a big-endian signed 16-bit integer at `pos`.
pub fn read_i16(buf: &[u8], pos: usize) -> (v: i16)
    requires
        pos + 2 <= buf@.len(),
    ensures
        v == i16_from_be(buf@.subrange(pos as int, pos + 2)),
{
    let u: u16 = (buf[pos] as u16) * 256 + (buf[pos + 1] as u16);
    if u < 32768 {
        u as i16
    } else {
        ((u - 32768) as i16) - 32767 - 1
    }
}

/// Reads a big-endian unsigned 32-bit integer at `pos`.
pub fn read_u32(buf: &[u8], pos: usize) -> (v: u32)
    requires
        pos + 4 <= buf@.len(),
    ensures
        v == u32_from_be(buf@.subrange(pos as int, pos + 4)),
{
    (buf[pos] as u32) * 16777216 + (buf[pos + 1] as u32) * 65536 + (buf[pos + 2] as u32) * 256 + (
    buf[pos + 3] as u32)
}

/// Reads a big-endian signed 32-bit integer at `pos`.
pub fn read_i32(buf: &[u8], pos: usize) -> (v: i32)
    requires
        pos + 4 <= buf@.len(),
    ensures
        v == i32_from_be(buf@.subrange(pos as int, pos + 4)),
{
    let u: u32 = read_u32(buf, pos);
    if u < 2147483648 {
        u as i32
    } else {
        ((u - 2147483648) as i32) - 2147483647 - 1
    }
}

} // verus!
