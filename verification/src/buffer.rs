//! The growable byte buffer that frames are read from and written to.
//!
//! The buffer is `bytes::BytesMut`. Its contents are modelled as a sequence of
//! bytes, and the contract of each operation below is taken on trust from the
//! buffer's own documentation.

use bytes::Buf;
use bytes::BufMut;
use bytes::BytesMut;
use vstd::prelude::*;
use crate::wire::{be_bytes_i16, be_bytes_i32, be_bytes_i64, be_bytes_u32};

verus! {

/// `bytes::BytesMut`, taken as it is: nothing is known of a buffer but what
/// the operations below say of the bytes it holds.
#[verifier::external_type_specification]
#[verifier::external_body]
pub struct ExBytesMut(BytesMut);

/// The bytes that a buffer holds, first readable byte first.
pub uninterp spec fn buffer_bytes(buf: BytesMut) -> Seq<u8>;

/// `BytesMut::new`: a fresh buffer holds no bytes.
pub assume_specification[ BytesMut::new ]() -> (buf: BytesMut)
    ensures
        buffer_bytes(buf) == Seq::<u8>::empty(),
;

/// `BytesMut::len`: the number of bytes held.
pub assume_specification[ BytesMut::len ](buf: &BytesMut) -> (n: usize)
    ensures
        n == buffer_bytes(*buf).len(),
;

/// `Deref` of `BytesMut`: the held bytes as a slice, in order.
pub assume_specification<'a>[ <BytesMut as core::ops::Deref>::deref ](buf: &'a BytesMut) -> (s:
    &'a [u8])
    ensures
        s@ == buffer_bytes(*buf),
;

/// `Buf::advance` on `BytesMut`: drops the first `cnt` bytes. It panics when
/// `cnt` exceeds the length, so that is required here.
pub assume_specification[ <BytesMut as Buf>::advance ](buf: &mut BytesMut, cnt: usize)
    requires
        cnt <= buffer_bytes(*old(buf)).len(),
    ensures
        buffer_bytes(*final(buf)) == buffer_bytes(*old(buf)).skip(cnt as int),
;

/// `BytesMut::clear`: removes every byte.
pub assume_specification[ BytesMut::clear ](buf: &mut BytesMut)
    ensures
        buffer_bytes(*final(buf)) == Seq::<u8>::empty(),
;

/// `BufMut::put_slice` on `BytesMut`: appends the bytes of `src`.
pub assume_specification[ <BytesMut as BufMut>::put_slice ](buf: &mut BytesMut, src: &[u8])
    ensures
        buffer_bytes(*final(buf)) == buffer_bytes(*old(buf)) + src@,
;

/// `BufMut::put_u8`: appends one byte.
#[verifier::external_body]
pub(crate) fn put_u8(buf: &mut BytesMut, n: u8)
    ensures
        buffer_bytes(*final(buf)) == buffer_bytes(*old(buf)).push(n),
{
    buf.put_u8(n)
}

/// `BufMut::put_i16`: appends a signed 16-bit integer in big-endian order.
#[verifier::external_body]
pub(crate) fn put_i16(buf: &mut BytesMut, n: i16)
    ensures
        buffer_bytes(*final(buf)) == buffer_bytes(*old(buf)) + be_bytes_i16(n),
{
    buf.put_i16(n)
}

/// `BufMut::put_i32`: appends a signed 32-bit integer in big-endian order.
#[verifier::external_body]
pub(crate) fn put_i32(buf: &mut BytesMut, n: i32)
    ensures
        buffer_bytes(*final(buf)) == buffer_bytes(*old(buf)) + be_bytes_i32(n),
{
    buf.put_i32(n)
}

/// `BufMut::put_u32`: appends an unsigned 32-bit integer in big-endian order.
#[verifier::external_body]
pub(crate) fn put_u32(buf: &mut BytesMut, n: u32)
    ensures
        buffer_bytes(*final(buf)) == buffer_bytes(*old(buf)) + be_bytes_u32(n),
{
    buf.put_u32(n)
}

/// `BufMut::put_i64`: appends a signed 64-bit integer in big-endian order.
#[verifier::external_body]
pub(crate) fn put_i64(buf: &mut BytesMut, n: i64)
    ensures
        buffer_bytes(*final(buf)) == buffer_bytes(*old(buf)) + be_bytes_i64(n),
{
    buf.put_i64(n)
}

} // verus!
