//! Integers written out in decimal.

use vstd::prelude::*;
use vstd::string::StringExecFns;

verus! {

/// The character of a decimal digit.
pub open spec fn digit_char(d: int) -> char {
    if d == 0 {
        '0'
    } else if d == 1 {
        '1'
    } else if d == 2 {
        '2'
    } else if d == 3 {
        '3'
    } else if d == 4 {
        '4'
    } else if d == 5 {
        '5'
    } else if d == 6 {
        '6'
    } else if d == 7 {
        '7'
    } else if d == 8 {
        '8'
    } else {
        '9'
    }
}

/// The decimal digits of a natural number, most significant first, without
/// leading zeros.
pub open spec fn decimal_chars(n: nat) -> Seq<char>
    decreases n,
{
    if n < 10 {
        seq![digit_char(n as int)]
    } else {
        decimal_chars(n / 10).push(digit_char((n % 10) as int))
    }
}

/// The decimal text of an integer: a minus sign where it is negative, then
/// the digits of its magnitude.
pub open spec fn signed_decimal_chars(v: int) -> Seq<char> {
    if v < 0 {
        seq!['-'] + decimal_chars((-v) as nat)
    } else {
        decimal_chars(v as nat)
    }
}

/// The digits held least significant first, read most significant first.
spec fn mirrored(rev: Seq<u8>) -> Seq<char> {
    Seq::new(rev.len(), |j: int| digit_char(rev[rev.len() - 1 - j] as int))
}

/// The text of one decimal digit.
fn digit_text(d: u8) -> (text: &'static str)
    requires
        d < 10,
    ensures
        text@ == seq![digit_char(d as int)],
{
    proof {
        reveal_strlit("0");
        reveal_strlit("1");
        reveal_strlit("2");
        reveal_strlit("3");
        reveal_strlit("4");
        reveal_strlit("5");
        reveal_strlit("6");
        reveal_strlit("7");
        reveal_strlit("8");
        reveal_strlit("9");
    }
    let text = if d == 0 {
        "0"
    } else if d == 1 {
        "1"
    } else if d == 2 {
        "2"
    } else if d == 3 {
        "3"
    } else if d == 4 {
        "4"
    } else if d == 5 {
        "5"
    } else if d == 6 {
        "6"
    } else if d == 7 {
        "7"
    } else if d == 8 {
        "8"
    } else {
        "9"
    };
    assert(text@ =~= seq![digit_char(d as int)]);
    text
}

/// Appends the decimal digits of `magnitude` to `text`.
pub fn append_decimal(text: &mut String, magnitude: u64)
    ensures
        final(text)@ == old(text)@ + decimal_chars(magnitude as nat),
{
    let mut rev: Vec<u8> = Vec::new();
    let mut m: u64 = magnitude;
    while m >= 10
        invariant
            decimal_chars(magnitude as nat) == decimal_chars(m as nat) + mirrored(rev@),
            forall|k: int| 0 <= k < rev@.len() ==> rev@[k] < 10,
        decreases m,
    {
        let ghost before = rev@;
        rev.push((m % 10) as u8);
        proof {
            assert(mirrored(rev@) =~= seq![digit_char((m % 10) as int)] + mirrored(before));
            assert(decimal_chars(m as nat) == decimal_chars((m / 10) as nat).push(
                digit_char((m % 10) as int),
            ));
            assert(decimal_chars(magnitude as nat) =~= decimal_chars((m / 10) as nat) + mirrored(
                rev@,
            ));
        }
        m = m / 10;
    }
    let ghost before = rev@;
    rev.push(m as u8);
    proof {
        assert(mirrored(rev@) =~= seq![digit_char(m as int)] + mirrored(before));
        assert(decimal_chars(magnitude as nat) =~= mirrored(rev@));
    }
    let mut i: usize = rev.len();
    while i > 0
        invariant
            i <= rev@.len(),
            forall|k: int| 0 <= k < rev@.len() ==> rev@[k] < 10,
            text@ == old(text)@ + mirrored(rev@).take(rev@.len() - i),
        decreases i,
    {
        i -= 1;
        let ghost so_far = text@;
        text.append(digit_text(rev[i]));
        assert(text@ =~= old(text)@ + mirrored(rev@).take(rev@.len() - i));
    }
    assert(mirrored(rev@).take(rev@.len() as int) =~= mirrored(rev@));
}

/// The decimal text of a signed integer.
pub fn decimal_string(v: i64) -> (text: String)
    ensures
        text@ == signed_decimal_chars(v as int),
{
    let mut text = String::new();
    if v < 0 {
        proof {
            reveal_strlit("-");
        }
        text.append("-");
        let magnitude: u64 = (-(v + 1)) as u64 + 1;
        append_decimal(&mut text, magnitude);
        assert(text@ =~= signed_decimal_chars(v as int));
    } else {
        append_decimal(&mut text, v as u64);
        assert(text@ =~= signed_decimal_chars(v as int));
    }
    text
}

} // verus!
