//! Numbers as the machine prints and indexes by them.

use vstd::prelude::*;

verus! {

/// The absolute value of a number; that of the least `i64` is beyond `i64`.
pub open spec fn magnitude(v: i64) -> nat {
    if v < 0 {
        (-v) as nat
    } else {
        v as nat
    }
}

/// The absolute value of a number.
pub fn abs_value(v: i64) -> (m: u64)
    ensures
        m == magnitude(v),
{
    if v >= 0 {
        v as u64
    } else {
        (-(v + 1)) as u64 + 1
    }
}

/// The character of a decimal digit.
pub open spec fn digit(d: nat) -> char
    recommends
        d < 10,
{
    (d + 48) as char
}

/// A natural number in decimal digits, without leading zeros.
pub open spec fn digits(n: nat) -> Seq<char>
    decreases n,
{
    if n < 10 {
        seq![digit(n)]
    } else {
        digits(n / 10).push(digit(n % 10))
    }
}

/// A number in decimal digits, with a minus sign before a negative one.
pub open spec fn decimal(v: int) -> Seq<char> {
    if v < 0 {
        seq!['-'] + digits((-v) as nat)
    } else {
        digits(v as nat)
    }
}

/// Appends a natural number in decimal digits to a text.
pub fn push_digits(out: &mut String, n: u64)
    ensures
        final(out)@ == old(out)@ + digits(n as nat),
    decreases n,
{
    if n >= 10 {
        push_digits(out, n / 10);
    }
    let d: u8 = (n % 10) as u8;
    out.push((d + 48) as char);
    assert(final(out)@ == old(out)@ + digits(n as nat)) by {
        let last = digit((n % 10) as nat);
        if n >= 10 {
            assert((old(out)@ + digits((n / 10) as nat)).push(last) == old(out)@ + digits(
                (n / 10) as nat,
            ).push(last));
        } else {
            assert(old(out)@.push(last) == old(out)@ + seq![last]);
        }
    }
}

/// Appends a number in decimal digits to a text.
pub fn push_decimal(out: &mut String, v: i64)
    ensures
        final(out)@ == old(out)@ + decimal(v as int),
{
    if v < 0 {
        out.push('-');
        assert(out@ == old(out)@ + seq!['-']);
        push_digits(out, abs_value(v));
        assert(final(out)@ == old(out)@ + (seq!['-'] + digits((-v) as nat)));
    } else {
        push_digits(out, abs_value(v));
    }
}

} // verus!
