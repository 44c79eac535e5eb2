//! Integers written out in decimal.

use vstd::prelude::*;

verus! {

/// The character for the digit `d`, for `d` from 0 to 9.
pub open spec fn digit(d: int) -> char {
    (48 + d) as char
}

/// The decimal digits of `n`, most significant first, without leading zeros.
pub open spec fn digits(n: nat) -> Seq<char>
    decreases n,
{
    if n < 10 {
        seq![digit(n as int)]
    } else {
        digits(n / 10).push(digit((n % 10) as int))
    }
}

/// `i` in decimal, with a minus sign in front where it is negative.
pub open spec fn decimal(i: int) -> Seq<char> {
    if i < 0 {
        seq!['-'] + digits((-i) as nat)
    } else {
        digits(i as nat)
    }
}

/// A number has at least one digit, and every digit is one of `0` to `9`.
pub proof fn lemma_digits_shape(n: nat)
    ensures
        digits(n).len() >= 1,
        n >= 10 ==> digits(n).len() >= 2,
        forall|k: int| 0 <= k < digits(n).len() ==> 48 <= #[trigger] (digits(n)[k] as int) <= 57,
    decreases n,
{
    if n >= 10 {
        lemma_digits_shape(n / 10);
    }
}

/// Two numbers with the same digits are the same number.
pub proof fn lemma_digits_injective(a: nat, b: nat)
    requires
        digits(a) == digits(b),
    ensures
        a == b,
    decreases a,
{
    lemma_digits_shape(a);
    lemma_digits_shape(b);
    if a < 10 {
        assert(digits(a)[0] == digit(a as int));
        assert(digits(b).len() == 1);
        assert(digits(b)[0] == digit(b as int));
    } else {
        assert(b >= 10);
        let da = digits(a / 10);
        let db = digits(b / 10);
        assert(digits(a).last() == digit((a % 10) as int));
        assert(digits(b).last() == digit((b % 10) as int));
        assert(digits(a).drop_last() == da);
        assert(digits(b).drop_last() == db);
        lemma_digits_injective(a / 10, b / 10);
    }
}

/// Writes `n` in decimal.
pub fn render_digits(n: u64) -> (out: Vec<char>)
    ensures
        out@ == digits(n as nat),
    decreases n,
{
    if n < 10 {
        let mut out: Vec<char> = Vec::new();
        out.push((48u8 + n as u8) as char);
        out
    } else {
        let mut out = render_digits(n / 10);
        out.push((48u8 + (n % 10) as u8) as char);
        out
    }
}

/// Writes `i` in decimal, with its sign.
pub fn render_decimal(i: i64) -> (out: Vec<char>)
    ensures
        out@ == decimal(i as int),
{
    if i < 0 {
        let magnitude: u64 = (-(i + 1)) as u64 + 1;
        let tail = render_digits(magnitude);
        let mut out: Vec<char> = Vec::new();
        out.push('-');
        crate::text::append(&mut out, &tail);
        out
    } else {
        render_digits(i as u64)
    }
}

} // verus!
