//! Decimal notation of integers.

use vstd::prelude::*;

verus! {

/// The character of one decimal digit.
pub open spec fn digit_char(d: int) -> char {
    if d == 0 {
        '0'
    } else if d == 1 {
        '1'
    } else if d == 2 {
        '2'
    } else if d == 3 {
        '3'
    } else if d == 4 {
        '4'
    } else if d == 5 {
        '5'
    } else if d == 6 {
        '6'
    } else if d == 7 {
        '7'
    } else if d == 8 {
        '8'
    } else {
        '9'
    }
}

/// The digits of a natural number, most significant first, without leading
/// zeros.
pub open spec fn digits(n: nat) -> Seq<char>
    decreases n,
{
    if n < 10 {
        seq![digit_char(n as int)]
    } else {
        digits(n / 10).push(digit_char((n % 10) as int))
    }
}

/// The decimal notation of an integer: its digits, after a minus sign where
/// it is negative.
pub open spec fn decimal(value: int) -> Seq<char> {
    if value < 0 {
        seq!['-'] + digits((-value) as nat)
    } else {
        digits(value as nat)
    }
}

/// A number's notation is never empty.
pub proof fn lemma_decimal_not_empty(value: int)
    ensures
        decimal(value).len() > 0,
{
    if value < 0 {
    } else if value < 10 {
    } else {
    }
}

/// Calls `to_string` of `i64`, which std documents to give the decimal
/// notation.
#[verifier::external_body]
pub(crate) fn integer_text(value: i64) -> (r: String)
    ensures
        r@ == decimal(value as int),
{
    value.to_string()
}

/// Calls `to_string` of `usize`, which std documents to give the decimal
/// notation.
#[verifier::external_body]
pub(crate) fn count_text(value: usize) -> (r: String)
    ensures
        r@ == decimal(value as int),
{
    value.to_string()
}

} // verus!
