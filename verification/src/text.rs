//! Wording of error messages that carry a number.

use vstd::prelude::*;

verus! {

/// The character that writes the digit `d` (meant for `d < 10`).
pub open spec fn digit(d: nat) -> char {
    if d == 0 {
        '0'
    } else if d == 1 {
        '1'
    } else if d == 2 {
        '2'
    } else if d == 3 {
        '3'
    } else if d == 4 {
        '4'
    } else if d == 5 {
        '5'
    } else if d == 6 {
        '6'
    } else if d == 7 {
        '7'
    } else if d == 8 {
        '8'
    } else {
        '9'
    }
}

/// The decimal numeral of `n`, without sign and without leading zeros.
pub open spec fn decimal(n: nat) -> Seq<char>
    decreases n,
{
    if n < 10 {
        seq![digit(n)]
    } else {
        decimal(n / 10).push(digit(n % 10))
    }
}

/// Calls `format!` to write `prefix` followed by `number`, the number with
/// its `Display` form. For an unsigned integer std documents that form as the
/// decimal numeral, which is what the contract claims.
#[verifier::external_body]
pub(crate) fn numbered(prefix: &str, number: u32) -> (text: String)
    ensures
        text@ == prefix@ + decimal(number as nat),
{
    format!("{}{}", prefix, number)
}

} // verus!
