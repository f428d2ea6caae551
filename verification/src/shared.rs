//! Identifiers shared by the ledger's types.

use vstd::prelude::*;

verus! {

/// Identifies a client account.
pub type ClientID = u16;

/// Identifies a transaction; a dispute names its target by it.
pub type TransactionID = u32;

/// The character of a decimal digit.
pub open spec fn digit_char(d: nat) -> char {
    if d == 0 {
        '0'
    } else if d == 1 {
        '1'
    } else if d == 2 {
        '2'
    } else if d == 3 {
        '3'
    } else if d == 4 {
        '4'
    } else if d == 5 {
        '5'
    } else if d == 6 {
        '6'
    } else if d == 7 {
        '7'
    } else if d == 8 {
        '8'
    } else {
        '9'
    }
}

/// A number in decimal notation, without leading zeros.
pub open spec fn decimal_text(n: nat) -> Seq<char>
    decreases n,
{
    if n < 10 {
        seq![digit_char(n)]
    } else {
        decimal_text(n / 10).push(digit_char(n % 10))
    }
}

/// Trusted: `u32`'s `to_string`, which writes the number in decimal notation.
#[verifier::external_body]
pub(crate) fn id_text(id: u32) -> (r: String)
    ensures
        r@ == decimal_text(id as nat),
{
    id.to_string()
}

} // verus!
