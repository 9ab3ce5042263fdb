//! The label of a period: its number as an ordinal, as the `ordinal` crate
//! writes it.

use vstd::prelude::*;
use crate::number::decimal;

verus! {

/// The two letters that follow a number to make it an ordinal: `st`, `nd`
/// or `rd` after a last digit of one, two or three, unless the last two
/// digits are eleven, twelve or thirteen; `th` otherwise.
pub open spec fn ordinal_suffix(n: nat) -> Seq<char> {
    if n % 10 == 1 && n % 100 != 11 {
        "st"@
    } else if n % 10 == 2 && n % 100 != 12 {
        "nd"@
    } else if n % 10 == 3 && n % 100 != 13 {
        "rd"@
    } else {
        "th"@
    }
}

/// A number as an ordinal: `1st`, `2nd`, `3rd`, `4th`, `11th`, `21st`.
pub open spec fn ordinal_text(n: nat) -> Seq<char> {
    decimal(n) + ordinal_suffix(n)
}

/// `to_string` of `ordinal::Ordinal` for a `u64`: the number in base ten,
/// then the suffix that the crate picks by the number's last digits.
#[verifier::external_body]
pub(crate) fn ordinal_string(n: u64) -> (r: String)
    ensures
        r@ == ordinal_text(n as nat),
{
    ordinal::Ordinal(n).to_string()
}

/// A number as an ordinal.
pub fn ordinal_of(n: u64) -> (r: String)
    ensures
        r@ == ordinal_text(n as nat),
{
    ordinal_string(n)
}

} // verus!
