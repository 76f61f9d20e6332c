//! Fixed-point percentages: every usage value counts hundredths of a percent.

use crate::fixed::{ratio, ratio_of, round_div, rounded_div};
use crate::text::{one_decimal, one_decimal_text};
use vstd::string::*;
use vstd::prelude::*;

verus! {

/// The fixed-point value of 100%.
pub const FULL: u32 = 10_000;

/// Every sample of `history` lies between 0% and 100%.
pub open spec fn all_within_full(history: Seq<u32>) -> bool {
    forall|i: int| 0 <= i < history.len() ==> history[i] <= FULL
}

/// `value` confined to the range from 0% to 100%.
pub open spec fn clamped(value: u32) -> u32 {
    if value > FULL {
        FULL
    } else {
        value
    }
}

/// Confines a usage reading to the range from 0% to 100%.
pub fn clamp(value: u32) -> (r: u32)
    ensures
        r == clamped(value),
        r <= FULL,
{
    if value > FULL {
        FULL
    } else {
        value
    }
}

/// The share of `whole` that `part` takes up, in hundredths of a percent
/// rounded to the nearest; nothing is 0% of nothing. A part that exceeds the
/// whole has a share above 100%.
pub open spec fn share(part: nat, whole: nat) -> nat {
    ratio(part, whole, FULL as nat)
}

/// Computes the share of `whole` that `part` takes up.
pub fn share_of(part: u64, whole: u64) -> (r: u128)
    ensures
        r == share(part as nat, whole as nat),
        part <= whole ==> r <= FULL,
        whole == 0 ==> r == 0,
{
    ratio_of(part, whole, FULL)
}

/// A usage value rounded to tenths of a percent, as shown with one decimal
/// place.
pub open spec fn tenths(value: u32) -> nat {
    rounded_div(value as nat, 10)
}

/// A usage value in percent with one decimal place.
pub open spec fn usage_label(value: u32) -> Seq<char> {
    one_decimal(tenths(value))
}

/// A usage value as shown: one decimal place and a percent sign.
pub open spec fn percent_label(value: u32) -> Seq<char> {
    usage_label(value) + "%"@
}

/// Writes a usage value in percent with one decimal place.
pub fn usage_text(value: u32) -> (r: String)
    ensures
        r@ == usage_label(value),
{
    one_decimal_text(round_div(value as u128, 10))
}

/// Writes a usage value with one decimal place and a percent sign.
pub fn percent_text(value: u32) -> (r: String)
    ensures
        r@ == percent_label(value),
{
    let mut text = usage_text(value);
    text.append("%");
    text
}

} // verus!
