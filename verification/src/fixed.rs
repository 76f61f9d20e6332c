//! Fixed-point arithmetic: rounding division, ratios and byte units.

use vstd::prelude::*;

verus! {

/// `numerator / denominator` rounded to the nearest whole number, a tie going
/// to the even neighbour.
pub open spec fn rounded_div(numerator: nat, denominator: nat) -> nat
    recommends
        denominator > 0,
{
    let quotient = numerator / denominator;
    let remainder = numerator % denominator;
    if 2 * remainder > denominator || (2 * remainder == denominator && quotient % 2 == 1) {
        quotient + 1
    } else {
        quotient
    }
}

/// Divides, rounding to the nearest whole number with ties to even.
pub(crate) fn round_div(numerator: u128, denominator: u128) -> (r: u128)
    requires
        denominator > 0,
    ensures
        r == rounded_div(numerator as nat, denominator as nat),
{
    let quotient = numerator / denominator;
    let remainder = numerator % denominator;
    // `remainder > denominator - remainder` is `2 * remainder > denominator`
    // without the overflow.
    let rest = denominator - remainder;
    assert(quotient * denominator + remainder == numerator) by {
        vstd::arithmetic::div_mod::lemma_fundamental_div_mod(
            numerator as int,
            denominator as int,
        );
        vstd::arithmetic::mul::lemma_mul_is_commutative(quotient as int, denominator as int);
    }
    assert(quotient < u128::MAX || remainder == 0) by (nonlinear_arith)
        requires
            quotient * denominator + remainder == numerator,
            denominator >= 1,
            remainder >= 0,
            numerator <= u128::MAX,
            quotient >= 0,
    {
    }
    if remainder > rest || (remainder == rest && quotient % 2 == 1) {
        quotient + 1
    } else {
        quotient
    }
}

/// The ratio of `part` to `whole` in units of `1 / scale`, rounded to the
/// nearest unit; the ratio to nothing is 0. A part that exceeds the whole has
/// a ratio above the scale.
pub open spec fn ratio(part: nat, whole: nat, scale: nat) -> nat {
    if whole == 0 {
        0
    } else {
        rounded_div(part * scale, whole)
    }
}

/// The ratio of a part that does not exceed the whole does not exceed the
/// scale.
pub proof fn lemma_ratio_bounded(part: nat, whole: nat, scale: nat)
    requires
        part <= whole,
    ensures
        ratio(part, whole, scale) <= scale,
{
    if whole > 0 {
        let product = part * scale;
        let quotient = product / whole;
        let remainder = product % whole;
        vstd::arithmetic::div_mod::lemma_fundamental_div_mod(product as int, whole as int);
        assert(quotient < scale || (quotient == scale && remainder == 0)) by (nonlinear_arith)
            requires
                product == whole * quotient + remainder,
                product == part * scale,
                0 <= remainder < whole,
                part <= whole,
                quotient >= 0,
        {
        }
    }
}

/// Computes the ratio of `part` to `whole` in units of `1 / scale`.
pub fn ratio_of(part: u64, whole: u64, scale: u32) -> (r: u128)
    ensures
        r == ratio(part as nat, whole as nat, scale as nat),
        part <= whole ==> r <= scale,
{
    proof {
        if part <= whole {
            lemma_ratio_bounded(part as nat, whole as nat, scale as nat);
        }
    }
    if whole == 0 {
        0
    } else {
        assert(part * scale <= u128::MAX) by (nonlinear_arith)
            requires
                part <= u64::MAX,
                scale <= u32::MAX,
        {
        }
        let scaled: u128 = (part as u128) * (scale as u128);
        round_div(scaled, whole as u128)
    }
}

/// Bytes in a mebibyte.
pub const MIB: u64 = 1_048_576;

/// Bytes in a gibibyte.
pub const GIB: u64 = 1_073_741_824;

/// `bytes` in tenths of a gibibyte, rounded to the nearest tenth.
pub open spec fn gib_tenths(bytes: u64) -> nat {
    rounded_div(bytes as nat * 10, GIB as nat)
}

/// `bytes` in hundredths of a mebibyte, rounded to the nearest hundredth.
pub open spec fn mib_hundredths(bytes: u64) -> nat {
    rounded_div(bytes as nat * 100, MIB as nat)
}

/// Converts a byte count to tenths of a gibibyte.
pub fn to_gib_tenths(bytes: u64) -> (r: u64)
    ensures
        r == gib_tenths(bytes),
{
    round_div((bytes as u128) * 10, GIB as u128) as u64
}

/// Converts a byte count to hundredths of a mebibyte.
pub fn to_mib_hundredths(bytes: u64) -> (r: u64)
    ensures
        r == mib_hundredths(bytes),
{
    round_div((bytes as u128) * 100, MIB as u128) as u64
}

} // verus!
