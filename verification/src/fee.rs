//! The price of weight: how many units of an asset a given weight costs at a
//! given rate.

use vstd::arithmetic::div_mod::{lemma_div_is_ordered, lemma_fundamental_div_mod_converse};
use vstd::prelude::*;

verus! {

/// The weight that stands for one second of computation. A rate is a number of
/// units of an asset per this much weight.
pub const SECOND_OF_WEIGHT: u64 = 1_000_000_000;

/// The fee for `weight` at the rate `units_per_second`, over unbounded
/// integers: the product divided by [`SECOND_OF_WEIGHT`], rounded down.
pub open spec fn fee_for(units_per_second: u128, weight: u64) -> nat {
    ((units_per_second as nat) * (weight as nat)) / (SECOND_OF_WEIGHT as nat)
}

/// The fee as far as a `u128` can hold it: [`fee_for`], capped at `u128::MAX`.
pub open spec fn capped_fee(units_per_second: u128, weight: u64) -> u128 {
    if fee_for(units_per_second, weight) > u128::MAX {
        u128::MAX
    } else {
        fee_for(units_per_second, weight) as u128
    }
}

/// Splitting the rate into whole multiples of a second and a rest splits the
/// fee the same way, and nothing is lost to rounding by it.
pub proof fn lemma_fee_split(units_per_second: u128, weight: u64)
    ensures
        fee_for(units_per_second, weight) == (units_per_second / (SECOND_OF_WEIGHT as u128))
            * weight + ((units_per_second % (SECOND_OF_WEIGHT as u128)) * weight) / (
        SECOND_OF_WEIGHT as int),
        (units_per_second % (SECOND_OF_WEIGHT as u128)) * weight <= u128::MAX,
{
    let s: int = SECOND_OF_WEIGHT as int;
    let r: int = units_per_second as int;
    let w: int = weight as int;
    let q: int = r / s;
    let p: int = r % s;
    let t: int = p * w;
    assert(0 <= t <= (s - 1) * 0xffff_ffff_ffff_ffff) by (nonlinear_arith)
        requires
            0 <= p <= s - 1,
            0 <= w <= 0xffff_ffff_ffff_ffff,
            t == p * w,
    ;
    assert(r * w == (q * w) * s + t) by (nonlinear_arith)
        requires
            r == q * s + p,
            t == p * w,
    ;
    let low: int = t / s;
    lemma_fundamental_div_mod_converse(r * w, s, q * w + low, t % s);
}

/// A heavier weight never costs less.
pub proof fn lemma_fee_monotonic(units_per_second: u128, lighter: u64, heavier: u64)
    requires
        lighter <= heavier,
    ensures
        fee_for(units_per_second, lighter) <= fee_for(units_per_second, heavier),
        capped_fee(units_per_second, lighter) <= capped_fee(units_per_second, heavier),
{
    let r: int = units_per_second as int;
    let a: int = lighter as int;
    let b: int = heavier as int;
    assert(r * a <= r * b) by (nonlinear_arith)
        requires
            0 <= r,
            0 <= a <= b,
    ;
    lemma_div_is_ordered(r * a, r * b, SECOND_OF_WEIGHT as int);
}

/// The fee for `weight` at `units_per_second`, computed without overflow: the
/// product is never formed in `u128`. `None` when the fee itself is more than
/// a `u128` can hold.
pub fn weight_fee(units_per_second: u128, weight: u64) -> (fee: Option<u128>)
    ensures
        fee_for(units_per_second, weight) <= u128::MAX ==> fee == Some(
            fee_for(units_per_second, weight) as u128,
        ),
        fee_for(units_per_second, weight) > u128::MAX ==> fee is None,
{
    let second: u128 = SECOND_OF_WEIGHT as u128;
    let amount: u128 = weight as u128;
    let whole: u128 = units_per_second / second;
    let rest: u128 = units_per_second % second;
    proof {
        lemma_fee_split(units_per_second, weight);
    }
    let low: u128 = (rest * amount) / second;
    match whole.checked_mul(amount) {
        Some(high) => high.checked_add(low),
        None => None,
    }
}

/// The fee for `weight` at `units_per_second`, capped at `u128::MAX`.
pub fn weight_fee_capped(units_per_second: u128, weight: u64) -> (fee: u128)
    ensures
        fee == capped_fee(units_per_second, weight),
{
    match weight_fee(units_per_second, weight) {
        Some(fee) => fee,
        None => u128::MAX,
    }
}

} // verus!
