//! The daily fee of a sector and what a sector counts towards power.

use crate::bigint::{floor_div, BigInt};
use crate::econ::TokenAmount;
use vstd::arithmetic::div_mod::{lemma_div_multiples_vanish, lemma_div_multiples_vanish_quotient};
use vstd::prelude::*;

verus! {

/// The occupied bytes of a sector with verified bytes counted ten times: the
/// base of its fee and of its quality-adjusted power.
pub open spec fn weighted_bytes(verified: u64, unverified: u64) -> int {
    verified * 10 + unverified
}

/// The daily fee of a sector of `capacity` bytes that holds `verified` and
/// `unverified` bytes of data, where `reference` is the fee of a sector
/// full of verified data:
/// `reference * (verified * 10 + unverified) / (capacity * 10)`, rounded
/// down.
pub open spec fn sector_fee(reference: int, verified: u64, unverified: u64, capacity: u64) -> int {
    floor_div(reference * weighted_bytes(verified, unverified), capacity * 10)
}

/// The daily fee of a sector.
pub fn daily_fee(reference: &TokenAmount, verified: u64, unverified: u64, capacity: u64) -> (r: TokenAmount)
    requires
        capacity > 0,
    ensures
        r@ == sector_fee(reference@, verified, unverified, capacity),
{
    let weighted = BigInt::from_i128(verified as i128 * 10 + unverified as i128);
    let base = BigInt::from_i128(capacity as i128 * 10);
    reference.mul(&weighted).div_floor(&base)
}

/// The occupied bytes of a sector with verified bytes counted ten times.
pub fn quality_adjusted_bytes(verified: u64, unverified: u64) -> (r: BigInt)
    ensures
        r@ == weighted_bytes(verified, unverified),
{
    BigInt::from_i128(verified as i128 * 10 + unverified as i128)
}

/// A sector full of verified data pays the reference fee; a sector full of
/// unverified data pays a tenth of it, rounded down; a sector without data
/// pays nothing.
pub proof fn law_fee_landmarks(reference: int, capacity: u64)
    requires
        capacity > 0,
        reference >= 0,
    ensures
        sector_fee(reference, capacity, 0, capacity) == reference,
        sector_fee(reference, 0, capacity, capacity) == reference / 10,
        sector_fee(reference, 0, 0, capacity) == 0,
{
    let c = capacity as int;
    assert(reference * (c * 10) == (c * 10) * reference) by (nonlinear_arith);
    lemma_div_multiples_vanish(reference, c * 10);
    assert(sector_fee(reference, capacity, 0, capacity) == reference);
    assert(reference * c == c * reference) by (nonlinear_arith);
    assert(c * 10 == c * 10int);
    lemma_div_multiples_vanish_quotient(c, reference, 10);
    assert(sector_fee(reference, 0, capacity, capacity) == reference / 10);
    assert(reference * 0 == 0);
    assert(0int / (c * 10) == 0) by (nonlinear_arith)
        requires
            c > 0,
    ;
}

/// The fee never falls when verified or unverified bytes are added.
pub proof fn law_fee_monotone(reference: int, v1: u64, u1: u64, v2: u64, u2: u64, capacity: u64)
    requires
        capacity > 0,
        reference >= 0,
        v1 <= v2,
        u1 <= u2,
    ensures
        sector_fee(reference, v1, u1, capacity) <= sector_fee(reference, v2, u2, capacity),
{
    let a = reference * weighted_bytes(v1, u1);
    let b = reference * weighted_bytes(v2, u2);
    assert(a <= b) by (nonlinear_arith)
        requires
            reference >= 0,
            weighted_bytes(v1, u1) <= weighted_bytes(v2, u2),
            a == reference * weighted_bytes(v1, u1),
            b == reference * weighted_bytes(v2, u2),
    ;
    vstd::arithmetic::div_mod::lemma_div_is_ordered(a, b, capacity * 10);
}

} // verus!
