//! Token amounts.

use crate::bigint::{ceil_div, floor_div, BigInt};
use vstd::prelude::*;

verus! {

/// Number of indivisible units in one whole token.
pub open spec fn precision() -> int {
    1_000_000_000_000_000_000
}

/// A quantity of tokens, counted in indivisible units of 10^-18 token. Its
/// view is that count.
#[derive(Debug)]
pub struct TokenAmount {
    atto: BigInt,
}

impl View for TokenAmount {
    type V = int;

    closed spec fn view(&self) -> int {
        self.atto@
    }
}

impl Clone for TokenAmount {
    fn clone(&self) -> (r: Self)
        ensures
            r@ == self@,
    {
        TokenAmount { atto: self.atto.clone() }
    }
}

impl TokenAmount {
    /// The amount of `atto` indivisible units.
    pub fn from_atto(atto: BigInt) -> (r: Self)
        ensures
            r@ == atto@,
    {
        TokenAmount { atto }
    }

    /// The amount of `tokens` whole tokens.
    pub fn from_whole(tokens: i64) -> (r: Self)
        ensures
            r@ == tokens * precision(),
    {
        let unit = BigInt::from_i128(1_000_000_000_000_000_000);
        TokenAmount { atto: BigInt::from_i64(tokens).mul(&unit) }
    }

    /// No tokens.
    pub fn zero() -> (r: Self)
        ensures
            r@ == 0,
    {
        TokenAmount { atto: BigInt::zero() }
    }

    /// The count of indivisible units.
    pub fn atto(&self) -> (r: BigInt)
        ensures
            r@ == self@,
    {
        self.atto.clone()
    }

    /// Whether the amount is zero.
    pub fn is_zero(&self) -> (r: bool)
        ensures
            r == (self@ == 0),
    {
        self.atto.is_zero()
    }

    /// Whether the amount is below zero.
    pub fn is_negative(&self) -> (r: bool)
        ensures
            r == (self@ < 0),
    {
        self.atto.is_negative()
    }

    /// Whether the amount is above zero.
    pub fn is_positive(&self) -> (r: bool)
        ensures
            r == (self@ > 0),
    {
        self.atto.is_positive()
    }

    /// `self + other`.
    pub fn add(&self, other: &TokenAmount) -> (r: TokenAmount)
        ensures
            r@ == self@ + other@,
    {
        TokenAmount { atto: self.atto.add(&other.atto) }
    }

    /// `self - other`.
    pub fn sub(&self, other: &TokenAmount) -> (r: TokenAmount)
        ensures
            r@ == self@ - other@,
    {
        TokenAmount { atto: self.atto.sub(&other.atto) }
    }

    /// `self * factor`.
    pub fn mul(&self, factor: &BigInt) -> (r: TokenAmount)
        ensures
            r@ == self@ * factor@,
    {
        TokenAmount { atto: self.atto.mul(factor) }
    }

    /// `self / divisor`, rounded down.
    pub fn div_floor(&self, divisor: &BigInt) -> (r: TokenAmount)
        requires
            divisor@ != 0,
        ensures
            r@ == floor_div(self@, divisor@),
    {
        TokenAmount { atto: self.atto.div_floor(divisor) }
    }

    /// `self / divisor`, rounded up.
    pub fn div_ceil(&self, divisor: &BigInt) -> (r: TokenAmount)
        requires
            divisor@ != 0,
        ensures
            r@ == ceil_div(self@, divisor@),
    {
        TokenAmount { atto: self.atto.div_ceil(divisor) }
    }

    /// Whether `self < other`.
    pub fn lt(&self, other: &TokenAmount) -> (r: bool)
        ensures
            r == (self@ < other@),
    {
        self.atto.lt(&other.atto)
    }

    /// Whether `self <= other`.
    pub fn le(&self, other: &TokenAmount) -> (r: bool)
        ensures
            r == (self@ <= other@),
    {
        self.atto.le(&other.atto)
    }

    /// Whether the two amounts are equal.
    pub fn equals(&self, other: &TokenAmount) -> (r: bool)
        ensures
            r == (self@ == other@),
    {
        self.atto.equals(&other.atto)
    }

    /// The whole tokens in the amount, rounded down.
    pub fn whole(&self) -> (r: BigInt)
        ensures
            r@ == floor_div(self@, precision()),
    {
        let unit = BigInt::from_i128(1_000_000_000_000_000_000);
        self.atto.div_floor(&unit)
    }
}

} // verus!
