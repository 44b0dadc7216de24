//! Arbitrary-precision integers.
//!
//! A [`BigInt`] keeps its number as two's-complement bytes, least significant
//! byte first, and its view is the mathematical integer those bytes spell.
//! Arithmetic is carried out by `num-bigint`; every contract here is stated
//! over the integer views.

use vstd::prelude::*;

verus! {

/// The number spelled by `bytes` read as unsigned base-256 digits, least
/// significant first.
pub open spec fn unsigned_le(bytes: Seq<u8>) -> nat
    decreases bytes.len(),
{
    if bytes.len() == 0 {
        0
    } else {
        bytes[0] as nat + 256 * unsigned_le(bytes.drop_first())
    }
}

/// 256 to the power `n`.
pub open spec fn pow256(n: nat) -> nat
    decreases n,
{
    if n == 0 {
        1
    } else {
        256 * pow256((n - 1) as nat)
    }
}

/// The number spelled by `bytes` read as a two's-complement integer, least
/// significant byte first. The empty string spells zero.
pub open spec fn signed_le(bytes: Seq<u8>) -> int {
    if bytes.len() > 0 && bytes.last() >= 128 {
        unsigned_le(bytes) - pow256(bytes.len())
    } else {
        unsigned_le(bytes) as int
    }
}

/// The quotient `a / d` rounded towards negative infinity, for a divisor
/// other than zero.
pub open spec fn floor_div(a: int, d: int) -> int
    recommends
        d != 0,
{
    if d > 0 {
        a / d
    } else {
        (-a) / (-d)
    }
}

/// The quotient `a / d` rounded towards positive infinity, for a divisor
/// other than zero.
pub open spec fn ceil_div(a: int, d: int) -> int
    recommends
        d != 0,
{
    if d > 0 {
        (a + d - 1) / d
    } else {
        (-a + (-d) - 1) / (-d)
    }
}

/// A copy of the bytes.
pub fn copy_bytes(bytes: &Vec<u8>) -> (r: Vec<u8>)
    ensures
        r@ == bytes@,
{
    let mut out: Vec<u8> = Vec::new();
    let mut i: usize = 0;
    while i < bytes.len()
        invariant
            i <= bytes@.len(),
            out@ == bytes@.subrange(0, i as int),
        decreases bytes@.len() - i,
    {
        out.push(bytes[i]);
        i += 1;
        assert(out@ =~= bytes@.subrange(0, i as int));
    }
    assert(bytes@.subrange(0, bytes@.len() as int) =~= bytes@);
    out
}

/// `BigInt::from(i128)` followed by `to_signed_bytes_le`: the bytes spell `x`.
#[verifier::external_body]
fn bytes_from_i128(x: i128) -> (r: Vec<u8>)
    ensures
        signed_le(r@) == x,
{
    fvm_shared::bigint::BigInt::from(x).to_signed_bytes_le()
}

/// `ToPrimitive::to_i128` of the number that `a` spells: `Some` of that number
/// exactly when it lies in the range of `i128`.
#[verifier::external_body]
fn bytes_to_i128(a: &Vec<u8>) -> (r: Option<i128>)
    ensures
        r.is_some() <==> i128::MIN <= signed_le(a@) <= i128::MAX,
        r.is_some() ==> r.unwrap() == signed_le(a@),
{
    num_traits::ToPrimitive::to_i128(&fvm_shared::bigint::BigInt::from_signed_bytes_le(a))
}

/// `BigInt` addition: the result spells the sum.
#[verifier::external_body]
fn bytes_add(a: &Vec<u8>, b: &Vec<u8>) -> (r: Vec<u8>)
    ensures
        signed_le(r@) == signed_le(a@) + signed_le(b@),
{
    let x = fvm_shared::bigint::BigInt::from_signed_bytes_le(a);
    let y = fvm_shared::bigint::BigInt::from_signed_bytes_le(b);
    (x + y).to_signed_bytes_le()
}

/// `BigInt` subtraction: the result spells the difference.
#[verifier::external_body]
fn bytes_sub(a: &Vec<u8>, b: &Vec<u8>) -> (r: Vec<u8>)
    ensures
        signed_le(r@) == signed_le(a@) - signed_le(b@),
{
    let x = fvm_shared::bigint::BigInt::from_signed_bytes_le(a);
    let y = fvm_shared::bigint::BigInt::from_signed_bytes_le(b);
    (x - y).to_signed_bytes_le()
}

/// `BigInt` multiplication: the result spells the product.
#[verifier::external_body]
fn bytes_mul(a: &Vec<u8>, b: &Vec<u8>) -> (r: Vec<u8>)
    ensures
        signed_le(r@) == signed_le(a@) * signed_le(b@),
{
    let x = fvm_shared::bigint::BigInt::from_signed_bytes_le(a);
    let y = fvm_shared::bigint::BigInt::from_signed_bytes_le(b);
    (x * y).to_signed_bytes_le()
}

/// `Integer::div_floor` on `BigInt`, for a divisor other than zero: the
/// quotient rounded towards negative infinity.
#[verifier::external_body]
fn bytes_div_floor(a: &Vec<u8>, d: &Vec<u8>) -> (r: Vec<u8>)
    requires
        signed_le(d@) != 0,
    ensures
        signed_le(r@) == floor_div(signed_le(a@), signed_le(d@)),
{
    let x = fvm_shared::bigint::BigInt::from_signed_bytes_le(a);
    let y = fvm_shared::bigint::BigInt::from_signed_bytes_le(d);
    fvm_shared::bigint::Integer::div_floor(&x, &y).to_signed_bytes_le()
}

/// `Integer::div_ceil` on `BigInt`, for a divisor other than zero: the
/// quotient rounded towards positive infinity.
#[verifier::external_body]
fn bytes_div_ceil(a: &Vec<u8>, d: &Vec<u8>) -> (r: Vec<u8>)
    requires
        signed_le(d@) != 0,
    ensures
        signed_le(r@) == ceil_div(signed_le(a@), signed_le(d@)),
{
    let x = fvm_shared::bigint::BigInt::from_signed_bytes_le(a);
    let y = fvm_shared::bigint::BigInt::from_signed_bytes_le(d);
    fvm_shared::bigint::Integer::div_ceil(&x, &y).to_signed_bytes_le()
}

/// `BigInt`'s `<`: whether the first number is strictly below the second.
#[verifier::external_body]
fn bytes_lt(a: &Vec<u8>, b: &Vec<u8>) -> (r: bool)
    ensures
        r == (signed_le(a@) < signed_le(b@)),
{
    let x = fvm_shared::bigint::BigInt::from_signed_bytes_le(a);
    let y = fvm_shared::bigint::BigInt::from_signed_bytes_le(b);
    x < y
}

/// An integer of any size.
#[derive(Debug)]
pub struct BigInt {
    bytes: Vec<u8>,
}

impl View for BigInt {
    type V = int;

    closed spec fn view(&self) -> int {
        signed_le(self.bytes@)
    }
}

impl Clone for BigInt {
    fn clone(&self) -> (r: Self)
        ensures
            r@ == self@,
    {
        let z = bytes_from_i128(0);
        BigInt { bytes: bytes_add(&self.bytes, &z) }
    }
}

impl BigInt {
    /// The integer that `bytes` spell in two's complement, least
    /// significant byte first.
    pub fn from_signed_bytes_le(bytes: Vec<u8>) -> (r: Self)
        ensures
            r@ == signed_le(bytes@),
    {
        BigInt { bytes }
    }

    /// Bytes that spell the integer in two's complement, least significant
    /// byte first.
    pub fn to_signed_bytes_le(&self) -> (r: Vec<u8>)
        ensures
            signed_le(r@) == self@,
    {
        copy_bytes(&self.bytes)
    }

    /// The integer `x`.
    pub fn from_i128(x: i128) -> (r: Self)
        ensures
            r@ == x,
    {
        BigInt { bytes: bytes_from_i128(x) }
    }

    /// The integer `x`.
    pub fn from_u64(x: u64) -> (r: Self)
        ensures
            r@ == x,
    {
        BigInt { bytes: bytes_from_i128(x as i128) }
    }

    /// The integer `x`.
    pub fn from_i64(x: i64) -> (r: Self)
        ensures
            r@ == x,
    {
        BigInt { bytes: bytes_from_i128(x as i128) }
    }

    /// Zero.
    pub fn zero() -> (r: Self)
        ensures
            r@ == 0,
    {
        BigInt { bytes: bytes_from_i128(0) }
    }

    /// The number as an `i128`, when it fits.
    pub fn to_i128(&self) -> (r: Option<i128>)
        ensures
            r.is_some() <==> i128::MIN <= self@ <= i128::MAX,
            r.is_some() ==> r.unwrap() == self@,
    {
        bytes_to_i128(&self.bytes)
    }

    /// `self + other`.
    pub fn add(&self, other: &BigInt) -> (r: BigInt)
        ensures
            r@ == self@ + other@,
    {
        BigInt { bytes: bytes_add(&self.bytes, &other.bytes) }
    }

    /// `self - other`.
    pub fn sub(&self, other: &BigInt) -> (r: BigInt)
        ensures
            r@ == self@ - other@,
    {
        BigInt { bytes: bytes_sub(&self.bytes, &other.bytes) }
    }

    /// `self * other`.
    pub fn mul(&self, other: &BigInt) -> (r: BigInt)
        ensures
            r@ == self@ * other@,
    {
        BigInt { bytes: bytes_mul(&self.bytes, &other.bytes) }
    }

    /// `self / divisor`, rounded down.
    pub fn div_floor(&self, divisor: &BigInt) -> (r: BigInt)
        requires
            divisor@ != 0,
        ensures
            r@ == floor_div(self@, divisor@),
    {
        BigInt { bytes: bytes_div_floor(&self.bytes, &divisor.bytes) }
    }

    /// `self / divisor`, rounded up.
    pub fn div_ceil(&self, divisor: &BigInt) -> (r: BigInt)
        requires
            divisor@ != 0,
        ensures
            r@ == ceil_div(self@, divisor@),
    {
        BigInt { bytes: bytes_div_ceil(&self.bytes, &divisor.bytes) }
    }

    /// Whether `self < other`.
    pub fn lt(&self, other: &BigInt) -> (r: bool)
        ensures
            r == (self@ < other@),
    {
        bytes_lt(&self.bytes, &other.bytes)
    }

    /// Whether `self <= other`.
    pub fn le(&self, other: &BigInt) -> (r: bool)
        ensures
            r == (self@ <= other@),
    {
        !bytes_lt(&other.bytes, &self.bytes)
    }

    /// Whether the two numbers are equal.
    pub fn equals(&self, other: &BigInt) -> (r: bool)
        ensures
            r == (self@ == other@),
    {
        !bytes_lt(&self.bytes, &other.bytes) && !bytes_lt(&other.bytes, &self.bytes)
    }

    /// Whether the number is zero.
    pub fn is_zero(&self) -> (r: bool)
        ensures
            r == (self@ == 0),
    {
        let z = bytes_from_i128(0);
        !bytes_lt(&self.bytes, &z) && !bytes_lt(&z, &self.bytes)
    }

    /// Whether the number is below zero.
    pub fn is_negative(&self) -> (r: bool)
        ensures
            r == (self@ < 0),
    {
        let z = bytes_from_i128(0);
        bytes_lt(&self.bytes, &z)
    }

    /// Whether the number is above zero.
    pub fn is_positive(&self) -> (r: bool)
        ensures
            r == (self@ > 0),
    {
        let z = bytes_from_i128(0);
        bytes_lt(&z, &self.bytes)
    }
}

} // verus!
