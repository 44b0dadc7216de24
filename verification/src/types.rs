//! Identifiers and the outside value types that the rules carry through.

use cid::Cid;
use fvm_shared::address::Address;
use vstd::prelude::*;

verus! {

/// Numeric identity of an actor.
pub type ActorID = u64;

/// Identifier of an allocation.
pub type AllocationID = u64;

/// Identifier of a claim; a claim keeps the identifier of the allocation it
/// was made from.
pub type ClaimID = u64;

/// A point in chain time.
pub type ChainEpoch = i64;

/// Number of a sector within one provider.
pub type SectorNumber = u64;

/// Number of a message method.
pub type MethodNum = u64;

/// Identifier of a multisig transaction.
pub type TxnID = i64;

/// A content identifier. The rules only carry it and compare it.
#[verifier::external_type_specification]
#[verifier::external_body]
pub struct ExCid<const S: usize>(cid::CidGeneric<S>);

/// An actor address. The rules only carry it and compare it.
#[verifier::external_type_specification]
#[verifier::external_body]
pub struct ExAddress(fvm_shared::address::Address);

/// `==` of `cid::Cid`: true exactly when the two identifiers are the same
/// value.
#[verifier::external_body]
pub(crate) fn cid_eq(a: &Cid, b: &Cid) -> (r: bool)
    ensures
        r == (*a == *b),
{
    a == b
}

/// `==` of `fvm_shared::address::Address`: true exactly when the two
/// addresses are the same value.
#[verifier::external_body]
pub(crate) fn address_eq(a: &Address, b: &Address) -> (r: bool)
    ensures
        r == (*a == *b),
{
    a == b
}

} // verus!
