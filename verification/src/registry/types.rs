//! Records and requests of the claim registry.

use crate::bigint::BigInt;
use crate::exit::BatchReturn;
use crate::types::{ActorID, AllocationID, ChainEpoch, ClaimID, SectorNumber};
use cid::Cid;
use vstd::prelude::*;

verus! {

/// A promise, made at `created_at`, that `provider` will commit `data` of
/// `size` for `client`, for a term inside `[term_min, term_max]`, before
/// `expiration`.
#[derive(Clone, Copy, Debug, PartialEq, Eq)]
pub struct Allocation {
    pub client: ActorID,
    pub provider: ActorID,
    pub data: Cid,
    pub size: u64,
    pub term_min: ChainEpoch,
    pub term_max: ChainEpoch,
    pub expiration: ChainEpoch,
    pub created_at: ChainEpoch,
}

/// An allocation that was redeemed: the data is stored in `sector`, and the
/// term counts from `term_start`.
#[derive(Clone, Copy, Debug, PartialEq, Eq)]
pub struct Claim {
    pub provider: ActorID,
    pub client: ActorID,
    pub data: Cid,
    pub size: u64,
    pub term_min: ChainEpoch,
    pub term_max: ChainEpoch,
    pub term_start: ChainEpoch,
    pub sector: SectorNumber,
}

/// A request to redeem one allocation.
#[derive(Clone, Copy, Debug, PartialEq, Eq)]
pub struct AllocationClaim {
    pub client: ActorID,
    pub allocation_id: AllocationID,
    pub data: Cid,
    pub size: u64,
}

/// The claims that one sector makes, with the epoch at which the sector
/// expires.
#[derive(Clone, Debug, PartialEq, Eq)]
pub struct SectorAllocationClaims {
    pub sector: SectorNumber,
    pub expiry: ChainEpoch,
    pub claims: Vec<AllocationClaim>,
}

/// The claims that one sector makes, as the rules see them.
pub struct SectorClaims {
    pub sector: SectorNumber,
    pub expiry: ChainEpoch,
    pub claims: Seq<AllocationClaim>,
}

impl View for SectorAllocationClaims {
    type V = SectorClaims;

    open spec fn view(&self) -> SectorClaims {
        SectorClaims { sector: self.sector, expiry: self.expiry, claims: self.claims@ }
    }
}

/// The sectors' claims as the rules see them, in order.
pub open spec fn claim_groups(sectors: Seq<SectorAllocationClaims>) -> Seq<SectorClaims> {
    Seq::new(sectors.len(), |i: int| sectors[i]@)
}

/// Space claimed by one sector whose claims succeeded.
#[derive(Debug)]
pub struct SectorClaimSummary {
    pub claimed_space: BigInt,
}

/// What a batch of claims gives back: one code per sector, and one summary
/// for each sector that succeeded, in order.
#[derive(Debug)]
pub struct ClaimAllocationsReturn {
    pub sector_results: BatchReturn,
    pub sector_claims: Vec<SectorClaimSummary>,
}

/// A request to raise the maximum term of one claim.
#[derive(Clone, Copy, Debug, PartialEq, Eq)]
pub struct ClaimTerm {
    pub provider: ActorID,
    pub claim_id: ClaimID,
    pub term_max: ChainEpoch,
}

/// What a sweep of expired allocations gives back.
#[derive(Debug)]
pub struct RemoveExpiredAllocationsReturn {
    /// The ids that were looked at, in order.
    pub considered: Vec<AllocationID>,
    /// One code for each id looked at.
    pub results: BatchReturn,
    /// Total size of the allocations removed.
    pub datacap_recovered: BigInt,
}

/// What a sweep of expired claims gives back.
#[derive(Debug)]
pub struct RemoveExpiredClaimsReturn {
    /// The ids that were looked at, in order.
    pub considered: Vec<ClaimID>,
    /// One code for each id looked at.
    pub results: BatchReturn,
}

/// What a batch fetch of claims gives back: one code per id, and the claims
/// found, in order.
#[derive(Debug)]
pub struct GetClaimsReturn {
    pub batch_info: BatchReturn,
    pub claims: Vec<Claim>,
}

/// A request for a new allocation.
#[derive(Clone, Copy, Debug, PartialEq, Eq)]
pub struct AllocationRequest {
    pub provider: ActorID,
    pub data: Cid,
    pub size: u64,
    pub term_min: ChainEpoch,
    pub term_max: ChainEpoch,
    pub expiration: ChainEpoch,
}

/// A request to extend a claim, carried by a transfer of data cap.
#[derive(Clone, Copy, Debug, PartialEq, Eq)]
pub struct ClaimExtensionRequest {
    pub provider: ActorID,
    pub claim: ClaimID,
    pub term_max: ChainEpoch,
}

} // verus!
