//! Policy bounds, passed explicitly to every operation that validates
//! against them.

use crate::types::ChainEpoch;
use vstd::prelude::*;

verus! {

/// Number of epochs in a day.
pub const EPOCHS_IN_DAY: i64 = 2880;

/// Number of epochs in a year.
pub const EPOCHS_IN_YEAR: i64 = 1051897;

/// Bounds on verified allocations and claims.
#[derive(Clone, Copy, Debug, PartialEq, Eq)]
pub struct Policy {
    /// Smallest size an allocation may have.
    pub minimum_verified_allocation_size: u64,
    /// Smallest minimum term an allocation may ask for.
    pub minimum_verified_allocation_term: ChainEpoch,
    /// Largest maximum term an allocation or claim may have.
    pub maximum_verified_allocation_term: ChainEpoch,
    /// Largest distance from creation to the expiration of an allocation.
    pub maximum_verified_allocation_expiration: ChainEpoch,
    /// Raw power that a miner needs to count towards consensus.
    pub minimum_consensus_power: u64,
}

impl Policy {
    /// The bounds in force on the main network.
    pub open spec fn spec_default() -> Policy {
        Policy {
            minimum_verified_allocation_size: 1048576,
            minimum_verified_allocation_term: 518400,
            maximum_verified_allocation_term: 5259485,
            maximum_verified_allocation_expiration: 172800,
            minimum_consensus_power: 10995116277760,
        }
    }
}

impl Default for Policy {
    fn default() -> (r: Policy)
        ensures
            r == Policy::spec_default(),
    {
        Policy {
            minimum_verified_allocation_size: 1048576,
            minimum_verified_allocation_term: 180 * EPOCHS_IN_DAY,
            maximum_verified_allocation_term: 5 * EPOCHS_IN_YEAR,
            maximum_verified_allocation_expiration: 60 * EPOCHS_IN_DAY,
            minimum_consensus_power: 10995116277760,
        }
    }
}

} // verus!
