//! Manifests of sector updates and what an activation gives back.

use crate::bigint::BigInt;
use crate::exit::{BatchReturn, ExitCode};
use crate::registry::types::SectorAllocationClaims;
use crate::types::{ActorID, AllocationID, ChainEpoch, SectorNumber};
use cid::Cid;
use fvm_shared::address::Address;
use vstd::prelude::*;

verus! {

/// The allocation that a piece redeems.
#[derive(Clone, Copy, Debug, PartialEq, Eq)]
pub struct VerifiedAllocationKey {
    pub client: ActorID,
    pub id: AllocationID,
}

/// A request to tell an actor that a piece was activated.
#[derive(Debug)]
pub struct DataActivationNotification {
    /// The actor to tell.
    pub address: Address,
    /// What to tell it; the provider does not look inside.
    pub payload: Vec<u8>,
}

/// One piece of data in a sector.
#[derive(Debug)]
pub struct PieceActivationManifest {
    pub cid: Cid,
    pub size: u64,
    /// The allocation that the piece redeems, if it redeems one.
    pub verified_allocation_key: Option<VerifiedAllocationKey>,
    /// Whom to tell about the piece.
    pub notify: Vec<DataActivationNotification>,
}

/// The new content of one sector.
#[derive(Debug)]
pub struct SectorUpdateManifest {
    pub sector: SectorNumber,
    /// Where the provider's state is expected to hold the sector.
    pub deadline: u64,
    pub partition: u64,
    /// The sealed content after the update.
    pub new_sealed_cid: Cid,
    /// The pieces, laid out one after the other.
    pub pieces: Vec<PieceActivationManifest>,
}

/// One piece added to a sector, as a notified actor learns of it.
#[derive(Debug)]
pub struct PieceChange {
    pub data: Cid,
    pub size: u64,
    /// The actor to tell.
    pub address: Address,
    pub payload: Vec<u8>,
}

/// A piece change with its payload as a sequence.
pub struct PieceChangeView {
    pub data: Cid,
    pub size: u64,
    pub address: Address,
    pub payload: Seq<u8>,
}

impl View for PieceChange {
    type V = PieceChangeView;

    open spec fn view(&self) -> PieceChangeView {
        PieceChangeView { data: self.data, size: self.size, address: self.address, payload: self.payload@ }
    }
}

/// The pieces added to one sector that someone is to be told about.
#[derive(Debug)]
pub struct SectorChanges {
    pub sector: SectorNumber,
    /// The epoch until which the sector is committed: its expiration.
    pub minimum_commitment_epoch: ChainEpoch,
    pub added: Vec<PieceChange>,
}

/// Sector changes with the pieces as a sequence of views.
pub struct SectorChangesView {
    pub sector: SectorNumber,
    pub minimum_commitment_epoch: ChainEpoch,
    pub added: Seq<PieceChangeView>,
}

impl View for SectorChanges {
    type V = SectorChangesView;

    open spec fn view(&self) -> SectorChangesView {
        SectorChangesView {
            sector: self.sector,
            minimum_commitment_epoch: self.minimum_commitment_epoch,
            added: Seq::new(self.added@.len(), |i: int| self.added@[i]@),
        }
    }
}

/// What an actor answered to the notification of a piece.
#[derive(Clone, Copy, Debug, PartialEq, Eq, Structural)]
pub enum NotificationOutcome {
    /// The actor took the notification.
    Accepted,
    /// The actor answered, and turned the notification down.
    Rejected,
    /// The call to the actor ended with this code, or could not be made.
    Aborted { code: ExitCode },
}

/// What the claim registry answered for one sector: its code, and the
/// space it claimed when the code is success.
#[derive(Debug)]
pub struct ClaimOutcome {
    pub code: ExitCode,
    pub claimed_space: BigInt,
}

/// A claim outcome with the space as a number.
pub struct ClaimOutcomeView {
    pub code: ExitCode,
    pub claimed_space: int,
}

impl View for ClaimOutcome {
    type V = ClaimOutcomeView;

    open spec fn view(&self) -> ClaimOutcomeView {
        ClaimOutcomeView { code: self.code, claimed_space: self.claimed_space@ }
    }
}

/// The change of power that an activation brings.
#[derive(Debug)]
pub struct PowerDelta {
    /// Change of the occupied bytes.
    pub raw: BigInt,
    /// Change of the occupied bytes with verified bytes counted ten times.
    pub quality_adjusted: BigInt,
}

/// What validation of a batch gives: one code per sector, and the claims to
/// make for each sector that passed, in order.
#[derive(Debug)]
pub struct ActivationPlan {
    pub validation: BatchReturn,
    pub claims: Vec<SectorAllocationClaims>,
}

/// What an activation gives back.
#[derive(Debug)]
pub struct ActivationReturn {
    /// One code per sector of the batch.
    pub activation_results: BatchReturn,
    /// The claims made, one entry for each sector that was activated, in
    /// order.
    pub claims: Vec<SectorAllocationClaims>,
    /// The pieces to tell about, one entry for each activated sector with
    /// at least one notification, in order.
    pub notifications: Vec<SectorChanges>,
    /// The change of power to report to the power ledger.
    pub power_delta: PowerDelta,
}

} // verus!
