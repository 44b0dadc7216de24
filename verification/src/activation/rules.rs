//! What an activation decides, as functions of the provider's state, the
//! batch, and what the collaborators answered.

use crate::activation::fees::{sector_fee, weighted_bytes};
use crate::activation::state::{position_of, with_data, MinerView};
use crate::activation::types::{
    ClaimOutcomeView, DataActivationNotification, NotificationOutcome, PieceActivationManifest,
    PieceChangeView, SectorChangesView, SectorUpdateManifest,
};
use crate::exit::ExitCode;
use crate::registry::types::{AllocationClaim, SectorClaims};
use crate::types::{ChainEpoch, SectorNumber};
use cid::Cid;
use vstd::prelude::*;

verus! {

/// Total size of the first `n` pieces.
pub open spec fn pieces_size(pieces: Seq<PieceActivationManifest>, n: int) -> int
    decreases n,
{
    if n <= 0 {
        0
    } else {
        pieces_size(pieces, n - 1) + pieces[n - 1].size
    }
}

/// The claim requests of the first `n` pieces: one for each piece that
/// redeems an allocation, in order.
pub open spec fn piece_claims(pieces: Seq<PieceActivationManifest>, n: int) -> Seq<AllocationClaim>
    decreases n,
{
    if n <= 0 {
        Seq::empty()
    } else {
        let p = pieces[n - 1];
        match p.verified_allocation_key {
            Some(key) => piece_claims(pieces, n - 1).push(
                AllocationClaim { client: key.client, allocation_id: key.id, data: p.cid, size: p.size },
            ),
            None => piece_claims(pieces, n - 1),
        }
    }
}

/// The changes to tell about for one piece: one for each of its first `m`
/// notifications, in order.
pub open spec fn notification_changes(
    notify: Seq<DataActivationNotification>,
    data: Cid,
    size: u64,
    m: int,
) -> Seq<PieceChangeView>
    decreases m,
{
    if m <= 0 {
        Seq::empty()
    } else {
        notification_changes(notify, data, size, m - 1).push(
            PieceChangeView { data, size, address: notify[m - 1].address, payload: notify[m - 1].payload@ },
        )
    }
}

/// The changes to tell about for the first `n` pieces of a sector, piece by
/// piece.
pub open spec fn sector_piece_changes(pieces: Seq<PieceActivationManifest>, n: int) -> Seq<PieceChangeView>
    decreases n,
{
    if n <= 0 {
        Seq::empty()
    } else {
        sector_piece_changes(pieces, n - 1) + notification_changes(
            pieces[n - 1].notify@,
            pieces[n - 1].cid,
            pieces[n - 1].size,
            pieces[n - 1].notify@.len() as int,
        )
    }
}

/// Whether one of the first `i` manifests of the batch is for `sector`.
pub open spec fn named_earlier(batch: Seq<SectorUpdateManifest>, i: int, sector: SectorNumber) -> bool
    decreases i,
{
    if i <= 0 {
        false
    } else {
        batch[i - 1].sector == sector || named_earlier(batch, i - 1, sector)
    }
}

/// Whether manifest `i` passes validation: its sector is known, stands at
/// the deadline and partition that the manifest names, holds no data, is
/// named by no earlier manifest of the batch; the pieces fit in a sector;
/// and the proof for it was found good.
pub open spec fn manifest_ok(v: MinerView, batch: Seq<SectorUpdateManifest>, proofs_ok: Seq<bool>, i: int) -> bool {
    let m = batch[i];
    let pos = position_of(v.sectors, m.sector, v.sectors.len() as int);
    &&& pos.is_some()
    &&& v.sectors[pos.unwrap()].deadline == m.deadline
    &&& v.sectors[pos.unwrap()].partition == m.partition
    &&& v.sectors[pos.unwrap()].verified_space == 0
    &&& v.sectors[pos.unwrap()].unverified_space == 0
    &&& !named_earlier(batch, i, m.sector)
    &&& pieces_size(m.pieces@, m.pieces@.len() as int) <= v.sector_size
    &&& i < proofs_ok.len()
    &&& proofs_ok[i]
}

/// The code of validating manifest `i`.
pub open spec fn validation_code(
    v: MinerView,
    batch: Seq<SectorUpdateManifest>,
    proofs_ok: Seq<bool>,
    i: int,
) -> ExitCode {
    if manifest_ok(v, batch, proofs_ok, i) {
        ExitCode::Success
    } else {
        ExitCode::IllegalArgument
    }
}

/// The codes of validating the batch.
pub open spec fn validation_codes(v: MinerView, batch: Seq<SectorUpdateManifest>, proofs_ok: Seq<bool>) -> Seq<
    ExitCode,
> {
    Seq::new(batch.len(), |i: int| validation_code(v, batch, proofs_ok, i))
}

/// The expiration of the sector that a manifest names.
pub open spec fn expiry_of(v: MinerView, m: SectorUpdateManifest) -> ChainEpoch {
    v.sectors[position_of(v.sectors, m.sector, v.sectors.len() as int).unwrap()].expiration
}

/// The claims to make for the sector of a manifest.
pub open spec fn claims_for(v: MinerView, m: SectorUpdateManifest) -> SectorClaims {
    SectorClaims {
        sector: m.sector,
        expiry: expiry_of(v, m),
        claims: piece_claims(m.pieces@, m.pieces@.len() as int),
    }
}

/// The claims to make for those of the first `n` manifests that pass
/// validation, in order.
pub open spec fn planned_claims(
    v: MinerView,
    batch: Seq<SectorUpdateManifest>,
    proofs_ok: Seq<bool>,
    n: int,
) -> Seq<SectorClaims>
    decreases n,
{
    if n <= 0 {
        Seq::empty()
    } else if manifest_ok(v, batch, proofs_ok, n - 1) {
        planned_claims(v, batch, proofs_ok, n - 1).push(claims_for(v, batch[n - 1]))
    } else {
        planned_claims(v, batch, proofs_ok, n - 1)
    }
}

/// Number of the first `n` manifests that pass validation.
pub open spec fn valid_count(v: MinerView, batch: Seq<SectorUpdateManifest>, proofs_ok: Seq<bool>, n: int) -> int
    decreases n,
{
    if n <= 0 {
        0
    } else {
        valid_count(v, batch, proofs_ok, n - 1) + if manifest_ok(v, batch, proofs_ok, n - 1) {
            1int
        } else {
            0int
        }
    }
}

/// The code of sector `i` of the batch at the end: illegal argument when
/// its manifest fails validation; else the code of its claims when that is
/// a failure; else illegal state when the space claimed is not between
/// zero and the size of its pieces; else success.
pub open spec fn activation_code(
    v: MinerView,
    batch: Seq<SectorUpdateManifest>,
    proofs_ok: Seq<bool>,
    outcomes: Seq<ClaimOutcomeView>,
    i: int,
) -> ExitCode {
    let k = valid_count(v, batch, proofs_ok, i);
    if !manifest_ok(v, batch, proofs_ok, i) {
        ExitCode::IllegalArgument
    } else if outcomes[k].code != ExitCode::Success {
        outcomes[k].code
    } else if outcomes[k].claimed_space < 0 || outcomes[k].claimed_space > pieces_size(
        batch[i].pieces@,
        batch[i].pieces@.len() as int,
    ) {
        ExitCode::IllegalState
    } else {
        ExitCode::Success
    }
}

/// The codes of the batch at the end.
pub open spec fn activation_codes(
    v: MinerView,
    batch: Seq<SectorUpdateManifest>,
    proofs_ok: Seq<bool>,
    outcomes: Seq<ClaimOutcomeView>,
) -> Seq<ExitCode> {
    Seq::new(batch.len(), |i: int| activation_code(v, batch, proofs_ok, outcomes, i))
}

/// The verified bytes of sector `i` once activated: the space that its
/// claims were granted.
pub open spec fn verified_bytes(
    v: MinerView,
    batch: Seq<SectorUpdateManifest>,
    proofs_ok: Seq<bool>,
    outcomes: Seq<ClaimOutcomeView>,
    i: int,
) -> int {
    outcomes[valid_count(v, batch, proofs_ok, i)].claimed_space
}

/// The unverified bytes of sector `i` once activated: the rest of its
/// pieces.
pub open spec fn unverified_bytes(
    v: MinerView,
    batch: Seq<SectorUpdateManifest>,
    proofs_ok: Seq<bool>,
    outcomes: Seq<ClaimOutcomeView>,
    i: int,
) -> int {
    pieces_size(batch[i].pieces@, batch[i].pieces@.len() as int) - verified_bytes(v, batch, proofs_ok, outcomes, i)
}

/// The state after the first `n` sectors of the batch: each that ends in
/// success holds its verified and unverified bytes, counts from `epoch`, and
/// pays the fee that follows from `reference`; the others are untouched.
pub open spec fn activated(
    v: MinerView,
    batch: Seq<SectorUpdateManifest>,
    proofs_ok: Seq<bool>,
    outcomes: Seq<ClaimOutcomeView>,
    reference: int,
    epoch: ChainEpoch,
    n: int,
) -> MinerView
    decreases n,
{
    if n <= 0 {
        v
    } else {
        let before = activated(v, batch, proofs_ok, outcomes, reference, epoch, n - 1);
        if activation_code(v, batch, proofs_ok, outcomes, n - 1) == ExitCode::Success {
            let pos = position_of(v.sectors, batch[n - 1].sector, v.sectors.len() as int).unwrap();
            let verified = verified_bytes(v, batch, proofs_ok, outcomes, n - 1) as u64;
            let unverified = unverified_bytes(v, batch, proofs_ok, outcomes, n - 1) as u64;
            MinerView {
                sectors: before.sectors.update(
                    pos,
                    with_data(
                        before.sectors[pos],
                        verified,
                        unverified,
                        epoch,
                        sector_fee(reference, verified, unverified, v.sector_size),
                    ),
                ),
                ..before
            }
        } else {
            before
        }
    }
}

/// The claims made: those of the sectors among the first `n` that end in
/// success, in order.
pub open spec fn claims_made(
    v: MinerView,
    batch: Seq<SectorUpdateManifest>,
    proofs_ok: Seq<bool>,
    outcomes: Seq<ClaimOutcomeView>,
    n: int,
) -> Seq<SectorClaims>
    decreases n,
{
    if n <= 0 {
        Seq::empty()
    } else if activation_code(v, batch, proofs_ok, outcomes, n - 1) == ExitCode::Success {
        claims_made(v, batch, proofs_ok, outcomes, n - 1).push(claims_for(v, batch[n - 1]))
    } else {
        claims_made(v, batch, proofs_ok, outcomes, n - 1)
    }
}

/// What to tell about the sector of a manifest.
pub open spec fn changes_for(v: MinerView, m: SectorUpdateManifest) -> SectorChangesView {
    SectorChangesView {
        sector: m.sector,
        minimum_commitment_epoch: expiry_of(v, m),
        added: sector_piece_changes(m.pieces@, m.pieces@.len() as int),
    }
}

/// The notifications: one entry for each sector among the first `n` that
/// ends in success and has at least one piece to tell about, in order.
pub open spec fn notifications(
    v: MinerView,
    batch: Seq<SectorUpdateManifest>,
    proofs_ok: Seq<bool>,
    outcomes: Seq<ClaimOutcomeView>,
    n: int,
) -> Seq<SectorChangesView>
    decreases n,
{
    if n <= 0 {
        Seq::empty()
    } else if activation_code(v, batch, proofs_ok, outcomes, n - 1) == ExitCode::Success && changes_for(
        v,
        batch[n - 1],
    ).added.len() > 0 {
        notifications(v, batch, proofs_ok, outcomes, n - 1).push(changes_for(v, batch[n - 1]))
    } else {
        notifications(v, batch, proofs_ok, outcomes, n - 1)
    }
}

/// The bytes that the first `n` sectors newly occupy: the pieces of those
/// that end in success.
pub open spec fn raw_power_delta(
    v: MinerView,
    batch: Seq<SectorUpdateManifest>,
    proofs_ok: Seq<bool>,
    outcomes: Seq<ClaimOutcomeView>,
    n: int,
) -> int
    decreases n,
{
    if n <= 0 {
        0
    } else {
        raw_power_delta(v, batch, proofs_ok, outcomes, n - 1) + if activation_code(
            v,
            batch,
            proofs_ok,
            outcomes,
            n - 1,
        ) == ExitCode::Success {
            pieces_size(batch[n - 1].pieces@, batch[n - 1].pieces@.len() as int)
        } else {
            0
        }
    }
}

/// The same with verified bytes counted ten times.
pub open spec fn quality_power_delta(
    v: MinerView,
    batch: Seq<SectorUpdateManifest>,
    proofs_ok: Seq<bool>,
    outcomes: Seq<ClaimOutcomeView>,
    n: int,
) -> int
    decreases n,
{
    if n <= 0 {
        0
    } else {
        quality_power_delta(v, batch, proofs_ok, outcomes, n - 1) + if activation_code(
            v,
            batch,
            proofs_ok,
            outcomes,
            n - 1,
        ) == ExitCode::Success {
            weighted_bytes(
                verified_bytes(v, batch, proofs_ok, outcomes, n - 1) as u64,
                unverified_bytes(v, batch, proofs_ok, outcomes, n - 1) as u64,
            )
        } else {
            0
        }
    }
}

/// Number of the first `n` notifications that were not taken: those that
/// the notified actor turned down, and those whose call was aborted.
pub open spec fn dropped_notifications(outcomes: Seq<NotificationOutcome>, n: int) -> nat
    decreases n,
{
    if n <= 0 {
        0
    } else {
        dropped_notifications(outcomes, n - 1) + if outcomes[n - 1] == NotificationOutcome::Accepted {
            0nat
        } else {
            1nat
        }
    }
}

/// Whether every sector of the batch ends in success.
pub open spec fn all_activated(
    v: MinerView,
    batch: Seq<SectorUpdateManifest>,
    proofs_ok: Seq<bool>,
    outcomes: Seq<ClaimOutcomeView>,
) -> bool {
    forall|i: int| 0 <= i < batch.len() ==> activation_code(v, batch, proofs_ok, outcomes, i) == ExitCode::Success
}

} // verus!
