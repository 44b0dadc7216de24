//! Facts about the activation rules that the operations rest on.

use crate::activation::rules::{
    activated, manifest_ok, piece_claims, pieces_size, planned_claims, valid_count,
};
use crate::activation::state::{lemma_position_of, position_of, MinerView, SectorView};
use crate::activation::types::{ClaimOutcomeView, PieceActivationManifest, SectorUpdateManifest};
use crate::registry::rules::requested_space;
use crate::types::{ChainEpoch, SectorNumber};
use vstd::prelude::*;

verus! {

/// There is one planned claim group for each manifest that passes
/// validation.
pub proof fn lemma_planned_len(v: MinerView, batch: Seq<SectorUpdateManifest>, proofs_ok: Seq<bool>, n: int)
    requires
        0 <= n,
    ensures
        planned_claims(v, batch, proofs_ok, n).len() == valid_count(v, batch, proofs_ok, n),
        0 <= valid_count(v, batch, proofs_ok, n) <= n,
    decreases n,
{
    if n > 0 {
        lemma_planned_len(v, batch, proofs_ok, n - 1);
    }
}

/// The number of manifests that pass validation grows with the number
/// looked at.
pub proof fn lemma_valid_count_monotone(
    v: MinerView,
    batch: Seq<SectorUpdateManifest>,
    proofs_ok: Seq<bool>,
    m: int,
    n: int,
)
    requires
        0 <= m <= n,
    ensures
        valid_count(v, batch, proofs_ok, m) <= valid_count(v, batch, proofs_ok, n),
    decreases n - m,
{
    if m < n {
        lemma_valid_count_monotone(v, batch, proofs_ok, m, n - 1);
    }
}

/// The planned claim group of a valid manifest stands at the position that
/// counts the valid manifests before it.
pub proof fn lemma_planned_at(v: MinerView, batch: Seq<SectorUpdateManifest>, proofs_ok: Seq<bool>, i: int, n: int)
    requires
        0 <= i < n,
        manifest_ok(v, batch, proofs_ok, i),
    ensures
        0 <= valid_count(v, batch, proofs_ok, i) < planned_claims(v, batch, proofs_ok, n).len(),
        planned_claims(v, batch, proofs_ok, n)[valid_count(v, batch, proofs_ok, i)]
            == crate::activation::rules::claims_for(v, batch[i]),
    decreases n,
{
    lemma_planned_len(v, batch, proofs_ok, n - 1);
    lemma_planned_len(v, batch, proofs_ok, n);
    lemma_planned_len(v, batch, proofs_ok, i);
    let k = valid_count(v, batch, proofs_ok, i);
    let before = planned_claims(v, batch, proofs_ok, n - 1);
    if i < n - 1 {
        lemma_planned_at(v, batch, proofs_ok, i, n - 1);
        assert(k < before.len());
        if manifest_ok(v, batch, proofs_ok, n - 1) {
            assert(before.push(crate::activation::rules::claims_for(v, batch[n - 1]))[k] == before[k]);
        }
    } else {
        assert(k == before.len());
        assert(before.push(crate::activation::rules::claims_for(v, batch[i]))[k]
            == crate::activation::rules::claims_for(v, batch[i]));
    }
}

/// The pieces that redeem an allocation are no larger together than all
/// the pieces.
pub proof fn lemma_claimed_within_pieces(pieces: Seq<PieceActivationManifest>, n: int)
    requires
        0 <= n <= pieces.len(),
    ensures
        0 <= requested_space(piece_claims(pieces, n), piece_claims(pieces, n).len() as int) <= pieces_size(
            pieces,
            n,
        ),
    decreases n,
{
    if n > 0 {
        lemma_claimed_within_pieces(pieces, n - 1);
        let before = piece_claims(pieces, n - 1);
        let now = piece_claims(pieces, n);
        if pieces[n - 1].verified_allocation_key.is_some() {
            assert(now.drop_last() =~= before);
            lemma_requested_space_prefix(now, before, before.len() as int);
        }
    }
}

/// The space asked for by the first `n` requests depends on those requests
/// only.
pub proof fn lemma_requested_space_prefix(
    a: Seq<crate::registry::types::AllocationClaim>,
    b: Seq<crate::registry::types::AllocationClaim>,
    n: int,
)
    requires
        0 <= n <= a.len(),
        n <= b.len(),
        forall|i: int| 0 <= i < n ==> a[i] == b[i],
    ensures
        requested_space(a, n) == requested_space(b, n),
    decreases n,
{
    if n > 0 {
        lemma_requested_space_prefix(a, b, n - 1);
    }
}

/// An activation changes the data, the base epoch and the fee of sectors
/// and nothing else: their number, place and expiration stay, and so do
/// the capacity and the bucket grid.
pub proof fn lemma_activated_shape(
    v: MinerView,
    batch: Seq<SectorUpdateManifest>,
    proofs_ok: Seq<bool>,
    outcomes: Seq<ClaimOutcomeView>,
    reference: int,
    epoch: ChainEpoch,
    n: int,
)
    requires
        0 <= n,
    ensures
        ({
            let a = activated(v, batch, proofs_ok, outcomes, reference, epoch, n);
            &&& a.sector_size == v.sector_size
            &&& a.quant == v.quant
            &&& a.sectors.len() == v.sectors.len()
            &&& forall|j: int|
                0 <= j < v.sectors.len() ==> (#[trigger] a.sectors[j]).number == v.sectors[j].number
                    && a.sectors[j].deadline == v.sectors[j].deadline && a.sectors[j].partition
                    == v.sectors[j].partition && a.sectors[j].expiration == v.sectors[j].expiration
        }),
    decreases n,
{
    if n > 0 {
        lemma_activated_shape(v, batch, proofs_ok, outcomes, reference, epoch, n - 1);
        lemma_position_of(v.sectors, batch[n - 1].sector, v.sectors.len() as int);
    }
}

/// Sectors with the same numbers in the same order give the same position
/// for a number.
pub proof fn lemma_position_same_numbers(a: Seq<SectorView>, b: Seq<SectorView>, number: SectorNumber, n: int)
    requires
        0 <= n <= a.len(),
        a.len() == b.len(),
        forall|j: int| 0 <= j < a.len() ==> (#[trigger] a[j]).number == b[j].number,
    ensures
        position_of(a, number, n) == position_of(b, number, n),
    decreases n,
{
    if n > 0 {
        lemma_position_same_numbers(a, b, number, n - 1);
    }
}

} // verus!
