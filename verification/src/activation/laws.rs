//! Laws of activation, stated over its rules.

use crate::activation::fees::sector_fee;
use crate::activation::lemmas::lemma_activated_shape;
use crate::activation::rules::{
    activated, activation_code, manifest_ok, named_earlier, unverified_bytes, verified_bytes,
};
use crate::activation::state::{
    bucket_sum, deadline_sum, lemma_position_of, position_of, with_data, MinerState, MinerView,
};
use crate::activation::types::{ClaimOutcomeView, SectorUpdateManifest};
use crate::exit::ExitCode;
use crate::types::{ChainEpoch, SectorNumber};
use vstd::prelude::*;

verus! {

/// In a well-formed state the fee total kept for a bucket is the sum of the
/// fees of the sectors that belong to it: those assigned to its partition
/// whose expiration rounds to its epoch. The total kept for a deadline is
/// the sum of the fees of the sectors assigned to it.
pub proof fn law_fee_totals(st: &MinerState, deadline: u64, partition: u64, epoch: ChainEpoch)
    requires
        st.wf(),
    ensures
        st.bucket_total((deadline, partition, epoch)) == bucket_sum(
            st@.sectors,
            st@.quant,
            (deadline, partition, epoch),
            st@.sectors.len() as int,
        ),
        st.deadline_total(deadline) == deadline_sum(st@.sectors, deadline, st@.sectors.len() as int),
{
}

/// The position of the sector that manifest `i` names.
pub open spec fn position_named(v: MinerView, batch: Seq<SectorUpdateManifest>, i: int) -> int {
    position_of(v.sectors, batch[i].sector, v.sectors.len() as int).unwrap()
}

/// A manifest that names a sector named already by an earlier manifest of
/// the batch has an earlier manifest with the same sector.
proof fn lemma_named_earlier(batch: Seq<SectorUpdateManifest>, i: int, sector: SectorNumber, j: int)
    requires
        0 <= j < i,
        batch[j].sector == sector,
    ensures
        named_earlier(batch, i, sector),
    decreases i,
{
    if j < i - 1 {
        lemma_named_earlier(batch, i - 1, sector, j);
    }
}

/// A sector that no manifest ending in success names is left exactly as it
/// was: its data, its base epoch and its fee are unchanged.
pub proof fn law_other_sectors_untouched(
    v: MinerView,
    batch: Seq<SectorUpdateManifest>,
    proofs_ok: Seq<bool>,
    outcomes: Seq<ClaimOutcomeView>,
    reference: int,
    epoch: ChainEpoch,
    n: int,
    q: int,
)
    requires
        0 <= n <= batch.len(),
        0 <= q < v.sectors.len(),
        forall|j: int|
            0 <= j < n && activation_code(v, batch, proofs_ok, outcomes, j) == ExitCode::Success
                ==> #[trigger] position_named(v, batch, j) != q,
    ensures
        activated(v, batch, proofs_ok, outcomes, reference, epoch, n).sectors[q] == v.sectors[q],
    decreases n,
{
    if n > 0 {
        law_other_sectors_untouched(v, batch, proofs_ok, outcomes, reference, epoch, n - 1, q);
        lemma_activated_shape(v, batch, proofs_ok, outcomes, reference, epoch, n - 1);
        if activation_code(v, batch, proofs_ok, outcomes, n - 1) == ExitCode::Success {
            assert(position_named(v, batch, n - 1) != q);
            lemma_position_of(v.sectors, batch[n - 1].sector, v.sectors.len() as int);
        }
    }
}

/// A sector whose manifest ends in success holds, after the batch, the
/// space its claims were granted as verified bytes and the rest of its
/// pieces as unverified bytes, counts from the epoch of the activation, and
/// pays `reference * (verified * 10 + unverified) / (capacity * 10)` a day,
/// rounded down; its number, place and expiration are as before.
pub proof fn law_activated_sector(
    v: MinerView,
    batch: Seq<SectorUpdateManifest>,
    proofs_ok: Seq<bool>,
    outcomes: Seq<ClaimOutcomeView>,
    reference: int,
    epoch: ChainEpoch,
    n: int,
    i: int,
)
    requires
        0 <= i < n <= batch.len(),
        activation_code(v, batch, proofs_ok, outcomes, i) == ExitCode::Success,
    ensures
        ({
            let pos = position_named(v, batch, i);
            let verified = verified_bytes(v, batch, proofs_ok, outcomes, i) as u64;
            let unverified = unverified_bytes(v, batch, proofs_ok, outcomes, i) as u64;
            &&& 0 <= pos < v.sectors.len()
            &&& v.sectors[pos].number == batch[i].sector
            &&& activated(v, batch, proofs_ok, outcomes, reference, epoch, n).sectors[pos] == with_data(
                v.sectors[pos],
                verified,
                unverified,
                epoch,
                sector_fee(reference, verified, unverified, v.sector_size),
            )
        }),
    decreases n,
{
    let pos = position_named(v, batch, i);
    lemma_position_of(v.sectors, batch[i].sector, v.sectors.len() as int);
    assert(manifest_ok(v, batch, proofs_ok, i));
    if i == n - 1 {
        assert forall|j: int|
            0 <= j < i && activation_code(v, batch, proofs_ok, outcomes, j) == ExitCode::Success
                implies #[trigger] position_named(v, batch, j) != pos by {
            lemma_position_of(v.sectors, batch[j].sector, v.sectors.len() as int);
            if position_named(v, batch, j) == pos {
                lemma_named_earlier(batch, i, batch[i].sector, j);
            }
        }
        law_other_sectors_untouched(v, batch, proofs_ok, outcomes, reference, epoch, i, pos);
        lemma_activated_shape(v, batch, proofs_ok, outcomes, reference, epoch, i);
    } else {
        law_activated_sector(v, batch, proofs_ok, outcomes, reference, epoch, n - 1, i);
        lemma_activated_shape(v, batch, proofs_ok, outcomes, reference, epoch, n - 1);
        if activation_code(v, batch, proofs_ok, outcomes, n - 1) == ExitCode::Success {
            lemma_position_of(v.sectors, batch[n - 1].sector, v.sectors.len() as int);
            assert(manifest_ok(v, batch, proofs_ok, n - 1));
            if position_named(v, batch, n - 1) == pos {
                lemma_named_earlier(batch, n - 1, batch[n - 1].sector, i);
            }
        }
    }
}

} // verus!
