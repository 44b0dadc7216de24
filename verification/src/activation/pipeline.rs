//! Activation of a batch of sector updates: validation, the claims and
//! notifications that follow, and the change of the provider's state.

use crate::activation::fees::quality_adjusted_bytes;
use crate::activation::lemmas::{
    lemma_activated_shape, lemma_planned_len, lemma_position_same_numbers,
    lemma_valid_count_monotone,
};
use crate::activation::rules::{
    activated, activation_code, activation_codes, all_activated, changes_for, claims_for,
    claims_made, manifest_ok, named_earlier, notification_changes, notifications, piece_claims,
    pieces_size, planned_claims, quality_power_delta, raw_power_delta, sector_piece_changes,
    unverified_bytes, valid_count, validation_code, validation_codes, verified_bytes,
};
use crate::activation::state::{lemma_position_of, position_of, MinerState, MinerView};
use crate::activation::types::{
    ActivationPlan, ActivationReturn, ClaimOutcome, ClaimOutcomeView, PieceActivationManifest,
    PieceChange, PieceChangeView, PowerDelta, SectorChanges, SectorChangesView,
    SectorUpdateManifest,
};
use crate::bigint::{copy_bytes, BigInt};
use crate::econ::TokenAmount;
use crate::exit::{BatchAborted, BatchReturn, ExitCode};
use crate::registry::types::{claim_groups, AllocationClaim, SectorAllocationClaims, SectorClaims};
use crate::types::{ChainEpoch, SectorNumber};
use vstd::prelude::*;

verus! {

/// The outcomes as the rules see them, in order.
pub open spec fn outcome_views(outcomes: Seq<ClaimOutcome>) -> Seq<ClaimOutcomeView> {
    Seq::new(outcomes.len(), |i: int| outcomes[i]@)
}

/// The piece changes as the rules see them, in order.
pub open spec fn change_views(changes: Seq<PieceChange>) -> Seq<PieceChangeView> {
    Seq::new(changes.len(), |i: int| changes[i]@)
}

/// The sector changes as the rules see them, in order.
pub open spec fn sector_change_views(changes: Seq<SectorChanges>) -> Seq<SectorChangesView> {
    Seq::new(changes.len(), |i: int| changes[i]@)
}

/// Total size of the pieces.
fn pieces_total(pieces: &Vec<PieceActivationManifest>) -> (r: u128)
    ensures
        r == pieces_size(pieces@, pieces@.len() as int),
{
    let mut total: u128 = 0;
    let mut i: usize = 0;
    while i < pieces.len()
        invariant
            i <= pieces@.len(),
            total == pieces_size(pieces@, i as int),
            total <= i * 0xffff_ffff_ffff_ffff,
        decreases pieces@.len() - i,
    {
        assert((i + 1) * 0xffff_ffff_ffff_ffff <= 0x1_0000_0000_0000_0000 * 0xffff_ffff_ffff_ffff) by (
        nonlinear_arith)
            requires
                i + 1 <= 0x1_0000_0000_0000_0000,
        ;
        assert((i + 1) * 0xffff_ffff_ffff_ffff == i * 0xffff_ffff_ffff_ffff + 0xffff_ffff_ffff_ffff) by (
        nonlinear_arith);
        total = total + pieces[i].size as u128;
        i += 1;
    }
    total
}

/// The claims to make for a sector that expires at `expiry`.
fn build_claims(m: &SectorUpdateManifest, expiry: ChainEpoch) -> (r: SectorAllocationClaims)
    ensures
        r@ == (SectorClaims {
            sector: m.sector,
            expiry,
            claims: piece_claims(m.pieces@, m.pieces@.len() as int),
        }),
{
    let mut claims: Vec<AllocationClaim> = Vec::new();
    let mut i: usize = 0;
    while i < m.pieces.len()
        invariant
            i <= m.pieces@.len(),
            claims@ == piece_claims(m.pieces@, i as int),
        decreases m.pieces@.len() - i,
    {
        let p = &m.pieces[i];
        match p.verified_allocation_key {
            Some(key) => {
                claims.push(AllocationClaim { client: key.client, allocation_id: key.id, data: p.cid, size: p.size });
            },
            None => {},
        }
        i += 1;
    }
    SectorAllocationClaims { sector: m.sector, expiry, claims }
}

/// What to tell about a sector that expires at `expiry`.
fn build_changes(m: &SectorUpdateManifest, expiry: ChainEpoch) -> (r: SectorChanges)
    ensures
        r@ == (SectorChangesView {
            sector: m.sector,
            minimum_commitment_epoch: expiry,
            added: sector_piece_changes(m.pieces@, m.pieces@.len() as int),
        }),
{
    let mut added: Vec<PieceChange> = Vec::new();
    let mut i: usize = 0;
    while i < m.pieces.len()
        invariant
            i <= m.pieces@.len(),
            change_views(added@) == sector_piece_changes(m.pieces@, i as int),
        decreases m.pieces@.len() - i,
    {
        let p = &m.pieces[i];
        let ghost done = change_views(added@);
        let mut j: usize = 0;
        while j < p.notify.len()
            invariant
                j <= p.notify@.len(),
                i < m.pieces@.len(),
                *p == m.pieces@[i as int],
                done == sector_piece_changes(m.pieces@, i as int),
                change_views(added@) == done + notification_changes(p.notify@, p.cid, p.size, j as int),
            decreases p.notify@.len() - j,
        {
            let n = &p.notify[j];
            let ghost before = change_views(added@);
            let change = PieceChange {
                data: p.cid,
                size: p.size,
                address: n.address,
                payload: copy_bytes(&n.payload),
            };
            added.push(change);
            j += 1;
            proof {
                assert(change_views(added@) =~= before.push(change@));
                assert(before.push(change@) =~= done + notification_changes(p.notify@, p.cid, p.size, j as int));
            }
        }
        i += 1;
    }
    let r = SectorChanges { sector: m.sector, minimum_commitment_epoch: expiry, added };
    assert(r@.added =~= change_views(r.added@));
    r
}

/// Whether one of the first `i` manifests is for `sector`.
fn named_earlier_in(batch: &Vec<SectorUpdateManifest>, i: usize, sector: SectorNumber) -> (r: bool)
    requires
        i <= batch@.len(),
    ensures
        r == named_earlier(batch@, i as int, sector),
{
    let mut found = false;
    let mut j: usize = 0;
    while j < i
        invariant
            j <= i <= batch@.len(),
            found == named_earlier(batch@, j as int, sector),
        decreases i - j,
    {
        if batch[j].sector == sector {
            found = true;
        }
        j += 1;
    }
    found
}

impl MinerState {
    /// Whether manifest `i` passes validation; if it does, the position
    /// and the expiration of its sector.
    fn validate_manifest(&self, batch: &Vec<SectorUpdateManifest>, proofs_ok: &Vec<bool>, i: usize) -> (r: Option<
        (usize, ChainEpoch),
    >)
        requires
            self.wf(),
            i < batch@.len(),
        ensures
            r.is_some() == manifest_ok(self@, batch@, proofs_ok@, i as int),
            r.is_some() ==> position_of(self@.sectors, batch@[i as int].sector, self@.sectors.len() as int)
                == Some(r.unwrap().0 as int) && r.unwrap().0 < self@.sectors.len() && r.unwrap().1
                == self@.sectors[r.unwrap().0 as int].expiration,
    {
        let m = &batch[i];
        proof {
            lemma_position_of(self@.sectors, m.sector, self@.sectors.len() as int);
        }
        let pos = match self.find_sector(m.sector) {
            None => {
                return None;
            },
            Some(pos) => pos,
        };
        let sector = self.sector_at(pos);
        if sector.deadline != m.deadline || sector.partition != m.partition || sector.verified_space != 0
            || sector.unverified_space != 0 {
            return None;
        }
        if named_earlier_in(batch, i, m.sector) {
            return None;
        }
        if pieces_total(&m.pieces) > self.sector_size() as u128 {
            return None;
        }
        if i >= proofs_ok.len() || !proofs_ok[i] {
            return None;
        }
        Some((pos, sector.expiration))
    }

    /// Validates a batch of sector updates and draws up the claims to make.
    ///
    /// A manifest passes when its sector is known, stands where the
    /// manifest says, holds no data, is named by no earlier manifest, the
    /// pieces fit in a sector, and `proofs_ok` holds `true` for it. A
    /// manifest that does not pass gets illegal argument. For each manifest
    /// that passes, in order, the claims hold one request for each piece
    /// that redeems an allocation, with the sector's expiration.
    pub fn plan_activation(&self, batch: &Vec<SectorUpdateManifest>, proofs_ok: &Vec<bool>) -> (r: ActivationPlan)
        requires
            self.wf(),
        ensures
            r.validation@ == validation_codes(self@, batch@, proofs_ok@),
            claim_groups(r.claims@) == planned_claims(self@, batch@, proofs_ok@, batch@.len() as int),
    {
        let mut validation = BatchReturn::empty();
        let mut claims: Vec<SectorAllocationClaims> = Vec::new();
        let mut i: usize = 0;
        while i < batch.len()
            invariant
                i <= batch@.len(),
                self.wf(),
                validation@ == Seq::new(i as nat, |k: int| validation_code(self@, batch@, proofs_ok@, k)),
                claim_groups(claims@) == planned_claims(self@, batch@, proofs_ok@, i as int),
            decreases batch@.len() - i,
        {
            let ghost before_codes = validation@;
            let ghost before_groups = claim_groups(claims@);
            match self.validate_manifest(batch, proofs_ok, i) {
                Some((_, expiry)) => {
                    let group = build_claims(&batch[i], expiry);
                    assert(group@ == claims_for(self@, batch@[i as int]));
                    claims.push(group);
                    validation.push(ExitCode::Success);
                    assert(claim_groups(claims@) =~= before_groups.push(group@));
                },
                None => {
                    validation.push(ExitCode::IllegalArgument);
                },
            }
            i += 1;
            assert(validation@ =~= Seq::new(i as nat, |k: int| validation_code(self@, batch@, proofs_ok@, k)));
        }
        assert(validation@ =~= validation_codes(self@, batch@, proofs_ok@));
        ActivationPlan { validation, claims }
    }

    /// Completes the activation of a batch once the claim registry has
    /// answered.
    ///
    /// `outcomes` holds the registry's answer for each manifest that passes
    /// validation, in order. A sector ends in success when its manifest
    /// passes, its claims succeeded, and the space claimed lies between
    /// zero and the size of its pieces. Such a sector then holds the space
    /// claimed as verified bytes and the rest of its pieces as unverified
    /// bytes, counts from `epoch`, and pays
    /// `reference * (verified * 10 + unverified) / (capacity * 10)` a day;
    /// the totals of its expiration bucket and of its deadline move by the
    /// change of its fee. The call fails as a whole, changing nothing, when
    /// the number of outcomes is not the number of valid manifests, with the
    /// codes of validation, or when `require_activation_success` is set
    /// and some sector does not end in success, with the codes that the
    /// sectors end in. What became of notifications plays no part.
    pub fn complete_activation(
        &mut self,
        batch: &Vec<SectorUpdateManifest>,
        proofs_ok: &Vec<bool>,
        outcomes: &Vec<ClaimOutcome>,
        require_activation_success: bool,
        reference: &TokenAmount,
        epoch: ChainEpoch,
    ) -> (r: Result<ActivationReturn, BatchAborted>)
        requires
            old(self).wf(),
        ensures
            final(self).wf(),
            ({
                let v = old(self)@;
                let o = outcome_views(outcomes@);
                let n = batch@.len() as int;
                if o.len() != valid_count(v, batch@, proofs_ok@, n) {
                    &&& r.is_err()
                    &&& r.unwrap_err().exit_code == ExitCode::IllegalState
                    &&& r.unwrap_err().results@ == validation_codes(v, batch@, proofs_ok@)
                    &&& final(self)@ == v
                } else if require_activation_success && !all_activated(v, batch@, proofs_ok@, o) {
                    &&& r.is_err()
                    &&& r.unwrap_err().exit_code == ExitCode::IllegalArgument
                    &&& r.unwrap_err().results@ == activation_codes(v, batch@, proofs_ok@, o)
                    &&& final(self)@ == v
                } else {
                    &&& r.is_ok()
                    &&& r.unwrap().activation_results@ == activation_codes(v, batch@, proofs_ok@, o)
                    &&& claim_groups(r.unwrap().claims@) == claims_made(v, batch@, proofs_ok@, o, n)
                    &&& sector_change_views(r.unwrap().notifications@) == notifications(v, batch@, proofs_ok@, o, n)
                    &&& r.unwrap().power_delta.raw@ == raw_power_delta(v, batch@, proofs_ok@, o, n)
                    &&& r.unwrap().power_delta.quality_adjusted@ == quality_power_delta(
                        v,
                        batch@,
                        proofs_ok@,
                        o,
                        n,
                    )
                    &&& final(self)@ == activated(v, batch@, proofs_ok@, o, reference@, epoch, n)
                }
            }),
    {
        let ghost v = self@;
        let ghost o = outcome_views(outcomes@);
        let ghost n = batch@.len() as int;
        let plan = self.plan_activation(batch, proofs_ok);
        proof {
            lemma_planned_len(v, batch@, proofs_ok@, n);
            assert(claim_groups(plan.claims@).len() == plan.claims@.len());
        }
        if plan.claims.len() != outcomes.len() {
            return Err(BatchAborted { exit_code: ExitCode::IllegalState, results: plan.validation });
        }
        // First pass: what each sector ends in, and its verified bytes.
        let mut codes: Vec<ExitCode> = Vec::new();
        let mut verified: Vec<u64> = Vec::new();
        let mut totals: Vec<u64> = Vec::new();
        let mut all_ok = true;
        let mut k: usize = 0;
        let mut i: usize = 0;
        let count = outcomes.len();
        while i < batch.len()
            invariant
                i <= batch@.len(),
                n == batch@.len(),
                count == outcomes@.len(),
                v == self@,
                self.wf(),
                o == outcome_views(outcomes@),
                o.len() == valid_count(v, batch@, proofs_ok@, n),
                plan.validation@ == validation_codes(v, batch@, proofs_ok@),
                k == valid_count(v, batch@, proofs_ok@, i as int),
                codes@.len() == i,
                verified@.len() == i,
                totals@.len() == i,
                forall|j: int| 0 <= j < i ==> #[trigger] codes@[j] == activation_code(v, batch@, proofs_ok@, o, j),
                forall|j: int|
                    0 <= j < i && #[trigger] codes@[j] == ExitCode::Success ==> verified@[j] == verified_bytes(
                        v,
                        batch@,
                        proofs_ok@,
                        o,
                        j,
                    ) && totals@[j] == pieces_size(batch@[j].pieces@, batch@[j].pieces@.len() as int)
                        && verified@[j] <= totals@[j] <= v.sector_size,
                all_ok == (forall|j: int|
                    0 <= j < i ==> activation_code(v, batch@, proofs_ok@, o, j) == ExitCode::Success),
            decreases batch@.len() - i,
        {
            let mut code = ExitCode::IllegalArgument;
            let mut granted: u64 = 0;
            let mut total: u64 = 0;
            assert(plan.validation@[i as int] == validation_code(v, batch@, proofs_ok@, i as int));
            if plan.validation.code_at(i).is_success() {
                proof {
                    lemma_valid_count_monotone(v, batch@, proofs_ok@, i + 1, n);
                }
                let outcome = &outcomes[k];
                assert(o[k as int] == outcome@);
                let size = pieces_total(&batch[i].pieces);
                assert(size <= v.sector_size);
                total = size as u64;
                if !outcome.code.is_success() {
                    code = outcome.code;
                } else if outcome.claimed_space.is_negative() || BigInt::from_u64(total).lt(&outcome.claimed_space) {
                    code = ExitCode::IllegalState;
                } else {
                    code = ExitCode::Success;
                    granted = outcome.claimed_space.to_i128().unwrap() as u64;
                }
                k += 1;
            }
            assert(code == activation_code(v, batch@, proofs_ok@, o, i as int));
            if !code.is_success() {
                all_ok = false;
            }
            codes.push(code);
            verified.push(granted);
            totals.push(total);
            i += 1;
        }
        if require_activation_success && !all_ok {
            let results = BatchReturn::of(&codes);
            assert(results@ =~= activation_codes(v, batch@, proofs_ok@, o));
            return Err(BatchAborted { exit_code: ExitCode::IllegalArgument, results });
        }
        // Second pass: record the data of the sectors that end in success.
        let mut results = BatchReturn::empty();
        let mut claims: Vec<SectorAllocationClaims> = Vec::new();
        let mut notes: Vec<SectorChanges> = Vec::new();
        let mut raw = BigInt::zero();
        let mut quality = BigInt::zero();
        let mut i: usize = 0;
        while i < batch.len()
            invariant
                i <= batch@.len(),
                n == batch@.len(),
                v == old(self)@,
                view_ok(v),
                self.wf(),
                o == outcome_views(outcomes@),
                codes@.len() == n,
                verified@.len() == n,
                totals@.len() == n,
                forall|j: int| 0 <= j < n ==> #[trigger] codes@[j] == activation_code(v, batch@, proofs_ok@, o, j),
                forall|j: int|
                    0 <= j < n && #[trigger] codes@[j] == ExitCode::Success ==> verified@[j] == verified_bytes(
                        v,
                        batch@,
                        proofs_ok@,
                        o,
                        j,
                    ) && totals@[j] == pieces_size(batch@[j].pieces@, batch@[j].pieces@.len() as int)
                        && verified@[j] <= totals@[j] <= v.sector_size,
                self@ == activated(v, batch@, proofs_ok@, o, reference@, epoch, i as int),
                results@ == Seq::new(i as nat, |j: int| activation_code(v, batch@, proofs_ok@, o, j)),
                claim_groups(claims@) == claims_made(v, batch@, proofs_ok@, o, i as int),
                sector_change_views(notes@) == notifications(v, batch@, proofs_ok@, o, i as int),
                raw@ == raw_power_delta(v, batch@, proofs_ok@, o, i as int),
                quality@ == quality_power_delta(v, batch@, proofs_ok@, o, i as int),
            decreases batch@.len() - i,
        {
            let code = codes[i];
            let ghost before_groups = claim_groups(claims@);
            let ghost before_notes = sector_change_views(notes@);
            if code.is_success() {
                let m = &batch[i];
                proof {
                    lemma_activated_shape(v, batch@, proofs_ok@, o, reference@, epoch, i as int);
                    lemma_position_same_numbers(self@.sectors, v.sectors, m.sector, v.sectors.len() as int);
                    lemma_position_of(v.sectors, m.sector, v.sectors.len() as int);
                    assert(manifest_ok(v, batch@, proofs_ok@, i as int));
                }
                let pos = self.find_sector(m.sector).unwrap();
                let expiry = self.sector_at(pos).expiration;
                assert(expiry == crate::activation::rules::expiry_of(v, *m));
                let granted = verified[i];
                let rest = totals[i] - granted;
                assert(granted == verified_bytes(v, batch@, proofs_ok@, o, i as int));
                assert(rest == unverified_bytes(v, batch@, proofs_ok@, o, i as int));
                self.set_data(pos, granted, rest, epoch, reference);
                let group = build_claims(m, expiry);
                assert(group@ == claims_for(v, *m));
                claims.push(group);
                assert(claim_groups(claims@) =~= before_groups.push(group@));
                let changes = build_changes(m, expiry);
                assert(changes@ == changes_for(v, *m));
                if changes.added.len() > 0 {
                    notes.push(changes);
                    assert(sector_change_views(notes@) =~= before_notes.push(changes@));
                }
                raw = raw.add(&BigInt::from_u64(totals[i]));
                quality = quality.add(&quality_adjusted_bytes(granted, rest));
            }
            results.push(code);
            i += 1;
            assert(results@ =~= Seq::new(i as nat, |j: int| activation_code(v, batch@, proofs_ok@, o, j)));
        }
        assert(results@ =~= activation_codes(v, batch@, proofs_ok@, o));
        Ok(
            ActivationReturn {
                activation_results: results,
                claims,
                notifications: notes,
                power_delta: PowerDelta { raw, quality_adjusted: quality },
            },
        )
    }
}

/// The view is in order.
spec fn view_ok(v: MinerView) -> bool {
    crate::activation::state::view_wf(v)
}

} // verus!
