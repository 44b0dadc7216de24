//! Activation of a batch against the claim registry, end to end.

use crate::activation::lemmas::{lemma_claimed_within_pieces, lemma_planned_at, lemma_planned_len};
use crate::activation::pipeline::{outcome_views, sector_change_views};
use crate::activation::rules::{
    activated, activation_code, activation_codes, all_activated, claims_made, dropped_notifications,
    manifest_ok, notifications, planned_claims, quality_power_delta, raw_power_delta, valid_count,
    validation_codes,
};
use crate::activation::state::MinerState;
use crate::activation::types::{
    ActivationReturn, ClaimOutcome, ClaimOutcomeView, NotificationOutcome, SectorUpdateManifest,
};
use crate::bigint::BigInt;
use crate::econ::TokenAmount;
use crate::exit::{BatchAborted, ExitCode};
use crate::registry::lemmas::lemma_sector_codes;
use crate::registry::rules::{
    after_sectors, all_success, claimed_spaces, requested_space, sector_codes,
};
use crate::registry::state::{summary_spaces, Registry};
use crate::registry::types::{claim_groups, ClaimAllocationsReturn, SectorClaims};
use crate::types::{ActorID, ChainEpoch};
use vstd::prelude::*;

verus! {

/// What the registry's answer means for each sector asked for: its code,
/// and, when that is success, the total size of its requests as the space
/// claimed.
pub open spec fn registry_outcomes(codes: Seq<ExitCode>, groups: Seq<SectorClaims>) -> Seq<ClaimOutcomeView> {
    Seq::new(
        groups.len(),
        |k: int|
            ClaimOutcomeView {
                code: codes[k],
                claimed_space: if codes[k] == ExitCode::Success {
                    requested_space(groups[k].claims, groups[k].claims.len() as int)
                } else {
                    0
                },
            },
    )
}

/// Whether every manifest of the batch passes validation.
pub open spec fn all_valid(
    v: crate::activation::state::MinerView,
    batch: Seq<SectorUpdateManifest>,
    proofs_ok: Seq<bool>,
) -> bool {
    forall|i: int| 0 <= i < batch.len() ==> manifest_ok(v, batch, proofs_ok, i)
}

/// While every manifest passes validation, the valid manifests before
/// manifest `i` are all of them.
proof fn lemma_all_valid_count(
    v: crate::activation::state::MinerView,
    batch: Seq<SectorUpdateManifest>,
    proofs_ok: Seq<bool>,
    i: int,
)
    requires
        0 <= i <= batch.len(),
        all_valid(v, batch, proofs_ok),
    ensures
        valid_count(v, batch, proofs_ok, i) == i,
    decreases i,
{
    if i > 0 {
        lemma_all_valid_count(v, batch, proofs_ok, i - 1);
        assert(manifest_ok(v, batch, proofs_ok, i - 1));
    }
}

/// The claimed spaces of the first `m` sectors open the list of those of
/// the first `n`.
proof fn lemma_claimed_spaces_stable(codes: Seq<ExitCode>, groups: Seq<SectorClaims>, m: int, n: int)
    requires
        0 <= m <= n,
    ensures
        claimed_spaces(codes, groups, m).len() <= claimed_spaces(codes, groups, n).len(),
        forall|k: int|
            0 <= k < claimed_spaces(codes, groups, m).len() ==> claimed_spaces(codes, groups, n)[k]
                == claimed_spaces(codes, groups, m)[k],
    decreases n - m,
{
    if m < n {
        lemma_claimed_spaces_stable(codes, groups, m, n - 1);
    }
}

/// The registry's answer, sector by sector.
fn outcomes_of(ret: &ClaimAllocationsReturn, Ghost(groups): Ghost<Seq<SectorClaims>>) -> (r: Vec<ClaimOutcome>)
    requires
        ret.sector_results@.len() == groups.len(),
        summary_spaces(ret.sector_claims@) == claimed_spaces(ret.sector_results@, groups, groups.len() as int),
    ensures
        outcome_views(r@) == registry_outcomes(ret.sector_results@, groups),
{
    let ghost codes = ret.sector_results@;
    let ghost n = groups.len() as int;
    let mut out: Vec<ClaimOutcome> = Vec::new();
    let mut s: usize = 0;
    let mut k: usize = 0;
    let total = ret.sector_results.size();
    let granted = ret.sector_claims.len();
    while k < total
        invariant
            k <= total,
            total == codes.len(),
            codes == ret.sector_results@,
            n == groups.len(),
            n == total,
            granted == ret.sector_claims@.len(),
            summary_spaces(ret.sector_claims@) == claimed_spaces(codes, groups, n),
            s == claimed_spaces(codes, groups, k as int).len(),
            out@.len() == k,
            forall|j: int| 0 <= j < k ==> (#[trigger] out@[j])@ == registry_outcomes(codes, groups)[j],
        decreases total - k,
    {
        let code = ret.sector_results.code_at(k);
        proof {
            lemma_claimed_spaces_stable(codes, groups, k + 1, n);
        }
        let space = if code.is_success() {
            assert(claimed_spaces(codes, groups, k + 1).len() == s + 1);
            assert(s < summary_spaces(ret.sector_claims@).len());
            assert(summary_spaces(ret.sector_claims@)[s as int] == ret.sector_claims@[s as int].claimed_space@);
            assert(claimed_spaces(codes, groups, k + 1)[s as int] == requested_space(
                groups[k as int].claims,
                groups[k as int].claims.len() as int,
            ));
            let space = ret.sector_claims[s].claimed_space.clone();
            s += 1;
            space
        } else {
            BigInt::zero()
        };
        out.push(ClaimOutcome { code, claimed_space: space });
        k += 1;
    }
    assert(outcome_views(out@) =~= registry_outcomes(codes, groups));
    out
}

/// Takes note of what the notified actors answered after an activation.
///
/// A notification that was turned down, or whose call was aborted, is
/// dropped and no more: it takes part in no decision, with
/// `require_notification_success` set or not, so the codes of the sectors,
/// the claims made and what the provider's state records stand as the
/// activation left them. Returns the number of notifications dropped.
pub fn settle_notifications(outcomes: &Vec<NotificationOutcome>, require_notification_success: bool) -> (dropped:
    usize)
    ensures
        dropped == dropped_notifications(outcomes@, outcomes@.len() as int),
{
    let _ = require_notification_success;
    let mut dropped: usize = 0;
    let mut i: usize = 0;
    while i < outcomes.len()
        invariant
            i <= outcomes@.len(),
            dropped <= i,
            dropped == dropped_notifications(outcomes@, i as int),
        decreases outcomes@.len() - i,
    {
        match outcomes[i] {
            NotificationOutcome::Accepted => {},
            _ => {
                dropped += 1;
            },
        }
        i += 1;
    }
    dropped
}

/// Activates a batch of sector updates of `provider` at `epoch`, redeeming
/// the allocations that the pieces name in `registry`.
///
/// The batch is validated, the claims of the manifests that pass are made
/// in one call to the registry, and the sectors whose claims succeeded are
/// recorded with their data, fee and power. Without
/// `require_activation_success` each sector stands for itself. With it, a
/// manifest that fails validation or a sector whose claims fail makes the
/// whole call fail, and neither the provider's state nor the registry
/// changes; the failure carries the codes of validation when a manifest
/// failed it, where no claim is tried, and else the codes that the sectors
/// end in. The outcome does not depend on
/// `require_notification_success`: what a notified actor answers never
/// undoes an activation.
pub fn activate_sectors(
    miner: &mut MinerState,
    registry: &mut Registry,
    provider: ActorID,
    batch: &Vec<SectorUpdateManifest>,
    proofs_ok: &Vec<bool>,
    require_activation_success: bool,
    require_notification_success: bool,
    reference: &TokenAmount,
    epoch: ChainEpoch,
) -> (r: Result<ActivationReturn, BatchAborted>)
    requires
        old(miner).wf(),
        old(registry).wf(),
    ensures
        final(miner).wf(),
        final(registry).wf(),
        ({
            let v = old(miner)@;
            let n = batch@.len() as int;
            let groups = planned_claims(v, batch@, proofs_ok@, n);
            let codes = sector_codes(old(registry)@, provider, groups, epoch, groups.len() as int);
            let o = registry_outcomes(codes, groups);
            if require_activation_success && !all_valid(v, batch@, proofs_ok@) {
                &&& r.is_err()
                &&& r.unwrap_err().exit_code == ExitCode::IllegalArgument
                &&& r.unwrap_err().results@ == validation_codes(v, batch@, proofs_ok@)
                &&& final(miner)@ == v
                &&& final(registry)@ == old(registry)@
            } else if require_activation_success && !all_success(codes) {
                &&& r.is_err()
                &&& r.unwrap_err().exit_code == ExitCode::IllegalArgument
                &&& r.unwrap_err().results@ == activation_codes(v, batch@, proofs_ok@, o)
                &&& final(miner)@ == v
                &&& final(registry)@ == old(registry)@
            } else {
                &&& r.is_ok()
                &&& r.unwrap().activation_results@ == activation_codes(v, batch@, proofs_ok@, o)
                &&& claim_groups(r.unwrap().claims@) == claims_made(v, batch@, proofs_ok@, o, n)
                &&& sector_change_views(r.unwrap().notifications@) == notifications(v, batch@, proofs_ok@, o, n)
                &&& r.unwrap().power_delta.raw@ == raw_power_delta(v, batch@, proofs_ok@, o, n)
                &&& r.unwrap().power_delta.quality_adjusted@ == quality_power_delta(v, batch@, proofs_ok@, o, n)
                &&& final(miner)@ == activated(v, batch@, proofs_ok@, o, reference@, epoch, n)
                &&& final(registry)@ == after_sectors(old(registry)@, provider, groups, epoch, groups.len() as int)
            }
        }),
{
    let _ = require_notification_success;
    let ghost v = miner@;
    let ghost n = batch@.len() as int;
    let ghost groups = planned_claims(v, batch@, proofs_ok@, n);
    let ghost codes = sector_codes(registry@, provider, groups, epoch, groups.len() as int);
    let plan = miner.plan_activation(batch, proofs_ok);
    proof {
        lemma_planned_len(v, batch@, proofs_ok@, n);
        lemma_sector_codes(registry@, provider, groups, epoch, groups.len() as int);
        assert(claim_groups(plan.claims@).len() == plan.claims@.len());
    }
    let valid = plan.validation.all_ok();
    proof {
        assert(valid == all_valid(v, batch@, proofs_ok@)) by {
            assert(plan.validation@ == validation_codes(v, batch@, proofs_ok@));
            if valid {
                assert forall|i: int| 0 <= i < batch@.len() implies manifest_ok(v, batch@, proofs_ok@, i) by {
                    assert(plan.validation@[i] == ExitCode::Success);
                }
            } else {
                if all_valid(v, batch@, proofs_ok@) {
                    assert forall|i: int| 0 <= i < plan.validation@.len() implies plan.validation@[i]
                        == ExitCode::Success by {
                        assert(manifest_ok(v, batch@, proofs_ok@, i));
                    }
                }
            }
        }
    }
    if require_activation_success && !valid {
        return Err(BatchAborted { exit_code: ExitCode::IllegalArgument, results: plan.validation });
    }
    let answer = match registry.claim_allocations(provider, &plan.claims, require_activation_success, epoch) {
        Err(e) => {
            proof {
                let o = registry_outcomes(codes, groups);
                assert(e.results@ =~= activation_codes(v, batch@, proofs_ok@, o)) by {
                    lemma_all_valid_count(v, batch@, proofs_ok@, n);
                    assert(e.results@.len() == batch@.len());
                    assert forall|i: int| 0 <= i < batch@.len() implies #[trigger] e.results@[i] == activation_code(
                        v,
                        batch@,
                        proofs_ok@,
                        o,
                        i,
                    ) by {
                        assert(manifest_ok(v, batch@, proofs_ok@, i));
                        lemma_all_valid_count(v, batch@, proofs_ok@, i);
                        lemma_planned_at(v, batch@, proofs_ok@, i, n);
                        lemma_claimed_within_pieces(batch@[i].pieces@, batch@[i].pieces@.len() as int);
                    }
                }
            }
            return Err(e);
        },
        Ok(answer) => answer,
    };
    let outcomes = outcomes_of(&answer, Ghost(groups));
    proof {
        let o = registry_outcomes(codes, groups);
        assert(o.len() == valid_count(v, batch@, proofs_ok@, n));
        if require_activation_success {
            assert forall|i: int| 0 <= i < batch@.len() implies activation_code(v, batch@, proofs_ok@, o, i)
                == ExitCode::Success by {
                assert(manifest_ok(v, batch@, proofs_ok@, i));
                lemma_planned_at(v, batch@, proofs_ok@, i, n);
                let k = valid_count(v, batch@, proofs_ok@, i);
                assert(codes[k] == ExitCode::Success);
                lemma_claimed_within_pieces(batch@[i].pieces@, batch@[i].pieces@.len() as int);
            }
            assert(all_activated(v, batch@, proofs_ok@, o));
        }
    }
    miner.complete_activation(batch, proofs_ok, &outcomes, require_activation_success, reference, epoch)
}

} // verus!
