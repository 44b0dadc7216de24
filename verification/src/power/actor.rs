//! The operations of the storage power actor on its state.

use crate::bigint::{copy_bytes, BigInt};
use crate::econ::TokenAmount;
use crate::exit::{ActorError, ExitCode};
use crate::policy::Policy;
use crate::power::state::{
    after_power_change, due_events, events_at, network_power, not_due, post_proof_is_known,
    power_change_code, queue_views, supported_proof, Claim, ClaimView, CronEvent, CronEventView,
    FilterEstimate, PowerView, QueuedEvent, QueuedEventView, State, CONSENSUS_MINER_MIN_MINERS,
};
use crate::types::{ActorID, ChainEpoch};
use vstd::prelude::*;

verus! {

/// Storage power actor.
pub struct Actor;

/// The totals as frozen at the last cron tick.
#[derive(Debug)]
pub struct CurrentTotalPowerReturn {
    pub raw_byte_power: BigInt,
    pub quality_adj_power: BigInt,
    pub pledge_collateral: TokenAmount,
    pub quality_adj_power_smoothed: FilterEstimate,
    pub ramp_start_epoch: ChainEpoch,
    pub ramp_duration_epochs: u64,
}

/// The events that are due, with what every callback is to carry of the
/// state.
#[derive(Debug)]
pub struct DeferredCronEvents {
    /// The events to call the miners with, in order.
    pub events: Vec<CronEvent>,
    /// The smoothed estimate of the quality-adjusted power, as it stood
    /// before the queue was looked at.
    pub quality_adj_power_smoothed: FilterEstimate,
}

/// The raw power of a miner, and whether it counts towards consensus.
#[derive(Debug)]
pub struct MinerRawPowerReturn {
    pub raw_byte_power: BigInt,
    pub meets_consensus_minimum: bool,
}

/// The power of a miner.
#[derive(Debug)]
pub struct MinerPowerReturn {
    pub raw_byte_power: BigInt,
    pub quality_adj_power: BigInt,
}

/// The events as the rules see them, in order.
pub open spec fn event_views(events: Seq<CronEvent>) -> Seq<CronEventView> {
    Seq::new(events.len(), |i: int| events[i]@)
}

/// The state after a miner with no power is registered.
pub open spec fn after_create_miner(v: PowerView, policy: Policy, miner: ActorID, proof_type: i64) -> PowerView {
    PowerView {
        claims: v.claims.insert(
            miner,
            ClaimView { window_post_proof_type: proof_type, raw_byte_power: 0, quality_adj_power: 0 },
        ),
        miner_count: (v.miner_count + 1) as i64,
        miner_above_min_power_count: if policy.minimum_consensus_power == 0 {
            (v.miner_above_min_power_count + 1) as i64
        } else {
            v.miner_above_min_power_count
        },
        ..v
    }
}

/// Whether a miner can be registered: its proof type is known, and the
/// counts of miners have room.
pub open spec fn can_create_miner(v: PowerView, policy: Policy, proof_type: i64) -> bool {
    &&& supported_proof(proof_type)
    &&& v.miner_count < i64::MAX
    &&& (policy.minimum_consensus_power == 0 ==> v.miner_above_min_power_count < i64::MAX)
}

/// The state after the claim of a miner whose cron callback failed is
/// deleted: without a claim, only the count of miners goes down; with a
/// claim whose power can be taken out of the totals, the power leaves the
/// totals, the claim is deleted and the count goes down; with a claim whose
/// power cannot be taken out, nothing changes.
pub open spec fn after_failure(v: PowerView, policy: Policy, miner: ActorID) -> PowerView {
    if !v.claims.contains_key(miner) {
        PowerView { miner_count: (v.miner_count - 1) as i64, ..v }
    } else {
        let c = v.claims[miner];
        if power_change_code(v, policy, miner, -c.raw_byte_power, -c.quality_adj_power) == ExitCode::Success {
            let w = after_power_change(
                v,
                policy.minimum_consensus_power as int,
                miner,
                -c.raw_byte_power,
                -c.quality_adj_power,
            );
            PowerView { claims: w.claims.remove(miner), miner_count: (v.miner_count - 1) as i64, ..w }
        } else {
            v
        }
    }
}

/// The state after the first `n` failed miners are dealt with in order.
pub open spec fn after_failures(v: PowerView, policy: Policy, failed: Seq<ActorID>, n: int) -> PowerView
    decreases n,
{
    if n <= 0 {
        v
    } else {
        after_failure(after_failures(v, policy, failed, n - 1), policy, failed[n - 1])
    }
}

/// Stores a claim for a miner, replacing what was there.
fn set_claim(st: &mut State, miner: ActorID, claim: Claim)
    requires
        old(st).wf(),
    ensures
        final(st).wf(),
        final(st)@ == (PowerView { claims: old(st)@.claims.insert(miner, claim@), ..old(st)@ }),
{
    let ghost before = st.claims.view();
    st.claims.insert(0, miner, claim);
    proof {
        assert forall|k: (u64, u64)| #[trigger] st.claims.view().contains_key(k) implies k.0 == 0 by {
            if k != (0u64, miner) {
                assert(before.contains_key(k));
            }
        }
        assert(st@.claims =~= old(st)@.claims.insert(miner, claim@)) by {
            assert forall|id: ActorID| st@.claims.contains_key(id) implies st@.claims[id] == old(
                st,
            )@.claims.insert(miner, claim@)[id] by {
                if id != miner {
                    assert((0u64, id) != (0u64, miner));
                }
            }
        }
    }
}

/// Deletes the claim of a miner.
fn drop_claim(st: &mut State, miner: ActorID)
    requires
        old(st).wf(),
    ensures
        final(st).wf(),
        final(st)@ == (PowerView { claims: old(st)@.claims.remove(miner), ..old(st)@ }),
{
    let ghost before = st.claims.view();
    let _ = st.claims.remove(0, miner);
    proof {
        assert forall|k: (u64, u64)| #[trigger] st.claims.view().contains_key(k) implies k.0 == 0 by {
            assert(before.contains_key(k));
        }
        assert(st@.claims =~= old(st)@.claims.remove(miner)) by {
            assert forall|id: ActorID| st@.claims.contains_key(id) implies st@.claims[id] == old(
                st,
            )@.claims.remove(miner)[id] by {
                assert((0u64, id) != (0u64, miner));
            }
        }
    }
}

/// Changes the power of a miner by the deltas, or changes nothing.
fn add_to_claim(st: &mut State, policy: &Policy, miner: ActorID, raw: &BigInt, qa: &BigInt) -> (r: Result<
    (),
    ActorError,
>)
    requires
        old(st).wf(),
    ensures
        final(st).wf(),
        ({
            let code = power_change_code(old(st)@, *policy, miner, raw@, qa@);
            match r {
                Ok(_) => code == ExitCode::Success && final(st)@ == after_power_change(
                    old(st)@,
                    policy.minimum_consensus_power as int,
                    miner,
                    raw@,
                    qa@,
                ),
                Err(e) => code != ExitCode::Success && e.exit_code == code && final(st)@ == old(st)@,
            }
        }),
{
    let (proof_type, old_raw, old_qa) = match st.claims.get_ref(0, miner) {
        None => {
            return Err(ActorError { exit_code: ExitCode::NotFound });
        },
        Some(c) => (c.window_post_proof_type, c.raw_byte_power.clone(), c.quality_adj_power.clone()),
    };
    if !post_proof_is_known(proof_type) {
        return Err(ActorError { exit_code: ExitCode::IllegalState });
    }
    let minimum = BigInt::from_u64(policy.minimum_consensus_power);
    let new_raw = old_raw.add(raw);
    let new_qa = old_qa.add(qa);
    if new_raw.is_negative() || new_qa.is_negative() {
        return Err(ActorError { exit_code: ExitCode::IllegalState });
    }
    let was_below = old_raw.lt(&minimum);
    let is_below = new_raw.lt(&minimum);
    if was_below && !is_below && st.miner_above_min_power_count == i64::MAX {
        return Err(ActorError { exit_code: ExitCode::IllegalState });
    }
    if !was_below && is_below && st.miner_above_min_power_count <= 0 {
        return Err(ActorError { exit_code: ExitCode::IllegalState });
    }
    st.total_bytes_committed = st.total_bytes_committed.add(raw);
    st.total_qa_bytes_committed = st.total_qa_bytes_committed.add(qa);
    if was_below && !is_below {
        st.miner_above_min_power_count = st.miner_above_min_power_count + 1;
        st.total_raw_byte_power = st.total_raw_byte_power.add(&new_raw);
        st.total_quality_adj_power = st.total_quality_adj_power.add(&new_qa);
    } else if !was_below && is_below {
        st.miner_above_min_power_count = st.miner_above_min_power_count - 1;
        st.total_raw_byte_power = st.total_raw_byte_power.sub(&old_raw);
        st.total_quality_adj_power = st.total_quality_adj_power.sub(&old_qa);
    } else if !was_below && !is_below {
        st.total_raw_byte_power = st.total_raw_byte_power.add(raw);
        st.total_quality_adj_power = st.total_quality_adj_power.add(qa);
    }
    set_claim(
        st,
        miner,
        Claim { window_post_proof_type: proof_type, raw_byte_power: new_raw, quality_adj_power: new_qa },
    );
    Ok(())
}

impl Actor {
    /// The name of the actor.
    pub fn name() -> (r: &'static str)
        ensures
            r@ == "StoragePower"@,
    {
        "StoragePower"
    }

    /// Registers a new miner, whose address the init actor has resolved to
    /// `miner`, with a claim of no power.
    ///
    /// Fails with illegal state, changing nothing, for a proof type that the
    /// actor does not know and when a count of miners is at the end of its
    /// range.
    pub fn create_miner(st: &mut State, policy: &Policy, miner: ActorID, window_post_proof_type: i64) -> (r: Result<
        (),
        ActorError,
    >)
        requires
            old(st).wf(),
        ensures
            final(st).wf(),
            match r {
                Ok(_) => can_create_miner(old(st)@, *policy, window_post_proof_type) && final(st)@
                    == after_create_miner(old(st)@, *policy, miner, window_post_proof_type),
                Err(e) => !can_create_miner(old(st)@, *policy, window_post_proof_type) && e.exit_code
                    == ExitCode::IllegalState && final(st)@ == old(st)@,
            },
    {
        if !post_proof_is_known(window_post_proof_type) {
            return Err(ActorError { exit_code: ExitCode::IllegalState });
        }
        if st.miner_count == i64::MAX {
            return Err(ActorError { exit_code: ExitCode::IllegalState });
        }
        if policy.minimum_consensus_power == 0 && st.miner_above_min_power_count == i64::MAX {
            return Err(ActorError { exit_code: ExitCode::IllegalState });
        }
        st.miner_count = st.miner_count + 1;
        if policy.minimum_consensus_power == 0 {
            st.miner_above_min_power_count = st.miner_above_min_power_count + 1;
        }
        set_claim(
            st,
            miner,
            Claim { window_post_proof_type, raw_byte_power: BigInt::zero(), quality_adj_power: BigInt::zero() },
        );
        Ok(())
    }

    /// Adds or removes claimed power for the miner that calls.
    ///
    /// Fails, changing nothing, with not found when the miner has no claim,
    /// and with illegal state when its proof type is unknown, when a power
    /// would go below zero, or when the count of miners above the minimum
    /// would leave its range.
    pub fn update_claimed_power(
        st: &mut State,
        policy: &Policy,
        miner: ActorID,
        raw_byte_delta: &BigInt,
        quality_adjusted_delta: &BigInt,
    ) -> (r: Result<(), ActorError>)
        requires
            old(st).wf(),
        ensures
            final(st).wf(),
            ({
                let code = power_change_code(old(st)@, *policy, miner, raw_byte_delta@, quality_adjusted_delta@);
                match r {
                    Ok(_) => code == ExitCode::Success && final(st)@ == after_power_change(
                        old(st)@,
                        policy.minimum_consensus_power as int,
                        miner,
                        raw_byte_delta@,
                        quality_adjusted_delta@,
                    ),
                    Err(e) => code != ExitCode::Success && e.exit_code == code && final(st)@ == old(st)@,
                }
            }),
    {
        add_to_claim(st, policy, miner, raw_byte_delta, quality_adjusted_delta)
    }

    /// Enrolls a callback for `miner` at `event_epoch`.
    ///
    /// An epoch below zero is an illegal argument. Otherwise the event
    /// joins the end of the queue, and the first epoch to look at moves back
    /// to the event's epoch if that is earlier.
    pub fn enroll_cron_event(st: &mut State, miner: ActorID, event_epoch: ChainEpoch, payload: Vec<u8>) -> (r: Result<
        (),
        ActorError,
    >)
        requires
            old(st).wf(),
        ensures
            final(st).wf(),
            match r {
                Ok(_) => event_epoch >= 0 && final(st)@ == (PowerView {
                    queue: old(st)@.queue.push(
                        QueuedEventView {
                            epoch: event_epoch,
                            event: CronEventView { miner, callback_payload: payload@ },
                        },
                    ),
                    first_cron_epoch: if event_epoch < old(st)@.first_cron_epoch {
                        event_epoch
                    } else {
                        old(st)@.first_cron_epoch
                    },
                    ..old(st)@
                }),
                Err(e) => event_epoch < 0 && e.exit_code == ExitCode::IllegalArgument && final(st)@ == old(st)@,
            },
    {
        if event_epoch < 0 {
            return Err(ActorError { exit_code: ExitCode::IllegalArgument });
        }
        let entry = QueuedEvent { epoch: event_epoch, event: CronEvent { miner, callback_payload: payload } };
        let ghost added = entry@;
        st.cron_event_queue.push(entry);
        if event_epoch < st.first_cron_epoch {
            st.first_cron_epoch = event_epoch;
        }
        assert(st@.queue =~= old(st)@.queue.push(added));
        Ok(())
    }

    /// Hands out the events that are due up to `rt_epoch`: those enrolled
    /// for an epoch from the first epoch to look at up to `rt_epoch`, epoch
    /// by epoch and within an epoch in the order of enrolment, leaving out
    /// the events of miners without a claim. All events of those epochs
    /// leave the queue, and the first epoch to look at becomes the one
    /// after `rt_epoch`. With the events comes the smoothed estimate of the
    /// quality-adjusted power as of the last cron tick, which each callback
    /// carries to its miner.
    pub fn process_deferred_cron_events(st: &mut State, rt_epoch: ChainEpoch) -> (r: DeferredCronEvents)
        requires
            old(st).wf(),
            rt_epoch < i64::MAX,
        ensures
            final(st).wf(),
            r.quality_adj_power_smoothed@ == old(st)@.this_epoch_qa_power_smoothed,
            event_views(r.events@) == due_events(
                old(st)@.queue,
                old(st)@.claims,
                old(st)@.first_cron_epoch as int,
                rt_epoch as int,
            ),
            final(st)@ == (PowerView {
                queue: not_due(
                    old(st)@.queue,
                    old(st)@.first_cron_epoch,
                    rt_epoch,
                    old(st)@.queue.len() as int,
                ),
                first_cron_epoch: (rt_epoch + 1) as ChainEpoch,
                ..old(st)@
            }),
    {
        let ghost v = st@;
        let smoothed = st.this_epoch_qa_power_smoothed.clone();
        let first = st.first_cron_epoch;
        let mut out: Vec<CronEvent> = Vec::new();
        let mut epoch = first;
        while epoch <= rt_epoch
            invariant
                first <= epoch <= rt_epoch + 1 || (epoch == first && first > rt_epoch),
                rt_epoch < i64::MAX,
                st.wf(),
                st@ == v,
                first == v.first_cron_epoch,
                event_views(out@) == due_events(v.queue, v.claims, first as int, epoch - 1),
            decreases rt_epoch - epoch + 1,
        {
            let ghost done = event_views(out@);
            let mut j: usize = 0;
            while j < st.cron_event_queue.len()
                invariant
                    j <= st.cron_event_queue@.len(),
                    st.wf(),
                    st@ == v,
                    event_views(out@) == done + events_at(v.queue, v.claims, epoch, j as int),
                decreases st.cron_event_queue@.len() - j,
            {
                let entry = &st.cron_event_queue[j];
                assert(v.queue[j as int] == entry@);
                if entry.epoch == epoch && st.claims.contains(0, entry.event.miner) {
                    let ghost before = event_views(out@);
                    let event = CronEvent {
                        miner: entry.event.miner,
                        callback_payload: copy_bytes(&entry.event.callback_payload),
                    };
                    out.push(event);
                    assert(event_views(out@) =~= before.push(event@));
                    assert(before.push(event@) =~= done + events_at(v.queue, v.claims, epoch, j + 1));
                } else {
                    assert(event_views(out@) =~= done + events_at(v.queue, v.claims, epoch, j + 1));
                }
                j += 1;
            }
            epoch = epoch + 1;
        }
        let mut kept: Vec<QueuedEvent> = Vec::new();
        let mut j: usize = 0;
        while j < st.cron_event_queue.len()
            invariant
                j <= st.cron_event_queue@.len(),
                st.wf(),
                st@ == v,
                first == v.first_cron_epoch,
                queue_views(kept@) == not_due(v.queue, first, rt_epoch, j as int),
            decreases st.cron_event_queue@.len() - j,
        {
            let entry = &st.cron_event_queue[j];
            assert(v.queue[j as int] == entry@);
            if !(first <= entry.epoch && entry.epoch <= rt_epoch) {
                let ghost before = queue_views(kept@);
                let copy = QueuedEvent {
                    epoch: entry.epoch,
                    event: CronEvent {
                        miner: entry.event.miner,
                        callback_payload: copy_bytes(&entry.event.callback_payload),
                    },
                };
                kept.push(copy);
                assert(queue_views(kept@) =~= before.push(copy@));
            }
            j += 1;
        }
        st.cron_event_queue = kept;
        st.first_cron_epoch = rt_epoch + 1;
        DeferredCronEvents { events: out, quality_adj_power_smoothed: smoothed }
    }

    /// Deals with the miners whose cron callback failed, one after the
    /// other: the miner's power leaves the totals, its claim is deleted,
    /// and the count of miners goes down. A miner whose power cannot be
    /// taken out of the totals is left as it is.
    pub fn remove_failed_miners(st: &mut State, policy: &Policy, failed: &Vec<ActorID>)
        requires
            old(st).wf(),
            old(st).miner_count - failed@.len() >= i64::MIN,
        ensures
            final(st).wf(),
            final(st)@ == after_failures(old(st)@, *policy, failed@, failed@.len() as int),
    {
        let mut i: usize = 0;
        while i < failed.len()
            invariant
                i <= failed@.len(),
                st.wf(),
                st.miner_count - (failed@.len() - i) >= i64::MIN,
                st@ == after_failures(old(st)@, *policy, failed@, i as int),
            decreases failed@.len() - i,
        {
            let miner = failed[i];
            let ghost before = st@;
            let powers = match st.claims.get_ref(0, miner) {
                None => None,
                Some(c) => Some((c.raw_byte_power.clone(), c.quality_adj_power.clone())),
            };
            match powers {
                None => {
                    st.miner_count = st.miner_count - 1;
                },
                Some((raw, qa)) => {
                    let zero = BigInt::zero();
                    let minus_raw = zero.sub(&raw);
                    let minus_qa = zero.sub(&qa);
                    match add_to_claim(st, policy, miner, &minus_raw, &minus_qa) {
                        Ok(_) => {
                            drop_claim(st, miner);
                            st.miner_count = st.miner_count - 1;
                        },
                        Err(_) => {},
                    }
                },
            }
            assert(st@ == after_failure(before, *policy, miner));
            i += 1;
        }
    }

    /// The network's power as it counts for consensus now: the power of
    /// all miners while fewer than the minimum number of miners are above
    /// the minimum power, and the power of the miners above the minimum
    /// after that.
    pub fn network_power(st: &State) -> (r: (BigInt, BigInt))
        ensures
            r.0@ == network_power(st@).0,
            r.1@ == network_power(st@).1,
    {
        if st.miner_above_min_power_count < CONSENSUS_MINER_MIN_MINERS {
            (st.total_bytes_committed.clone(), st.total_qa_bytes_committed.clone())
        } else {
            (st.total_raw_byte_power.clone(), st.total_quality_adj_power.clone())
        }
    }

    /// Freezes the totals for the epoch that begins, and returns the raw
    /// power of the network for the reward actor.
    ///
    /// The pledge and the network's power become the values of this epoch,
    /// and `smoothed` becomes the smoothed estimate of the quality-adjusted
    /// power: the next estimate, which the caller's filter makes of the
    /// present one and of the quality-adjusted power that this tick
    /// freezes.
    pub fn on_epoch_tick_end(st: &mut State, smoothed: FilterEstimate) -> (r: BigInt)
        requires
            old(st).wf(),
        ensures
            final(st).wf(),
            r@ == network_power(old(st)@).0,
            final(st)@ == (PowerView {
                this_epoch_pledge_collateral: old(st)@.total_pledge_collateral,
                this_epoch_raw_byte_power: network_power(old(st)@).0,
                this_epoch_quality_adj_power: network_power(old(st)@).1,
                this_epoch_qa_power_smoothed: smoothed@,
                ..old(st)@
            }),
    {
        let (raw, qa) = Actor::network_power(st);
        st.this_epoch_pledge_collateral = st.total_pledge_collateral.clone();
        st.this_epoch_quality_adj_power = qa;
        let answer = raw.clone();
        st.this_epoch_raw_byte_power = raw;
        st.this_epoch_qa_power_smoothed = smoothed;
        answer
    }

    /// Moves the total pledge by `pledge_delta` on behalf of `miner`.
    ///
    /// Fails, changing nothing, with forbidden when the miner has no claim,
    /// and with illegal state when the total would go below zero.
    pub fn update_pledge_total(st: &mut State, miner: ActorID, pledge_delta: &TokenAmount) -> (r: Result<
        (),
        ActorError,
    >)
        requires
            old(st).wf(),
        ensures
            final(st).wf(),
            match r {
                Ok(_) => old(st)@.claims.contains_key(miner) && old(st)@.total_pledge_collateral + pledge_delta@
                    >= 0 && final(st)@ == (PowerView {
                    total_pledge_collateral: old(st)@.total_pledge_collateral + pledge_delta@,
                    ..old(st)@
                }),
                Err(e) => final(st)@ == old(st)@ && if !old(st)@.claims.contains_key(miner) {
                    e.exit_code == ExitCode::Forbidden
                } else {
                    old(st)@.total_pledge_collateral + pledge_delta@ < 0 && e.exit_code == ExitCode::IllegalState
                },
            },
    {
        if !st.claims.contains(0, miner) {
            return Err(ActorError { exit_code: ExitCode::Forbidden });
        }
        let total = st.total_pledge_collateral.add(pledge_delta);
        if total.is_negative() {
            return Err(ActorError { exit_code: ExitCode::IllegalState });
        }
        st.total_pledge_collateral = total;
        Ok(())
    }

    /// Returns the total power and pledge recorded by the power actor, with
    /// the smoothed estimate of the quality-adjusted power and the ramp.
    /// The values are those frozen at the last cron tick, not the totals
    /// as messages of this epoch have moved them since.
    pub fn current_total_power(st: &State) -> (r: CurrentTotalPowerReturn)
        ensures
            r.raw_byte_power@ == st@.this_epoch_raw_byte_power,
            r.quality_adj_power@ == st@.this_epoch_quality_adj_power,
            r.pledge_collateral@ == st@.this_epoch_pledge_collateral,
            r.quality_adj_power_smoothed@ == st@.this_epoch_qa_power_smoothed,
            r.ramp_start_epoch == st@.ramp_start_epoch,
            r.ramp_duration_epochs == st@.ramp_duration_epochs,
    {
        CurrentTotalPowerReturn {
            raw_byte_power: st.this_epoch_raw_byte_power.clone(),
            quality_adj_power: st.this_epoch_quality_adj_power.clone(),
            pledge_collateral: st.this_epoch_pledge_collateral.clone(),
            quality_adj_power_smoothed: st.this_epoch_qa_power_smoothed.clone(),
            ramp_start_epoch: st.ramp_start_epoch,
            ramp_duration_epochs: st.ramp_duration_epochs,
        }
    }

    /// Returns the raw power of the network as frozen at the last cron
    /// tick.
    pub fn network_raw_power(st: &State) -> (r: BigInt)
        ensures
            r@ == st@.this_epoch_raw_byte_power,
    {
        st.this_epoch_raw_byte_power.clone()
    }

    /// Returns the raw power claimed by a miner, and whether the miner
    /// counts towards consensus: it does with at least the minimum power;
    /// below that, it does only while fewer than the minimum number of
    /// miners are above the minimum and its power is above zero.
    pub fn miner_raw_power(st: &State, policy: &Policy, miner: ActorID) -> (r: Result<
        MinerRawPowerReturn,
        ActorError,
    >)
        requires
            st.wf(),
        ensures
            match r {
                Ok(ret) => {
                    &&& st@.claims.contains_key(miner)
                    &&& supported_proof(st@.claims[miner].window_post_proof_type)
                    &&& ret.raw_byte_power@ == st@.claims[miner].raw_byte_power
                    &&& ret.meets_consensus_minimum == (st@.claims[miner].raw_byte_power
                        >= policy.minimum_consensus_power || (st@.miner_above_min_power_count
                        < CONSENSUS_MINER_MIN_MINERS && st@.claims[miner].raw_byte_power > 0))
                },
                Err(e) => if !st@.claims.contains_key(miner) {
                    e.exit_code == ExitCode::NotFound
                } else {
                    !supported_proof(st@.claims[miner].window_post_proof_type) && e.exit_code
                        == ExitCode::IllegalState
                },
            },
    {
        let claim = match st.claims.get_ref(0, miner) {
            None => {
                return Err(ActorError { exit_code: ExitCode::NotFound });
            },
            Some(c) => c,
        };
        if !post_proof_is_known(claim.window_post_proof_type) {
            return Err(ActorError { exit_code: ExitCode::IllegalState });
        }
        let power = claim.raw_byte_power.clone();
        let minimum = BigInt::from_u64(policy.minimum_consensus_power);
        let meets = if minimum.le(&power) {
            true
        } else if st.miner_above_min_power_count >= CONSENSUS_MINER_MIN_MINERS {
            false
        } else {
            power.is_positive()
        };
        Ok(MinerRawPowerReturn { raw_byte_power: power, meets_consensus_minimum: meets })
    }

    /// Returns the number of miners created.
    pub fn miner_count(st: &State) -> (r: i64)
        ensures
            r == st@.miner_count,
    {
        st.miner_count
    }

    /// Returns the number of miners above the minimum power.
    pub fn miner_consensus_count(st: &State) -> (r: i64)
        ensures
            r == st@.miner_above_min_power_count,
    {
        st.miner_above_min_power_count
    }

    /// Returns the quality-adjusted and raw power of a miner; not found for
    /// a miner without a claim.
    pub fn miner_power(st: &State, miner: ActorID) -> (r: Result<MinerPowerReturn, ActorError>)
        requires
            st.wf(),
        ensures
            match r {
                Ok(ret) => st@.claims.contains_key(miner) && ret.raw_byte_power@
                    == st@.claims[miner].raw_byte_power && ret.quality_adj_power@
                    == st@.claims[miner].quality_adj_power,
                Err(e) => !st@.claims.contains_key(miner) && e.exit_code == ExitCode::NotFound,
            },
    {
        match st.claims.get_ref(0, miner) {
            Some(c) => Ok(
                MinerPowerReturn {
                    raw_byte_power: c.raw_byte_power.clone(),
                    quality_adj_power: c.quality_adj_power.clone(),
                },
            ),
            None => Err(ActorError { exit_code: ExitCode::NotFound }),
        }
    }
}

} // verus!
