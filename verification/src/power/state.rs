//! The power actor's state and what its operations decide.

use crate::bigint::BigInt;
use crate::econ::TokenAmount;
use crate::exit::ExitCode;
use crate::owner_map::OwnerMap;
use crate::policy::Policy;
use crate::types::{ActorID, ChainEpoch};
use vstd::prelude::*;

verus! {

/// Number of miners above the minimum power below which every miner with
/// power counts towards consensus.
pub const CONSENSUS_MINER_MIN_MINERS: i64 = 4;

/// The power that a miner claims.
#[derive(Debug)]
pub struct Claim {
    /// Code of the miner's window proof type.
    pub window_post_proof_type: i64,
    /// Sum of the raw byte power of the miner's sectors.
    pub raw_byte_power: BigInt,
    /// Sum of the quality-adjusted power of the miner's sectors.
    pub quality_adj_power: BigInt,
}

/// A claim with its powers as numbers.
pub struct ClaimView {
    pub window_post_proof_type: i64,
    pub raw_byte_power: int,
    pub quality_adj_power: int,
}

impl View for Claim {
    type V = ClaimView;

    open spec fn view(&self) -> ClaimView {
        ClaimView {
            window_post_proof_type: self.window_post_proof_type,
            raw_byte_power: self.raw_byte_power@,
            quality_adj_power: self.quality_adj_power@,
        }
    }
}

/// A smoothed estimate of a quantity that changes from epoch to epoch: where
/// it stands and how fast it moves, both as fixed-point numbers.
#[derive(Debug)]
pub struct FilterEstimate {
    pub position: BigInt,
    pub velocity: BigInt,
}

/// A smoothed estimate in numbers.
pub struct FilterEstimateView {
    pub position: int,
    pub velocity: int,
}

impl View for FilterEstimate {
    type V = FilterEstimateView;

    open spec fn view(&self) -> FilterEstimateView {
        FilterEstimateView { position: self.position@, velocity: self.velocity@ }
    }
}

impl Clone for FilterEstimate {
    fn clone(&self) -> (r: Self)
        ensures
            r@ == self@,
    {
        FilterEstimate { position: self.position.clone(), velocity: self.velocity.clone() }
    }
}

/// A callback that a miner asked for.
#[derive(Debug)]
pub struct CronEvent {
    pub miner: ActorID,
    pub callback_payload: Vec<u8>,
}

/// A cron event with its payload as a sequence.
pub struct CronEventView {
    pub miner: ActorID,
    pub callback_payload: Seq<u8>,
}

impl View for CronEvent {
    type V = CronEventView;

    open spec fn view(&self) -> CronEventView {
        CronEventView { miner: self.miner, callback_payload: self.callback_payload@ }
    }
}

/// A cron event with the epoch it is due at.
#[derive(Debug)]
pub struct QueuedEvent {
    pub epoch: ChainEpoch,
    pub event: CronEvent,
}

/// A queued event as the rules see it.
pub struct QueuedEventView {
    pub epoch: ChainEpoch,
    pub event: CronEventView,
}

impl View for QueuedEvent {
    type V = QueuedEventView;

    open spec fn view(&self) -> QueuedEventView {
        QueuedEventView { epoch: self.epoch, event: self.event@ }
    }
}

/// Storage power actor state.
pub struct State {
    /// Power of the miners above the minimum.
    pub total_raw_byte_power: BigInt,
    /// Power of all miners.
    pub total_bytes_committed: BigInt,
    pub total_quality_adj_power: BigInt,
    pub total_qa_bytes_committed: BigInt,
    pub total_pledge_collateral: TokenAmount,
    /// The totals as frozen at the last cron tick.
    pub this_epoch_raw_byte_power: BigInt,
    pub this_epoch_quality_adj_power: BigInt,
    pub this_epoch_pledge_collateral: TokenAmount,
    /// The smoothed estimate of the quality-adjusted power, as of the last
    /// cron tick.
    pub this_epoch_qa_power_smoothed: FilterEstimate,
    /// The epoch at which the ramp of the fees starts, and its length.
    pub ramp_start_epoch: ChainEpoch,
    pub ramp_duration_epochs: u64,
    pub miner_count: i64,
    pub miner_above_min_power_count: i64,
    /// The first epoch whose events have not been handed out.
    pub first_cron_epoch: ChainEpoch,
    /// The events waiting, in the order in which they were enrolled.
    pub cron_event_queue: Vec<QueuedEvent>,
    /// The claims, under owner 0 and the miner's id.
    pub claims: OwnerMap<Claim>,
}

/// What the state holds, in numbers.
pub struct PowerView {
    pub total_raw_byte_power: int,
    pub total_bytes_committed: int,
    pub total_quality_adj_power: int,
    pub total_qa_bytes_committed: int,
    pub total_pledge_collateral: int,
    pub this_epoch_raw_byte_power: int,
    pub this_epoch_quality_adj_power: int,
    pub this_epoch_pledge_collateral: int,
    pub this_epoch_qa_power_smoothed: FilterEstimateView,
    pub ramp_start_epoch: ChainEpoch,
    pub ramp_duration_epochs: u64,
    pub miner_count: i64,
    pub miner_above_min_power_count: i64,
    pub first_cron_epoch: ChainEpoch,
    pub queue: Seq<QueuedEventView>,
    pub claims: Map<ActorID, ClaimView>,
}

/// The claims by miner.
pub open spec fn claims_by_miner(m: Map<(u64, u64), Claim>) -> Map<ActorID, ClaimView> {
    Map::new(|id: ActorID| m.contains_key((0, id)), |id: ActorID| m[(0, id)]@)
}

/// The queue as the rules see it.
pub open spec fn queue_views(q: Seq<QueuedEvent>) -> Seq<QueuedEventView> {
    Seq::new(q.len(), |i: int| q[i]@)
}

impl View for State {
    type V = PowerView;

    open spec fn view(&self) -> PowerView {
        PowerView {
            total_raw_byte_power: self.total_raw_byte_power@,
            total_bytes_committed: self.total_bytes_committed@,
            total_quality_adj_power: self.total_quality_adj_power@,
            total_qa_bytes_committed: self.total_qa_bytes_committed@,
            total_pledge_collateral: self.total_pledge_collateral@,
            this_epoch_raw_byte_power: self.this_epoch_raw_byte_power@,
            this_epoch_quality_adj_power: self.this_epoch_quality_adj_power@,
            this_epoch_pledge_collateral: self.this_epoch_pledge_collateral@,
            this_epoch_qa_power_smoothed: self.this_epoch_qa_power_smoothed@,
            ramp_start_epoch: self.ramp_start_epoch,
            ramp_duration_epochs: self.ramp_duration_epochs,
            miner_count: self.miner_count,
            miner_above_min_power_count: self.miner_above_min_power_count,
            first_cron_epoch: self.first_cron_epoch,
            queue: queue_views(self.cron_event_queue@),
            claims: claims_by_miner(self.claims.view()),
        }
    }
}

impl State {
    /// The state is well formed: the claims are kept in order, under owner
    /// 0.
    pub open spec fn wf(&self) -> bool {
        &&& self.claims.wf()
        &&& forall|k: (u64, u64)| #[trigger] self.claims.view().contains_key(k) ==> k.0 == 0
    }

    /// A state without miners, power or events, with the given first
    /// estimate of the quality-adjusted power and the given ramp.
    pub fn new(smoothed: FilterEstimate, ramp_start_epoch: ChainEpoch, ramp_duration_epochs: u64) -> (r: Self)
        ensures
            r.wf(),
            r@ == (PowerView {
                total_raw_byte_power: 0,
                total_bytes_committed: 0,
                total_quality_adj_power: 0,
                total_qa_bytes_committed: 0,
                total_pledge_collateral: 0,
                this_epoch_raw_byte_power: 0,
                this_epoch_quality_adj_power: 0,
                this_epoch_pledge_collateral: 0,
                this_epoch_qa_power_smoothed: smoothed@,
                ramp_start_epoch,
                ramp_duration_epochs,
                miner_count: 0,
                miner_above_min_power_count: 0,
                first_cron_epoch: 0,
                queue: Seq::empty(),
                claims: Map::empty(),
            }),
    {
        let r = State {
            total_raw_byte_power: BigInt::zero(),
            total_bytes_committed: BigInt::zero(),
            total_quality_adj_power: BigInt::zero(),
            total_qa_bytes_committed: BigInt::zero(),
            total_pledge_collateral: TokenAmount::zero(),
            this_epoch_raw_byte_power: BigInt::zero(),
            this_epoch_quality_adj_power: BigInt::zero(),
            this_epoch_pledge_collateral: TokenAmount::zero(),
            this_epoch_qa_power_smoothed: smoothed,
            ramp_start_epoch,
            ramp_duration_epochs,
            miner_count: 0,
            miner_above_min_power_count: 0,
            first_cron_epoch: 0,
            cron_event_queue: Vec::new(),
            claims: OwnerMap::new(),
        };
        assert(r@.queue =~= Seq::<QueuedEventView>::empty());
        assert(r@.claims =~= Map::<ActorID, ClaimView>::empty());
        r
    }
}

/// Whether a code stands for a proof-of-spacetime type: the winning proofs
/// have the codes 0 to 4, the window proofs the codes 10 to 14, and the
/// codes in between belong to no type.
pub open spec fn supported_proof(code: i64) -> bool {
    0 <= code <= 4 || 10 <= code <= 14
}

/// `RegisteredPoStProof::from(i64)`: every code but 0 to 4 and 10 to 14
/// gives the variant `Invalid`.
#[verifier::external_body]
pub(crate) fn post_proof_is_known(code: i64) -> (r: bool)
    ensures
        r == supported_proof(code),
{
    match fvm_shared::sector::RegisteredPoStProof::from(code) {
        fvm_shared::sector::RegisteredPoStProof::Invalid(_) => false,
        _ => true,
    }
}

/// The network's power as it counts for consensus: while fewer than the
/// minimum number of miners are above the minimum power, the power of all
/// miners; after that, the power of the miners above the minimum.
pub open spec fn network_power(v: PowerView) -> (int, int) {
    if v.miner_above_min_power_count < CONSENSUS_MINER_MIN_MINERS {
        (v.total_bytes_committed, v.total_qa_bytes_committed)
    } else {
        (v.total_raw_byte_power, v.total_quality_adj_power)
    }
}

/// The state after the power of `miner` changes by the deltas, where
/// `minimum` is the power a miner needs to count towards consensus.
///
/// The claim and the totals over all miners move by the deltas. The totals
/// over the miners above the minimum gain the miner's whole new power when
/// it rises to the minimum, lose its whole old power when it falls below,
/// and move by the deltas when it stays at or above; the count of miners
/// above the minimum follows.
pub open spec fn after_power_change(v: PowerView, minimum: int, miner: ActorID, raw: int, qa: int) -> PowerView {
    let old = v.claims[miner];
    let new = ClaimView {
        raw_byte_power: old.raw_byte_power + raw,
        quality_adj_power: old.quality_adj_power + qa,
        ..old
    };
    let was_below = old.raw_byte_power < minimum;
    let is_below = new.raw_byte_power < minimum;
    PowerView {
        total_bytes_committed: v.total_bytes_committed + raw,
        total_qa_bytes_committed: v.total_qa_bytes_committed + qa,
        total_raw_byte_power: if was_below && !is_below {
            v.total_raw_byte_power + new.raw_byte_power
        } else if !was_below && is_below {
            v.total_raw_byte_power - old.raw_byte_power
        } else if !was_below && !is_below {
            v.total_raw_byte_power + raw
        } else {
            v.total_raw_byte_power
        },
        total_quality_adj_power: if was_below && !is_below {
            v.total_quality_adj_power + new.quality_adj_power
        } else if !was_below && is_below {
            v.total_quality_adj_power - old.quality_adj_power
        } else if !was_below && !is_below {
            v.total_quality_adj_power + qa
        } else {
            v.total_quality_adj_power
        },
        miner_above_min_power_count: if was_below && !is_below {
            (v.miner_above_min_power_count + 1) as i64
        } else if !was_below && is_below {
            (v.miner_above_min_power_count - 1) as i64
        } else {
            v.miner_above_min_power_count
        },
        claims: v.claims.insert(miner, new),
        ..v
    }
}

/// The code of changing the power of `miner` by the deltas: not found
/// without a claim; illegal state for a claim with an unknown proof type,
/// for a power that would go below zero, and for a count of miners above the
/// minimum that would leave its range; success otherwise.
pub open spec fn power_change_code(v: PowerView, policy: Policy, miner: ActorID, raw: int, qa: int) -> ExitCode {
    if !v.claims.contains_key(miner) {
        ExitCode::NotFound
    } else if !supported_proof(v.claims[miner].window_post_proof_type) {
        ExitCode::IllegalState
    } else {
        let old = v.claims[miner];
        let minimum = policy.minimum_consensus_power as int;
        let was_below = old.raw_byte_power < minimum;
        let is_below = old.raw_byte_power + raw < minimum;
        if old.raw_byte_power + raw < 0 || old.quality_adj_power + qa < 0 {
            ExitCode::IllegalState
        } else if was_below && !is_below && v.miner_above_min_power_count == i64::MAX {
            ExitCode::IllegalState
        } else if !was_below && is_below && v.miner_above_min_power_count <= 0 {
            ExitCode::IllegalState
        } else {
            ExitCode::Success
        }
    }
}

/// The events among the first `n` of the queue that are due at `epoch` and
/// belong to a miner with a claim, in order.
pub open spec fn events_at(
    queue: Seq<QueuedEventView>,
    claims: Map<ActorID, ClaimView>,
    epoch: ChainEpoch,
    n: int,
) -> Seq<CronEventView>
    decreases n,
{
    if n <= 0 {
        Seq::empty()
    } else if queue[n - 1].epoch == epoch && claims.contains_key(queue[n - 1].event.miner) {
        events_at(queue, claims, epoch, n - 1).push(queue[n - 1].event)
    } else {
        events_at(queue, claims, epoch, n - 1)
    }
}

/// The events due from epoch `from` to epoch `to`, epoch by epoch, each
/// epoch in the order of the queue.
pub open spec fn due_events(
    queue: Seq<QueuedEventView>,
    claims: Map<ActorID, ClaimView>,
    from: int,
    to: int,
) -> Seq<CronEventView>
    decreases to - from + 1,
{
    if from > to {
        Seq::empty()
    } else {
        due_events(queue, claims, from, to - 1) + events_at(queue, claims, to as ChainEpoch, queue.len() as int)
    }
}

/// The first `n` entries of the queue without those due from `from` to
/// `to`.
pub open spec fn not_due(queue: Seq<QueuedEventView>, from: ChainEpoch, to: ChainEpoch, n: int) -> Seq<
    QueuedEventView,
>
    decreases n,
{
    if n <= 0 {
        Seq::empty()
    } else if from <= queue[n - 1].epoch <= to {
        not_due(queue, from, to, n - 1)
    } else {
        not_due(queue, from, to, n - 1).push(queue[n - 1])
    }
}

} // verus!
