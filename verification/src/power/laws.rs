//! Laws of the power actor, stated over its rules.

use crate::exit::ExitCode;
use crate::policy::Policy;
use crate::power::actor::{after_failure, after_failures};
use crate::power::state::{power_change_code, PowerView};
use crate::types::ActorID;
use vstd::prelude::*;

verus! {

/// Whether the power of a miner can be taken out of the totals: the miner
/// has a claim, and taking away all its power is a change that succeeds.
pub open spec fn removable(v: PowerView, policy: Policy, miner: ActorID) -> bool {
    &&& v.claims.contains_key(miner)
    &&& power_change_code(
        v,
        policy,
        miner,
        -v.claims[miner].raw_byte_power,
        -v.claims[miner].quality_adj_power,
    ) == ExitCode::Success
}

/// Sum of the raw power that the first `n` miners claim.
pub open spec fn raw_power_of(v: PowerView, miners: Seq<ActorID>, n: int) -> int
    decreases n,
{
    if n <= 0 {
        0
    } else {
        raw_power_of(v, miners, n - 1) + v.claims[miners[n - 1]].raw_byte_power
    }
}

/// Sum of the quality-adjusted power that the first `n` miners claim.
pub open spec fn quality_power_of(v: PowerView, miners: Seq<ActorID>, n: int) -> int
    decreases n,
{
    if n <= 0 {
        0
    } else {
        quality_power_of(v, miners, n - 1) + v.claims[miners[n - 1]].quality_adj_power
    }
}

/// Whether one of the first `n` miners is `miner`.
pub open spec fn among(miners: Seq<ActorID>, n: int, miner: ActorID) -> bool
    decreases n,
{
    if n <= 0 {
        false
    } else {
        miners[n - 1] == miner || among(miners, n - 1, miner)
    }
}

/// What leaves with miners whose callback failed is the sum of their
/// claims.
///
/// Of miners that are all different, each with a claim whose power can be
/// taken out when its turn comes: the power committed by all miners falls
/// by the sum of their raw power, and the quality-adjusted power by the sum
/// of theirs; the count of miners falls by their number; their claims are
/// gone, and the claim of every other miner is as it was.
pub proof fn law_failed_miners_leave(v: PowerView, policy: Policy, failed: Seq<ActorID>, n: int)
    requires
        0 <= n <= failed.len(),
        forall|i: int, j: int| 0 <= i < j < failed.len() ==> failed[i] != failed[j],
        forall|j: int| 0 <= j < n ==> removable(#[trigger] after_failures(v, policy, failed, j), policy, failed[j]),
        v.miner_count - n >= i64::MIN,
    ensures
        ({
            let a = after_failures(v, policy, failed, n);
            &&& a.total_bytes_committed == v.total_bytes_committed - raw_power_of(v, failed, n)
            &&& a.total_qa_bytes_committed == v.total_qa_bytes_committed - quality_power_of(v, failed, n)
            &&& a.miner_count == v.miner_count - n
            &&& forall|m: ActorID| #[trigger]
                a.claims.contains_key(m) <==> (v.claims.contains_key(m) && !among(failed, n, m))
            &&& forall|m: ActorID| #[trigger] a.claims.contains_key(m) ==> a.claims[m] == v.claims[m]
        }),
    decreases n,
{
    if n > 0 {
        law_failed_miners_leave(v, policy, failed, n - 1);
        let before = after_failures(v, policy, failed, n - 1);
        let miner = failed[n - 1];
        assert(removable(before, policy, miner));
        assert(!among(failed, n - 1, miner)) by {
            lemma_among(failed, n - 1, miner);
        }
        assert(before.claims[miner] == v.claims[miner]);
        let a = after_failure(before, policy, miner);
        assert(a == after_failures(v, policy, failed, n));
    }
}

/// A miner among the first `n` stands at one of their places.
proof fn lemma_among(miners: Seq<ActorID>, n: int, miner: ActorID)
    requires
        0 <= n <= miners.len(),
    ensures
        among(miners, n, miner) ==> exists|i: int| 0 <= i < n && miners[i] == miner,
    decreases n,
{
    if n > 0 {
        lemma_among(miners, n - 1, miner);
        if among(miners, n, miner) && miners[n - 1] != miner {
            let i = choose|i: int| 0 <= i < n - 1 && miners[i] == miner;
            assert(0 <= i < n && miners[i] == miner);
        }
    }
}

} // verus!
