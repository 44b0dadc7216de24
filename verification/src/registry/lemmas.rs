//! Facts about the registry's rules that the operations rest on.

use crate::exit::ExitCode;
use crate::registry::rules::{
    after_allocation_sweep, after_claim_sweep, after_sectors, allocation_expired,
    allocation_sweep_codes, apply_requests, claim_expired, claim_sweep_codes, ids_below_next,
    names_allocation, names_id, request_code, sector_code, sector_codes, sector_result,
    stored_under_owner, sweep_allocation_code, sweep_claim_code, RegistryState,
};
use crate::registry::types::{Allocation, Claim, SectorClaims};
use crate::types::{ActorID, ChainEpoch};
use vstd::prelude::*;

verus! {

/// Once a request of a sector has failed, the sector's code is that
/// failure, however many more requests are looked at.
pub proof fn lemma_sector_code_stays(
    s: RegistryState,
    provider: ActorID,
    group: SectorClaims,
    epoch: ChainEpoch,
    m: int,
    n: int,
)
    requires
        0 <= m <= n,
        sector_code(s, provider, group, epoch, m) != ExitCode::Success,
    ensures
        sector_code(s, provider, group, epoch, n) == sector_code(s, provider, group, epoch, m),
    decreases n - m,
{
    if m < n {
        lemma_sector_code_stays(s, provider, group, epoch, m, n - 1);
    }
}

/// A sector whose first `n` requests give success has no failing request
/// among them.
pub proof fn lemma_sector_code_success(
    s: RegistryState,
    provider: ActorID,
    group: SectorClaims,
    epoch: ChainEpoch,
    n: int,
)
    requires
        0 <= n,
        sector_code(s, provider, group, epoch, n) == ExitCode::Success,
    ensures
        forall|j: int| 0 <= j < n ==> request_code(s, provider, group, j, epoch) == ExitCode::Success,
    decreases n,
{
    if n > 0 {
        if sector_code(s, provider, group, epoch, n - 1) != ExitCode::Success {
            lemma_sector_code_stays(s, provider, group, epoch, n - 1, n);
        }
        lemma_sector_code_success(s, provider, group, epoch, n - 1);
    }
}

/// What the contents are after the first `n` requests of a sector: the
/// allocations named so far are gone, the others are untouched; a claim
/// stands under the provider for every id named so far, the other claims
/// are untouched.
pub proof fn lemma_apply_requests(
    s: RegistryState,
    provider: ActorID,
    group: SectorClaims,
    epoch: ChainEpoch,
    n: int,
)
    requires
        0 <= n <= group.claims.len(),
    ensures
        ({
            let p = apply_requests(s, provider, group, epoch, n);
            &&& p.next_allocation_id == s.next_allocation_id
            &&& forall|k: (u64, u64)| #[trigger]
                p.allocations.contains_key(k) <==> (s.allocations.contains_key(k) && !names_allocation(
                    group.claims,
                    n,
                    k.0,
                    k.1,
                ))
            &&& forall|k: (u64, u64)| #[trigger]
                p.allocations.contains_key(k) ==> p.allocations[k] == s.allocations[k]
            &&& forall|k: (u64, u64)| #[trigger]
                p.claims.contains_key(k) <==> (s.claims.contains_key(k) || (k.0 == provider && names_id(
                    group.claims,
                    n,
                    k.1,
                )))
            &&& forall|k: (u64, u64)|
                s.claims.contains_key(k) && !(k.0 == provider && names_id(group.claims, n, k.1))
                    ==> #[trigger] p.claims[k] == s.claims[k]
        }),
    decreases n,
{
    if n > 0 {
        lemma_apply_requests(s, provider, group, epoch, n - 1);
    }
}

/// The list of codes of the first `n` sectors has `n` entries, and entry `i`
/// is the code of sector `i` against what the sectors before it left.
pub proof fn lemma_sector_codes(
    s: RegistryState,
    provider: ActorID,
    groups: Seq<SectorClaims>,
    epoch: ChainEpoch,
    n: int,
)
    requires
        0 <= n,
    ensures
        sector_codes(s, provider, groups, epoch, n).len() == n,
        forall|i: int|
            0 <= i < n ==> #[trigger] sector_codes(s, provider, groups, epoch, n)[i] == sector_result(
                after_sectors(s, provider, groups, epoch, i),
                provider,
                groups[i],
                epoch,
            ),
    decreases n,
{
    if n > 0 {
        lemma_sector_codes(s, provider, groups, epoch, n - 1);
    }
}

/// Sweeping distinct ids that are all present removes exactly those of
/// them that have expired, and the code of each is its code against the
/// allocations as they stood before the sweep.
pub proof fn lemma_allocation_sweep_distinct(
    m: Map<(u64, u64), Allocation>,
    client: ActorID,
    ids: Seq<u64>,
    epoch: ChainEpoch,
    n: int,
)
    requires
        0 <= n <= ids.len(),
        forall|i: int, j: int| 0 <= i < j < ids.len() ==> ids[i] != ids[j],
        forall|i: int| 0 <= i < ids.len() ==> m.contains_key((client, #[trigger] ids[i])),
    ensures
        ({
            let p = after_allocation_sweep(m, client, ids, epoch, n);
            let codes = allocation_sweep_codes(m, client, ids, epoch, n);
            &&& forall|k: (u64, u64)| #[trigger]
                p.contains_key(k) <==> (m.contains_key(k) && !(k.0 == client && ids.subrange(0, n).contains(
                    k.1,
                ) && allocation_expired(m[k], epoch)))
            &&& forall|k: (u64, u64)| #[trigger] p.contains_key(k) ==> p[k] == m[k]
            &&& codes.len() == n
            &&& forall|i: int|
                0 <= i < n ==> #[trigger] codes[i] == sweep_allocation_code(m, client, ids[i], epoch)
        }),
    decreases n,
{
    if n > 0 {
        lemma_allocation_sweep_distinct(m, client, ids, epoch, n - 1);
        let q = after_allocation_sweep(m, client, ids, epoch, n - 1);
        let id = ids[n - 1];
        let pre = ids.subrange(0, n - 1);
        assert(!pre.contains(id)) by {
            if pre.contains(id) {
                let w = choose|w: int| 0 <= w < pre.len() && pre[w] == id;
                assert(ids[w] == ids[n - 1]);
            }
        }
        assert(q.contains_key((client, id)));
        assert(sweep_allocation_code(q, client, id, epoch) == sweep_allocation_code(m, client, id, epoch));
        let p = after_allocation_sweep(m, client, ids, epoch, n);
        assert forall|k: (u64, u64)| #[trigger]
            p.contains_key(k) <==> (m.contains_key(k) && !(k.0 == client && ids.subrange(0, n).contains(
                k.1,
            ) && allocation_expired(m[k], epoch))) by {
            if ids.subrange(0, n).contains(k.1) {
                let w = choose|w: int| 0 <= w < n && ids.subrange(0, n)[w] == k.1;
                if w < n - 1 {
                    assert(pre[w] == k.1);
                }
            }
            if pre.contains(k.1) {
                let w = choose|w: int| 0 <= w < pre.len() && pre[w] == k.1;
                assert(ids.subrange(0, n)[w] == k.1);
            }
            if k.1 == id {
                assert(ids.subrange(0, n)[n - 1] == k.1);
            }
        }
    }
}

/// Sweeping distinct ids that are all present removes exactly those of
/// them whose term has run out, and the code of each is its code against
/// the claims as they stood before the sweep.
pub proof fn lemma_claim_sweep_distinct(
    m: Map<(u64, u64), Claim>,
    provider: ActorID,
    ids: Seq<u64>,
    epoch: ChainEpoch,
    n: int,
)
    requires
        0 <= n <= ids.len(),
        forall|i: int, j: int| 0 <= i < j < ids.len() ==> ids[i] != ids[j],
        forall|i: int| 0 <= i < ids.len() ==> m.contains_key((provider, #[trigger] ids[i])),
    ensures
        ({
            let p = after_claim_sweep(m, provider, ids, epoch, n);
            let codes = claim_sweep_codes(m, provider, ids, epoch, n);
            &&& forall|k: (u64, u64)| #[trigger]
                p.contains_key(k) <==> (m.contains_key(k) && !(k.0 == provider && ids.subrange(0, n).contains(
                    k.1,
                ) && claim_expired(m[k], epoch)))
            &&& forall|k: (u64, u64)| #[trigger] p.contains_key(k) ==> p[k] == m[k]
            &&& codes.len() == n
            &&& forall|i: int| 0 <= i < n ==> #[trigger] codes[i] == sweep_claim_code(m, provider, ids[i], epoch)
        }),
    decreases n,
{
    if n > 0 {
        lemma_claim_sweep_distinct(m, provider, ids, epoch, n - 1);
        let q = after_claim_sweep(m, provider, ids, epoch, n - 1);
        let id = ids[n - 1];
        let pre = ids.subrange(0, n - 1);
        assert(!pre.contains(id)) by {
            if pre.contains(id) {
                let w = choose|w: int| 0 <= w < pre.len() && pre[w] == id;
                assert(ids[w] == ids[n - 1]);
            }
        }
        assert(q.contains_key((provider, id)));
        assert(sweep_claim_code(q, provider, id, epoch) == sweep_claim_code(m, provider, id, epoch));
        let p = after_claim_sweep(m, provider, ids, epoch, n);
        assert forall|k: (u64, u64)| #[trigger]
            p.contains_key(k) <==> (m.contains_key(k) && !(k.0 == provider && ids.subrange(0, n).contains(
                k.1,
            ) && claim_expired(m[k], epoch))) by {
            if ids.subrange(0, n).contains(k.1) {
                let w = choose|w: int| 0 <= w < n && ids.subrange(0, n)[w] == k.1;
                if w < n - 1 {
                    assert(pre[w] == k.1);
                }
            }
            if pre.contains(k.1) {
                let w = choose|w: int| 0 <= w < pre.len() && pre[w] == k.1;
                assert(ids.subrange(0, n)[w] == k.1);
            }
            if k.1 == id {
                assert(ids.subrange(0, n)[n - 1] == k.1);
            }
        }
    }
}

/// Taking an allocation away keeps the contents in order.
pub proof fn lemma_remove_allocation_keeps_order(s: RegistryState, key: (u64, u64))
    requires
        ids_below_next(s),
        stored_under_owner(s),
    ensures
        ids_below_next(RegistryState { allocations: s.allocations.remove(key), ..s }),
        stored_under_owner(RegistryState { allocations: s.allocations.remove(key), ..s }),
{
    let t = RegistryState { allocations: s.allocations.remove(key), ..s };
    assert forall|k: (u64, u64)| #[trigger] t.allocations.contains_key(k) implies k.1 < t.next_allocation_id
        && t.allocations[k].client == k.0 by {
        assert(s.allocations.contains_key(k));
    }
}

/// Taking a claim away keeps the contents in order.
pub proof fn lemma_remove_claim_keeps_order(s: RegistryState, key: (u64, u64))
    requires
        ids_below_next(s),
        stored_under_owner(s),
    ensures
        ids_below_next(RegistryState { claims: s.claims.remove(key), ..s }),
        stored_under_owner(RegistryState { claims: s.claims.remove(key), ..s }),
{
    let t = RegistryState { claims: s.claims.remove(key), ..s };
    assert forall|k: (u64, u64)| #[trigger] t.claims.contains_key(k) implies k.1 < t.next_allocation_id
        && t.claims[k].provider == k.0 by {
        assert(s.claims.contains_key(k));
    }
}

/// Storing a claim under its provider and an id below the next id keeps
/// the contents in order.
pub proof fn lemma_insert_claim_keeps_order(s: RegistryState, key: (u64, u64), c: Claim)
    requires
        ids_below_next(s),
        stored_under_owner(s),
        key.1 < s.next_allocation_id,
        c.provider == key.0,
    ensures
        ids_below_next(RegistryState { claims: s.claims.insert(key, c), ..s }),
        stored_under_owner(RegistryState { claims: s.claims.insert(key, c), ..s }),
{
    let t = RegistryState { claims: s.claims.insert(key, c), ..s };
    assert forall|k: (u64, u64)| #[trigger] t.claims.contains_key(k) implies k.1 < t.next_allocation_id
        && t.claims[k].provider == k.0 by {
        if k != key {
            assert(s.claims.contains_key(k));
        }
    }
}

} // verus!
