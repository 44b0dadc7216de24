//! Laws of the registry, stated over its rules.

use crate::exit::ExitCode;
use crate::policy::Policy;
use crate::registry::hook::{
    after_receive, extension_error, extension_term, extension_terms, extensions_error,
    receive_error, request_error, requested_allocations, requests_error, TokensReceived,
};
use crate::registry::lemmas::lemma_sector_codes;
use crate::registry::rules::{
    after_extension, after_extensions, after_sector, after_sectors, all_success, apply_requests,
    claim_code, claim_expired, claim_from, extension_code, extension_codes, fits_allocation,
    get_claim_code, ids_below_next, may_claim, sector_code, sector_codes, sector_result,
    with_allocations, RegistryState,
};
use crate::registry::types::{Allocation, ClaimExtensionRequest, ClaimTerm, SectorClaims};
use crate::types::{ActorID, ChainEpoch};
use vstd::prelude::*;

verus! {

/// The contents after `alloc` is stored under the next id.
pub open spec fn after_create(s: RegistryState, alloc: Allocation) -> RegistryState {
    RegistryState {
        allocations: s.allocations.insert((alloc.client, s.next_allocation_id), alloc),
        next_allocation_id: (s.next_allocation_id + 1) as u64,
        ..s
    }
}

/// A new allocation can be redeemed once, and only once.
///
/// After an allocation is created, a sector of its provider that asks for
/// it with the same client, data and size, while the allocation has not
/// expired and the sector's remaining life lies inside the allocation's
/// term, succeeds: the allocation is gone and the claim stands under the
/// provider with the same id, its term starting at the epoch of the claim.
/// Asking again, in a later call or in a later sector of the same call, is
/// answered with not found.
pub proof fn law_claim_exactly_once(
    s: RegistryState,
    alloc: Allocation,
    group: SectorClaims,
    epoch: ChainEpoch,
)
    requires
        ids_below_next(s),
        s.next_allocation_id < u64::MAX,
        group.claims.len() == 1,
        group.claims[0].client == alloc.client,
        group.claims[0].allocation_id == s.next_allocation_id,
        group.claims[0].data == alloc.data,
        group.claims[0].size == alloc.size,
        epoch <= alloc.expiration,
        alloc.term_min <= group.expiry - epoch <= alloc.term_max,
    ensures
        ({
            let created = after_create(s, alloc);
            let id = s.next_allocation_id;
            let claimed = after_sector(created, alloc.provider, group, epoch);
            &&& sector_result(created, alloc.provider, group, epoch) == ExitCode::Success
            &&& !claimed.allocations.contains_key((alloc.client, id))
            &&& claimed.claims.contains_key((alloc.provider, id))
            &&& claimed.claims[(alloc.provider, id)] == claim_from(alloc, epoch, group.sector)
            &&& sector_result(claimed, alloc.provider, group, epoch) == ExitCode::NotFound
            &&& after_sector(claimed, alloc.provider, group, epoch) == claimed
            &&& sector_codes(created, alloc.provider, seq![group, group], epoch, 2) == seq![
                ExitCode::Success,
                ExitCode::NotFound,
            ]
        }),
{
    let created = after_create(s, alloc);
    let id = s.next_allocation_id;
    let provider = alloc.provider;
    let req = group.claims[0];
    assert(created.allocations.contains_key((alloc.client, id)));
    assert(!created.claims.contains_key((provider, id))) by {
        if s.claims.contains_key((provider, id)) {
            assert(id < s.next_allocation_id);
        }
    }
    assert(may_claim(alloc, provider, epoch));
    assert(fits_allocation(alloc, req, group.expiry, epoch));
    assert(claim_code(created, provider, req, group.expiry, epoch) == ExitCode::Success);
    assert(sector_code(created, provider, group, epoch, 0) == ExitCode::Success);
    assert(sector_code(created, provider, group, epoch, 1) == ExitCode::Success);
    assert(apply_requests(created, provider, group, epoch, 0) == created);
    let claimed = apply_requests(created, provider, group, epoch, 1);
    assert(claimed == after_sector(created, provider, group, epoch));
    assert(claim_code(claimed, provider, req, group.expiry, epoch) == ExitCode::NotFound);
    assert(sector_code(claimed, provider, group, epoch, 0) == ExitCode::Success);
    assert(sector_code(claimed, provider, group, epoch, 1) == ExitCode::NotFound);
    let both = seq![group, group];
    lemma_sector_codes(created, provider, both, epoch, 2);
    assert(after_sectors(created, provider, both, epoch, 0) == created);
    assert(after_sectors(created, provider, both, epoch, 1) == claimed);
    assert(sector_codes(created, provider, both, epoch, 2) =~= seq![ExitCode::Success, ExitCode::NotFound]);
}

/// An extension asked for by the claim's client succeeds exactly when the
/// new maximum term is strictly above the present one and within the
/// policy's maximum term: counted from the start of the term while the
/// claim runs, and from the current epoch to the new end of the term once
/// the claim has run out. A new maximum term that is equal or smaller is an
/// illegal argument. A successful extension sets the maximum term and nothing else;
/// the maximum term of a claim never goes down.
pub proof fn law_extension(s: RegistryState, caller: ActorID, term: ClaimTerm, epoch: ChainEpoch, policy: Policy)
    requires
        s.claims.contains_key((term.provider, term.claim_id)),
        s.claims[(term.provider, term.claim_id)].client == caller,
    ensures
        ({
            let key = (term.provider, term.claim_id);
            let old_claim = s.claims[key];
            let code = extension_code(s, caller, term, epoch, policy);
            let after = after_extension(s, caller, term, epoch, policy);
            &&& (code == ExitCode::Success) <==> (term.term_max > old_claim.term_max && if claim_expired(
                old_claim,
                epoch,
            ) {
                old_claim.term_start + term.term_max - epoch <= policy.maximum_verified_allocation_term
            } else {
                term.term_max <= policy.maximum_verified_allocation_term
            })
            &&& term.term_max <= old_claim.term_max ==> code == ExitCode::IllegalArgument
            &&& code != ExitCode::Success ==> after == s
            &&& code == ExitCode::Success ==> after.claims[key].term_max == term.term_max
            &&& after.claims.contains_key(key)
            &&& after.claims[key].term_max >= old_claim.term_max
            &&& after.claims[key].term_start == old_claim.term_start
            &&& after.allocations == s.allocations
        }),
{
}

/// Of two sectors, the first failing and the second succeeding against the
/// same contents: taken independently, the codes are the first sector's
/// failure and success, and only the second sector's claims persist; the
/// codes are not all success, so a call that asks for all or nothing fails
/// as a whole.
pub proof fn law_sectors_independent(
    s: RegistryState,
    provider: ActorID,
    groups: Seq<SectorClaims>,
    epoch: ChainEpoch,
)
    requires
        groups.len() == 2,
        sector_result(s, provider, groups[0], epoch) != ExitCode::Success,
        sector_result(s, provider, groups[1], epoch) == ExitCode::Success,
    ensures
        sector_codes(s, provider, groups, epoch, 2) == seq![
            sector_result(s, provider, groups[0], epoch),
            ExitCode::Success,
        ],
        after_sectors(s, provider, groups, epoch, 2) == apply_requests(
            s,
            provider,
            groups[1],
            epoch,
            groups[1].claims.len() as int,
        ),
        !all_success(sector_codes(s, provider, groups, epoch, 2)),
{
    lemma_sector_codes(s, provider, groups, epoch, 2);
    assert(after_sectors(s, provider, groups, epoch, 0) == s);
    assert(after_sectors(s, provider, groups, epoch, 1) == s);
    let codes = sector_codes(s, provider, groups, epoch, 2);
    assert(codes =~= seq![sector_result(s, provider, groups[0], epoch), ExitCode::Success]);
    assert(codes[0] != ExitCode::Success);
}

/// A claim that stands under another provider is not found under this
/// one.
pub proof fn law_other_partition_not_found(s: RegistryState, provider: ActorID, other: ActorID, id: u64)
    requires
        other != provider,
        s.claims.contains_key((other, id)),
        !s.claims.contains_key((provider, id)),
    ensures
        get_claim_code(s.claims, provider, id) == ExitCode::NotFound,
{
}

/// Every allocation that an accepted transfer creates is within the
/// policy's bounds: it has at least the minimum size, its minimum term is
/// no more than its maximum term, which is no more than the policy's
/// maximum, and it expires no later than the policy's maximum expiration
/// counted from its creation.
pub proof fn law_created_allocations_within_policy(
    s: RegistryState,
    caller: ActorID,
    params: TokensReceived,
    policy: Policy,
    epoch: ChainEpoch,
    i: int,
)
    requires
        ids_below_next(s),
        receive_error(s, caller, params, policy, epoch).is_none(),
        0 <= i < params.allocations@.len(),
    ensures
        ({
            let key = (params.from, (s.next_allocation_id + i) as u64);
            let after = after_receive(s, params, policy, epoch);
            &&& after.allocations.contains_key(key)
            &&& after.allocations[key] == requested_allocations(params.from, params.allocations@, epoch)[i]
            &&& after.allocations[key].created_at == epoch
            &&& after.allocations[key].size >= policy.minimum_verified_allocation_size
            &&& after.allocations[key].term_min <= after.allocations[key].term_max
            &&& after.allocations[key].term_max <= policy.maximum_verified_allocation_term
            &&& after.allocations[key].expiration <= after.allocations[key].created_at
                + policy.maximum_verified_allocation_expiration
        }),
{
    let reqs = params.allocations@;
    let n = reqs.len() as int;
    lemma_requests_all_fine(reqs, policy, epoch, n);
    assert(request_error(reqs[i], i as usize, policy, epoch).is_none());
    lemma_with_allocations(
        s.allocations,
        params.from,
        requested_allocations(params.from, reqs, epoch),
        s.next_allocation_id,
        n,
    );
}

/// The hook judges its extension requests as the extension of claim terms
/// does: the requests of a transfer have no error exactly when, asked for
/// by the sender as terms of an extension, every one of them succeeds.
pub proof fn law_hook_extends_as_clients_do(
    s: RegistryState,
    from: ActorID,
    exts: Seq<ClaimExtensionRequest>,
    policy: Policy,
    epoch: ChainEpoch,
    n: int,
)
    requires
        0 <= n <= exts.len(),
    ensures
        extensions_error(s, from, exts, policy, epoch, n).is_none() <==> all_success(
            extension_codes(s, from, extension_terms(exts), epoch, policy, n),
        ),
        extension_codes(s, from, extension_terms(exts), epoch, policy, n).len() == n,
    decreases n,
{
    if n > 0 {
        law_hook_extends_as_clients_do(s, from, exts, policy, epoch, n - 1);
        let terms = extension_terms(exts);
        let before = extension_codes(s, from, terms, epoch, policy, n - 1);
        let now = extension_codes(s, from, terms, epoch, policy, n);
        let state = after_extensions(s, from, terms, epoch, policy, n - 1);
        let code = extension_code(state, from, terms[n - 1], epoch, policy);
        assert(terms[n - 1] == extension_term(exts[n - 1]));
        assert(now == before.push(code));
        assert(extension_error(state.claims, from, exts[n - 1], (n - 1) as usize, policy, epoch).is_none() <==> code
            == ExitCode::Success);
        if all_success(now) {
            assert forall|i: int| 0 <= i < before.len() implies before[i] == ExitCode::Success by {
                assert(now[i] == before[i]);
            }
            assert(now[n - 1] == code);
        }
        if all_success(before) && code == ExitCode::Success {
            assert forall|i: int| 0 <= i < now.len() implies now[i] == ExitCode::Success by {
                if i < n - 1 {
                    assert(now[i] == before[i]);
                }
            }
        }
        if !all_success(before) {
            let w = choose|w: int| 0 <= w < before.len() && before[w] != ExitCode::Success;
            assert(now[w] == before[w]);
        }
    }
}

/// With no error among the first `n` requests, none of them has one.
proof fn lemma_requests_all_fine(
    reqs: Seq<crate::registry::types::AllocationRequest>,
    policy: Policy,
    epoch: ChainEpoch,
    n: int,
)
    requires
        0 <= n,
        requests_error(reqs, policy, epoch, n).is_none(),
    ensures
        forall|j: int| 0 <= j < n ==> (#[trigger] request_error(reqs[j], j as usize, policy, epoch)).is_none(),
    decreases n,
{
    if n > 0 {
        lemma_requests_all_fine(reqs, policy, epoch, n - 1);
    }
}

/// New allocations stored under consecutive ids can all be found again.
proof fn lemma_with_allocations(
    base: Map<(u64, u64), Allocation>,
    client: ActorID,
    allocs: Seq<Allocation>,
    first: u64,
    n: int,
)
    requires
        0 <= n <= allocs.len(),
        first + n <= u64::MAX,
    ensures
        forall|i: int|
            0 <= i < n ==> with_allocations(base, client, allocs, first, n).contains_key(
                (client, #[trigger] ((first + i) as u64)),
            ) && with_allocations(base, client, allocs, first, n)[(client, (first + i) as u64)] == allocs[i],
    decreases n,
{
    if n > 0 {
        lemma_with_allocations(base, client, allocs, first, n - 1);
        let m = with_allocations(base, client, allocs, first, n);
        let p = with_allocations(base, client, allocs, first, n - 1);
        assert forall|i: int| 0 <= i < n implies m.contains_key((client, #[trigger] ((first + i) as u64))) && m[(
            client,
            (first + i) as u64,
        )] == allocs[i] by {
            if i < n - 1 {
                assert(p.contains_key((client, (first + i) as u64)));
            }
        }
    }
}

} // verus!
