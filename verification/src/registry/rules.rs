//! What each registry operation decides, as functions of the registry's
//! contents.

use crate::exit::ExitCode;
use crate::policy::Policy;
use crate::registry::types::{
    Allocation, AllocationClaim, AllocationRequest, Claim, ClaimTerm, SectorClaims,
};
use crate::types::{ActorID, ChainEpoch, SectorNumber};
use vstd::prelude::*;

verus! {

/// The contents of a registry.
pub struct RegistryState {
    /// Allocations by `(client, id)`.
    pub allocations: Map<(u64, u64), Allocation>,
    /// Claims by `(provider, id)`.
    pub claims: Map<(u64, u64), Claim>,
    /// The id that the next new allocation gets.
    pub next_allocation_id: u64,
}

/// Every id in use is below the next id to hand out.
pub open spec fn ids_below_next(s: RegistryState) -> bool {
    &&& forall|k: (u64, u64)| #[trigger] s.allocations.contains_key(k) ==> k.1 < s.next_allocation_id
    &&& forall|k: (u64, u64)| #[trigger] s.claims.contains_key(k) ==> k.1 < s.next_allocation_id
}

/// Every allocation is stored under its client, every claim under its
/// provider.
pub open spec fn stored_under_owner(s: RegistryState) -> bool {
    &&& forall|k: (u64, u64)| #[trigger] s.allocations.contains_key(k) ==> s.allocations[k].client == k.0
    &&& forall|k: (u64, u64)| #[trigger] s.claims.contains_key(k) ==> s.claims[k].provider == k.0
}

/// The claim that an allocation turns into when it is redeemed at `epoch`
/// for `sector`.
pub open spec fn claim_from(a: Allocation, epoch: ChainEpoch, sector: SectorNumber) -> Claim {
    Claim {
        provider: a.provider,
        client: a.client,
        data: a.data,
        size: a.size,
        term_min: a.term_min,
        term_max: a.term_max,
        term_start: epoch,
        sector,
    }
}

/// Whether `provider` may still redeem allocation `a` at `epoch`: it is the
/// allocation's provider, and the allocation has not expired.
pub open spec fn may_claim(a: Allocation, provider: ActorID, epoch: ChainEpoch) -> bool {
    a.provider == provider && epoch <= a.expiration
}

/// Whether request `req` fits allocation `a` at `epoch` for a sector that
/// expires at `expiry`: the data and the size are those of the allocation,
/// and the sector's remaining life lies inside the allocation's term.
pub open spec fn fits_allocation(a: Allocation, req: AllocationClaim, expiry: ChainEpoch, epoch: ChainEpoch) -> bool {
    &&& a.data == req.data
    &&& a.size == req.size
    &&& a.term_min <= expiry - epoch <= a.term_max
}

/// The code of one claim request against the registry's contents, leaving
/// aside the other requests of its sector: not found when the client has
/// no such allocation; forbidden when the allocation is another
/// provider's or has expired; illegal argument when the request does not
/// fit the allocation, or when the provider already holds a claim with the
/// allocation's id; success otherwise.
pub open spec fn claim_code(
    s: RegistryState,
    provider: ActorID,
    req: AllocationClaim,
    expiry: ChainEpoch,
    epoch: ChainEpoch,
) -> ExitCode {
    if !s.allocations.contains_key((req.client, req.allocation_id)) {
        ExitCode::NotFound
    } else if !may_claim(s.allocations[(req.client, req.allocation_id)], provider, epoch) {
        ExitCode::Forbidden
    } else if !fits_allocation(s.allocations[(req.client, req.allocation_id)], req, expiry, epoch) {
        ExitCode::IllegalArgument
    } else if s.claims.contains_key((provider, req.allocation_id)) {
        ExitCode::IllegalArgument
    } else {
        ExitCode::Success
    }
}

/// Whether one of the first `n` requests names allocation `(client, id)`.
pub open spec fn names_allocation(reqs: Seq<AllocationClaim>, n: int, client: u64, id: u64) -> bool
    decreases n,
{
    if n <= 0 {
        false
    } else {
        (reqs[n - 1].client == client && reqs[n - 1].allocation_id == id) || names_allocation(
            reqs,
            n - 1,
            client,
            id,
        )
    }
}

/// Whether one of the first `n` requests names an allocation with this id,
/// of whatever client.
pub open spec fn names_id(reqs: Seq<AllocationClaim>, n: int, id: u64) -> bool
    decreases n,
{
    if n <= 0 {
        false
    } else {
        reqs[n - 1].allocation_id == id || names_id(reqs, n - 1, id)
    }
}

/// The code of request `j` of a sector: its own code against the contents;
/// then, if an earlier request of the sector already redeems the same
/// allocation, not found; if an earlier one already makes a claim with the
/// same id, illegal argument.
pub open spec fn request_code(
    s: RegistryState,
    provider: ActorID,
    group: SectorClaims,
    j: int,
    epoch: ChainEpoch,
) -> ExitCode {
    let req = group.claims[j];
    let own = claim_code(s, provider, req, group.expiry, epoch);
    if own != ExitCode::Success {
        own
    } else if names_allocation(group.claims, j, req.client, req.allocation_id) {
        ExitCode::NotFound
    } else if names_id(group.claims, j, req.allocation_id) {
        ExitCode::IllegalArgument
    } else {
        ExitCode::Success
    }
}

/// The code of the first of the first `n` requests of a sector that fails;
/// success when none does.
pub open spec fn sector_code(
    s: RegistryState,
    provider: ActorID,
    group: SectorClaims,
    epoch: ChainEpoch,
    n: int,
) -> ExitCode
    decreases n,
{
    if n <= 0 {
        ExitCode::Success
    } else {
        let before = sector_code(s, provider, group, epoch, n - 1);
        if before != ExitCode::Success {
            before
        } else {
            request_code(s, provider, group, n - 1, epoch)
        }
    }
}

/// The contents after the first `n` requests of a sector are carried out:
/// each allocation leaves, and a claim with its id appears under the
/// provider.
pub open spec fn apply_requests(
    s: RegistryState,
    provider: ActorID,
    group: SectorClaims,
    epoch: ChainEpoch,
    n: int,
) -> RegistryState
    decreases n,
{
    if n <= 0 {
        s
    } else {
        let p = apply_requests(s, provider, group, epoch, n - 1);
        let req = group.claims[n - 1];
        let key = (req.client, req.allocation_id);
        RegistryState {
            allocations: p.allocations.remove(key),
            claims: p.claims.insert(
                (provider, req.allocation_id),
                claim_from(s.allocations[key], epoch, group.sector),
            ),
            next_allocation_id: p.next_allocation_id,
        }
    }
}

/// The code of a whole sector.
pub open spec fn sector_result(
    s: RegistryState,
    provider: ActorID,
    group: SectorClaims,
    epoch: ChainEpoch,
) -> ExitCode {
    sector_code(s, provider, group, epoch, group.claims.len() as int)
}

/// The contents after a sector: all its requests carried out if all succeed,
/// nothing changed otherwise.
pub open spec fn after_sector(
    s: RegistryState,
    provider: ActorID,
    group: SectorClaims,
    epoch: ChainEpoch,
) -> RegistryState {
    if sector_result(s, provider, group, epoch) == ExitCode::Success {
        apply_requests(s, provider, group, epoch, group.claims.len() as int)
    } else {
        s
    }
}

/// The contents after the first `n` sectors, each committed or dropped on
/// its own.
pub open spec fn after_sectors(
    s: RegistryState,
    provider: ActorID,
    groups: Seq<SectorClaims>,
    epoch: ChainEpoch,
    n: int,
) -> RegistryState
    decreases n,
{
    if n <= 0 {
        s
    } else {
        after_sector(after_sectors(s, provider, groups, epoch, n - 1), provider, groups[n - 1], epoch)
    }
}

/// The codes of the first `n` sectors, each judged against the contents that
/// the sectors before it left.
pub open spec fn sector_codes(
    s: RegistryState,
    provider: ActorID,
    groups: Seq<SectorClaims>,
    epoch: ChainEpoch,
    n: int,
) -> Seq<ExitCode>
    decreases n,
{
    if n <= 0 {
        Seq::empty()
    } else {
        sector_codes(s, provider, groups, epoch, n - 1).push(
            sector_result(after_sectors(s, provider, groups, epoch, n - 1), provider, groups[n - 1], epoch),
        )
    }
}

/// Total size of the first `n` requests.
pub open spec fn requested_space(reqs: Seq<AllocationClaim>, n: int) -> int
    decreases n,
{
    if n <= 0 {
        0
    } else {
        requested_space(reqs, n - 1) + reqs[n - 1].size
    }
}

/// The space claimed by each of the first `n` sectors that succeeded, in
/// order.
pub open spec fn claimed_spaces(codes: Seq<ExitCode>, groups: Seq<SectorClaims>, n: int) -> Seq<
    int,
>
    decreases n,
{
    if n <= 0 {
        Seq::empty()
    } else if codes[n - 1] == ExitCode::Success {
        claimed_spaces(codes, groups, n - 1).push(
            requested_space(groups[n - 1].claims, groups[n - 1].claims.len() as int),
        )
    } else {
        claimed_spaces(codes, groups, n - 1)
    }
}

/// Whether every code is success.
pub open spec fn all_success(codes: Seq<ExitCode>) -> bool {
    forall|i: int| 0 <= i < codes.len() ==> codes[i] == ExitCode::Success
}

/// Whether a claim has run out at `epoch`.
pub open spec fn claim_expired(c: Claim, epoch: ChainEpoch) -> bool {
    c.term_start + c.term_max <= epoch
}

/// Whether an allocation has run out at `epoch`.
pub open spec fn allocation_expired(a: Allocation, epoch: ChainEpoch) -> bool {
    a.expiration <= epoch
}

/// Whether `term_max` is a legal new maximum term for claim `c` at `epoch`:
/// strictly above the present one, and within the policy's maximum term,
/// counted from the start of the term while the claim runs, and from
/// `epoch` to the new end of the term once the claim has run out.
pub open spec fn extension_allowed(c: Claim, term_max: ChainEpoch, epoch: ChainEpoch, policy: Policy) -> bool {
    &&& term_max > c.term_max
    &&& if claim_expired(c, epoch) {
        c.term_start + term_max - epoch <= policy.maximum_verified_allocation_term
    } else {
        term_max <= policy.maximum_verified_allocation_term
    }
}

/// The code of one extension request made by `caller`.
pub open spec fn extension_code(
    s: RegistryState,
    caller: ActorID,
    term: ClaimTerm,
    epoch: ChainEpoch,
    policy: Policy,
) -> ExitCode {
    let key = (term.provider, term.claim_id);
    if !s.claims.contains_key(key) {
        ExitCode::NotFound
    } else if s.claims[key].client != caller {
        ExitCode::Forbidden
    } else if !extension_allowed(s.claims[key], term.term_max, epoch, policy) {
        ExitCode::IllegalArgument
    } else {
        ExitCode::Success
    }
}

/// The claim with its maximum term replaced.
pub open spec fn with_term_max(c: Claim, term_max: ChainEpoch) -> Claim {
    Claim { term_max, ..c }
}

/// The contents after one extension request: the claim's maximum term is
/// replaced if the request succeeds, nothing changes otherwise.
pub open spec fn after_extension(
    s: RegistryState,
    caller: ActorID,
    term: ClaimTerm,
    epoch: ChainEpoch,
    policy: Policy,
) -> RegistryState {
    let key = (term.provider, term.claim_id);
    if extension_code(s, caller, term, epoch, policy) == ExitCode::Success {
        RegistryState { claims: s.claims.insert(key, with_term_max(s.claims[key], term.term_max)), ..s }
    } else {
        s
    }
}

/// The contents after the first `n` extension requests.
pub open spec fn after_extensions(
    s: RegistryState,
    caller: ActorID,
    terms: Seq<ClaimTerm>,
    epoch: ChainEpoch,
    policy: Policy,
    n: int,
) -> RegistryState
    decreases n,
{
    if n <= 0 {
        s
    } else {
        after_extension(after_extensions(s, caller, terms, epoch, policy, n - 1), caller, terms[n - 1], epoch, policy)
    }
}

/// The codes of the first `n` extension requests.
pub open spec fn extension_codes(
    s: RegistryState,
    caller: ActorID,
    terms: Seq<ClaimTerm>,
    epoch: ChainEpoch,
    policy: Policy,
    n: int,
) -> Seq<ExitCode>
    decreases n,
{
    if n <= 0 {
        Seq::empty()
    } else {
        extension_codes(s, caller, terms, epoch, policy, n - 1).push(
            extension_code(
                after_extensions(s, caller, terms, epoch, policy, n - 1),
                caller,
                terms[n - 1],
                epoch,
                policy,
            ),
        )
    }
}

/// The code of sweeping allocation `id` of `client`.
pub open spec fn sweep_allocation_code(
    allocations: Map<(u64, u64), Allocation>,
    client: ActorID,
    id: u64,
    epoch: ChainEpoch,
) -> ExitCode {
    if !allocations.contains_key((client, id)) {
        ExitCode::NotFound
    } else if !allocation_expired(allocations[(client, id)], epoch) {
        ExitCode::Forbidden
    } else {
        ExitCode::Success
    }
}

/// The allocations after the first `n` ids are swept in order.
pub open spec fn after_allocation_sweep(
    allocations: Map<(u64, u64), Allocation>,
    client: ActorID,
    ids: Seq<u64>,
    epoch: ChainEpoch,
    n: int,
) -> Map<(u64, u64), Allocation>
    decreases n,
{
    if n <= 0 {
        allocations
    } else {
        let p = after_allocation_sweep(allocations, client, ids, epoch, n - 1);
        if sweep_allocation_code(p, client, ids[n - 1], epoch) == ExitCode::Success {
            p.remove((client, ids[n - 1]))
        } else {
            p
        }
    }
}

/// The codes of sweeping the first `n` ids in order.
pub open spec fn allocation_sweep_codes(
    allocations: Map<(u64, u64), Allocation>,
    client: ActorID,
    ids: Seq<u64>,
    epoch: ChainEpoch,
    n: int,
) -> Seq<ExitCode>
    decreases n,
{
    if n <= 0 {
        Seq::empty()
    } else {
        allocation_sweep_codes(allocations, client, ids, epoch, n - 1).push(
            sweep_allocation_code(
                after_allocation_sweep(allocations, client, ids, epoch, n - 1),
                client,
                ids[n - 1],
                epoch,
            ),
        )
    }
}

/// Total size of the allocations removed by sweeping the first `n` ids.
pub open spec fn allocation_sweep_recovered(
    allocations: Map<(u64, u64), Allocation>,
    client: ActorID,
    ids: Seq<u64>,
    epoch: ChainEpoch,
    n: int,
) -> int
    decreases n,
{
    if n <= 0 {
        0
    } else {
        let p = after_allocation_sweep(allocations, client, ids, epoch, n - 1);
        allocation_sweep_recovered(allocations, client, ids, epoch, n - 1) + if sweep_allocation_code(
            p,
            client,
            ids[n - 1],
            epoch,
        ) == ExitCode::Success {
            p[(client, ids[n - 1])].size as int
        } else {
            0
        }
    }
}

/// Whether the list holds exactly the ids under `owner` in the map's keys.
pub open spec fn ids_under<V>(ids: Seq<u64>, m: Map<(u64, u64), V>, owner: ActorID) -> bool {
    forall|id: u64| ids.contains(id) <==> m.contains_key((owner, id))
}

/// The code of sweeping claim `id` of `provider`.
pub open spec fn sweep_claim_code(
    claims: Map<(u64, u64), Claim>,
    provider: ActorID,
    id: u64,
    epoch: ChainEpoch,
) -> ExitCode {
    if !claims.contains_key((provider, id)) {
        ExitCode::NotFound
    } else if !claim_expired(claims[(provider, id)], epoch) {
        ExitCode::Forbidden
    } else {
        ExitCode::Success
    }
}

/// The claims after the first `n` ids are swept in order.
pub open spec fn after_claim_sweep(
    claims: Map<(u64, u64), Claim>,
    provider: ActorID,
    ids: Seq<u64>,
    epoch: ChainEpoch,
    n: int,
) -> Map<(u64, u64), Claim>
    decreases n,
{
    if n <= 0 {
        claims
    } else {
        let p = after_claim_sweep(claims, provider, ids, epoch, n - 1);
        if sweep_claim_code(p, provider, ids[n - 1], epoch) == ExitCode::Success {
            p.remove((provider, ids[n - 1]))
        } else {
            p
        }
    }
}

/// The codes of sweeping the first `n` ids in order.
pub open spec fn claim_sweep_codes(
    claims: Map<(u64, u64), Claim>,
    provider: ActorID,
    ids: Seq<u64>,
    epoch: ChainEpoch,
    n: int,
) -> Seq<ExitCode>
    decreases n,
{
    if n <= 0 {
        Seq::empty()
    } else {
        claim_sweep_codes(claims, provider, ids, epoch, n - 1).push(
            sweep_claim_code(after_claim_sweep(claims, provider, ids, epoch, n - 1), provider, ids[n - 1], epoch),
        )
    }
}

/// Whether the numbers are in strictly ascending order.
pub open spec fn strictly_ascending(ids: Seq<u64>) -> bool {
    forall|i: int, j: int| 0 <= i < j < ids.len() ==> ids[i] < ids[j]
}

/// The code of fetching claim `id` of `provider`.
pub open spec fn get_claim_code(claims: Map<(u64, u64), Claim>, provider: ActorID, id: u64) -> ExitCode {
    if claims.contains_key((provider, id)) {
        ExitCode::Success
    } else {
        ExitCode::NotFound
    }
}

/// The claims found among the first `n` ids, in order.
pub open spec fn claims_found(claims: Map<(u64, u64), Claim>, provider: ActorID, ids: Seq<u64>, n: int) -> Seq<
    Claim,
>
    decreases n,
{
    if n <= 0 {
        Seq::empty()
    } else if claims.contains_key((provider, ids[n - 1])) {
        claims_found(claims, provider, ids, n - 1).push(claims[(provider, ids[n - 1])])
    } else {
        claims_found(claims, provider, ids, n - 1)
    }
}

/// The allocation that a request of `client` made at `epoch` asks for.
pub open spec fn allocation_from(client: ActorID, req: AllocationRequest, epoch: ChainEpoch) -> Allocation {
    Allocation {
        client,
        provider: req.provider,
        data: req.data,
        size: req.size,
        term_min: req.term_min,
        term_max: req.term_max,
        expiration: req.expiration,
        created_at: epoch,
    }
}

/// The allocations after the first `n` of `allocs` are stored for `client`
/// under consecutive ids from `first_id`.
pub open spec fn with_allocations(
    allocations: Map<(u64, u64), Allocation>,
    client: ActorID,
    allocs: Seq<Allocation>,
    first_id: u64,
    n: int,
) -> Map<(u64, u64), Allocation>
    decreases n,
{
    if n <= 0 {
        allocations
    } else {
        with_allocations(allocations, client, allocs, first_id, n - 1).insert(
            (client, (first_id + n - 1) as u64),
            allocs[n - 1],
        )
    }
}

} // verus!
