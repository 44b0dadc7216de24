//! The registry and its operations.

use crate::bigint::BigInt;
use crate::exit::{BatchAborted, BatchReturn, ExitCode};
use crate::owner_map::OwnerMap;
use crate::policy::Policy;
use crate::registry::lemmas::{
    lemma_allocation_sweep_distinct, lemma_apply_requests, lemma_claim_sweep_distinct,
    lemma_insert_claim_keeps_order, lemma_remove_allocation_keeps_order,
    lemma_remove_claim_keeps_order, lemma_sector_code_stays, lemma_sector_code_success,
    lemma_sector_codes,
};
use crate::registry::rules::{
    after_allocation_sweep, after_claim_sweep, after_extensions, after_sectors, all_success,
    allocation_expired, allocation_sweep_codes, allocation_sweep_recovered, apply_requests,
    claim_code, claim_expired, claim_from, claim_sweep_codes, claimed_spaces, claims_found,
    extension_codes, get_claim_code, ids_below_next, ids_under, names_allocation, names_id,
    request_code, requested_space, sector_code, sector_codes, sector_result, stored_under_owner,
    strictly_ascending, sweep_allocation_code, sweep_claim_code, RegistryState,
};
use crate::registry::types::{
    claim_groups, Allocation, AllocationClaim, Claim, ClaimAllocationsReturn, ClaimTerm,
    GetClaimsReturn, RemoveExpiredAllocationsReturn, RemoveExpiredClaimsReturn,
    SectorAllocationClaims, SectorClaimSummary, SectorClaims,
};
use crate::types::{cid_eq, ActorID, AllocationID, ChainEpoch, ClaimID};
use vstd::prelude::*;

verus! {

/// The claim registry: allocations indexed by client, claims indexed by
/// provider, and the next id to hand out.
pub struct Registry {
    allocations: OwnerMap<Allocation>,
    claims: OwnerMap<Claim>,
    next_allocation_id: u64,
}

impl View for Registry {
    type V = RegistryState;

    closed spec fn view(&self) -> RegistryState {
        RegistryState {
            allocations: self.allocations.view(),
            claims: self.claims.view(),
            next_allocation_id: self.next_allocation_id,
        }
    }
}

impl Registry {
    /// Both collections are in order.
    pub closed spec fn collections_wf(&self) -> bool {
        self.allocations.wf() && self.claims.wf()
    }

    /// The registry is well formed: its collections are in order, every id
    /// in use is below the next id, every allocation is stored under its
    /// client and every claim under its provider.
    pub open spec fn wf(&self) -> bool {
        self.collections_wf() && ids_below_next(self@) && stored_under_owner(self@)
    }

    /// An empty registry. Ids start at 1.
    pub fn new() -> (r: Self)
        ensures
            r.wf(),
            r@.allocations == Map::<(u64, u64), Allocation>::empty(),
            r@.claims == Map::<(u64, u64), Claim>::empty(),
            r@.next_allocation_id == 1,
    {
        Registry { allocations: OwnerMap::new(), claims: OwnerMap::new(), next_allocation_id: 1 }
    }

    /// The id that the next new allocation gets.
    pub fn next_allocation_id(&self) -> (r: u64)
        ensures
            r == self@.next_allocation_id,
    {
        self.next_allocation_id
    }

    /// The allocation `id` of `client`, if there is one.
    pub fn get_allocation(&self, client: ActorID, id: AllocationID) -> (r: Option<Allocation>)
        requires
            self.wf(),
        ensures
            r.is_some() == self@.allocations.contains_key((client, id)),
            r.is_some() ==> r.unwrap() == self@.allocations[(client, id)],
    {
        self.allocations.get(client, id)
    }

    /// The claim `id` of `provider`, if there is one.
    pub fn get_claim(&self, provider: ActorID, id: ClaimID) -> (r: Option<Claim>)
        requires
            self.wf(),
        ensures
            r.is_some() == self@.claims.contains_key((provider, id)),
            r.is_some() ==> r.unwrap() == self@.claims[(provider, id)],
    {
        self.claims.get(provider, id)
    }

    /// Stores a new allocation under its client and the next id, and returns
    /// that id. Refuses, changing nothing, when the ids are used up.
    pub fn create_allocation(&mut self, alloc: Allocation) -> (r: Option<AllocationID>)
        requires
            old(self).wf(),
        ensures
            final(self).wf(),
            r.is_some() == (old(self)@.next_allocation_id < u64::MAX),
            r.is_none() ==> final(self)@ == old(self)@,
            r.is_some() ==> r.unwrap() == old(self)@.next_allocation_id && final(self)@ == (RegistryState {
                allocations: old(self)@.allocations.insert((alloc.client, r.unwrap()), alloc),
                next_allocation_id: (r.unwrap() + 1) as u64,
                ..old(self)@
            }),
    {
        if self.next_allocation_id == u64::MAX {
            return None;
        }
        let id = self.next_allocation_id;
        self.allocations.insert(alloc.client, id, alloc);
        self.next_allocation_id = id + 1;
        Some(id)
    }

    /// Stores `claim` under `(provider, id)`, replacing what was there.
    pub(crate) fn put_claim(&mut self, provider: ActorID, id: ClaimID, claim: Claim)
        requires
            old(self).wf(),
            id < old(self)@.next_allocation_id,
            claim.provider == provider,
        ensures
            final(self).wf(),
            final(self)@ == (RegistryState {
                claims: old(self)@.claims.insert((provider, id), claim),
                ..old(self)@
            }),
    {
        proof {
            lemma_insert_claim_keeps_order(self@, (provider, id), claim);
        }
        self.claims.insert(provider, id, claim);
    }

    /// Stores a new claim under its provider and the next id, and returns
    /// that id. Refuses, changing nothing, when the ids are used up.
    pub fn create_claim(&mut self, claim: Claim) -> (r: Option<ClaimID>)
        requires
            old(self).wf(),
        ensures
            final(self).wf(),
            r.is_some() == (old(self)@.next_allocation_id < u64::MAX),
            r.is_none() ==> final(self)@ == old(self)@,
            r.is_some() ==> r.unwrap() == old(self)@.next_allocation_id && final(self)@ == (RegistryState {
                claims: old(self)@.claims.insert((claim.provider, r.unwrap()), claim),
                next_allocation_id: (r.unwrap() + 1) as u64,
                ..old(self)@
            }),
    {
        if self.next_allocation_id == u64::MAX {
            return None;
        }
        let id = self.next_allocation_id;
        self.claims.insert(claim.provider, id, claim);
        self.next_allocation_id = id + 1;
        Some(id)
    }
}

/// What it takes to put one redeemed allocation back.
struct Undo {
    client: ActorID,
    id: AllocationID,
    allocation: Allocation,
}

/// The contents with one redemption taken back.
spec fn undo_one(s: RegistryState, provider: ActorID, e: Undo) -> RegistryState {
    RegistryState {
        allocations: s.allocations.insert((e.client, e.id), e.allocation),
        claims: s.claims.remove((provider, e.id)),
        next_allocation_id: s.next_allocation_id,
    }
}

/// The contents with all redemptions of `log` taken back, last first.
spec fn rewind(s: RegistryState, provider: ActorID, log: Seq<Undo>) -> RegistryState
    decreases log.len(),
{
    if log.len() == 0 {
        s
    } else {
        rewind(undo_one(s, provider, log.last()), provider, log.drop_last())
    }
}

/// The space of each summary.
pub open spec fn summary_spaces(v: Seq<SectorClaimSummary>) -> Seq<int> {
    Seq::new(v.len(), |i: int| v[i].claimed_space@)
}

/// Whether one of the first `j` requests names allocation `(client, id)`,
/// and whether one names an allocation with this id.
fn named_before(reqs: &Vec<AllocationClaim>, j: usize, client: ActorID, id: AllocationID) -> (r: (
    bool,
    bool,
))
    requires
        j <= reqs@.len(),
    ensures
        r.0 == names_allocation(reqs@, j as int, client, id),
        r.1 == names_id(reqs@, j as int, id),
{
    let mut same_allocation = false;
    let mut same_id = false;
    let mut i: usize = 0;
    while i < j
        invariant
            i <= j <= reqs@.len(),
            same_allocation == names_allocation(reqs@, i as int, client, id),
            same_id == names_id(reqs@, i as int, id),
        decreases j - i,
    {
        let r = &reqs[i];
        if r.allocation_id == id {
            same_id = true;
            if r.client == client {
                same_allocation = true;
            }
        }
        i += 1;
    }
    (same_allocation, same_id)
}

/// Total size of the requests.
fn space_of(reqs: &Vec<AllocationClaim>) -> (r: BigInt)
    ensures
        r@ == requested_space(reqs@, reqs@.len() as int),
{
    let mut total = BigInt::zero();
    let mut i: usize = 0;
    while i < reqs.len()
        invariant
            i <= reqs@.len(),
            total@ == requested_space(reqs@, i as int),
        decreases reqs@.len() - i,
    {
        total = total.add(&BigInt::from_u64(reqs[i].size));
        i += 1;
    }
    total
}

impl Registry {
    /// The code of one claim request against the contents.
    fn claim_code_of(&self, provider: ActorID, req: &AllocationClaim, expiry: ChainEpoch, epoch: ChainEpoch) -> (r:
        ExitCode)
        requires
            self.collections_wf(),
        ensures
            r == claim_code(self@, provider, *req, expiry, epoch),
    {
        match self.allocations.get(req.client, req.allocation_id) {
            None => ExitCode::NotFound,
            Some(a) => {
                let lifetime: i128 = expiry as i128 - epoch as i128;
                if a.provider != provider || epoch > a.expiration {
                    ExitCode::Forbidden
                } else if !cid_eq(&a.data, &req.data) || a.size != req.size || lifetime < a.term_min as i128
                    || lifetime > a.term_max as i128 {
                    ExitCode::IllegalArgument
                } else if self.claims.contains(provider, req.allocation_id) {
                    ExitCode::IllegalArgument
                } else {
                    ExitCode::Success
                }
            },
        }
    }

    /// The code of a sector: that of its first failing request.
    fn sector_code_of(&self, provider: ActorID, group: &SectorAllocationClaims, epoch: ChainEpoch) -> (r:
        ExitCode)
        requires
            self.collections_wf(),
        ensures
            r == sector_result(self@, provider, group@, epoch),
    {
        let mut j: usize = 0;
        while j < group.claims.len()
            invariant
                j <= group.claims@.len(),
                self.collections_wf(),
                sector_code(self@, provider, group@, epoch, j as int) == ExitCode::Success,
            decreases group.claims@.len() - j,
        {
            let req = &group.claims[j];
            let own = self.claim_code_of(provider, req, group.expiry, epoch);
            let code = if !own.is_success() {
                own
            } else {
                let (same_allocation, same_id) = named_before(&group.claims, j, req.client, req.allocation_id);
                if same_allocation {
                    ExitCode::NotFound
                } else if same_id {
                    ExitCode::IllegalArgument
                } else {
                    ExitCode::Success
                }
            };
            assert(code == request_code(self@, provider, group@, j as int, epoch));
            if !code.is_success() {
                proof {
                    assert(sector_code(self@, provider, group@, epoch, j + 1) == code);
                    lemma_sector_code_stays(
                        self@,
                        provider,
                        group@,
                        epoch,
                        j + 1,
                        group.claims@.len() as int,
                    );
                }
                return code;
            }
            j += 1;
        }
        ExitCode::Success
    }

    /// Carries out all requests of a sector that was found to succeed.
    fn apply_sector(
        &mut self,
        provider: ActorID,
        group: &SectorAllocationClaims,
        epoch: ChainEpoch,
        log: &mut Vec<Undo>,
        keep_log: bool,
    )
        requires
            old(self).wf(),
            sector_result(old(self)@, provider, group@, epoch) == ExitCode::Success,
        ensures
            final(self).wf(),
            final(self)@ == apply_requests(old(self)@, provider, group@, epoch, group.claims@.len() as int),
            keep_log ==> rewind(final(self)@, provider, final(log)@) == rewind(
                old(self)@,
                provider,
                old(log)@,
            ),
    {
        let ghost base = self@;
        let ghost n = group.claims@.len() as int;
        proof {
            lemma_sector_code_success(base, provider, group@, epoch, n);
        }
        let mut j: usize = 0;
        while j < group.claims.len()
            invariant
                j <= group.claims@.len(),
                n == group.claims@.len(),
                base == old(self)@,
                ids_below_next(base),
                stored_under_owner(base),
                forall|i: int| 0 <= i < n ==> request_code(base, provider, group@, i, epoch) == ExitCode::Success,
                self.wf(),
                self@ == apply_requests(base, provider, group@, epoch, j as int),
                keep_log ==> rewind(self@, provider, log@) == rewind(base, provider, old(log)@),
            decreases group.claims@.len() - j,
        {
            let req = &group.claims[j];
            let ghost cur = self@;
            let ghost key = (req.client, req.allocation_id);
            proof {
                lemma_apply_requests(base, provider, group@, epoch, j as int);
                assert(request_code(base, provider, group@, j as int, epoch) == ExitCode::Success);
                assert(claim_code(base, provider, *req, group.expiry, epoch) == ExitCode::Success);
                assert(cur.allocations.contains_key(key));
                assert(!cur.claims.contains_key((provider, req.allocation_id)));
            }
            let removed = self.allocations.remove(req.client, req.allocation_id);
            let a = removed.unwrap();
            let claim = Claim {
                provider: a.provider,
                client: a.client,
                data: a.data,
                size: a.size,
                term_min: a.term_min,
                term_max: a.term_max,
                term_start: epoch,
                sector: group.sector,
            };
            self.claims.insert(provider, req.allocation_id, claim);
            proof {
                assert(claim == claim_from(base.allocations[key], epoch, group.sector));
                assert(base.allocations.contains_key(key));
                assert(self@ == apply_requests(base, provider, group@, epoch, j + 1));
            }
            if keep_log {
                let ghost before_log = log@;
                let entry = Undo { client: req.client, id: req.allocation_id, allocation: a };
                log.push(entry);
                proof {
                    assert(log@.drop_last() =~= before_log);
                    assert(log@.last() == entry);
                    let back = undo_one(self@, provider, entry);
                    assert(back.allocations =~= cur.allocations);
                    assert(back.claims =~= cur.claims);
                    assert(back == cur);
                }
            }
            j += 1;
        }
    }

    /// Takes back every redemption of `log`, last first.
    fn undo_all(&mut self, provider: ActorID, log: &Vec<Undo>)
        requires
            old(self).collections_wf(),
        ensures
            final(self).collections_wf(),
            final(self)@ == rewind(old(self)@, provider, log@),
    {
        let mut i: usize = log.len();
        proof {
            assert(log@.subrange(0, log@.len() as int) =~= log@);
        }
        while i > 0
            invariant
                i <= log@.len(),
                self.collections_wf(),
                rewind(self@, provider, log@.subrange(0, i as int)) == rewind(old(self)@, provider, log@),
            decreases i,
        {
            let e = &log[i - 1];
            let ghost prev = self@;
            let _ = self.claims.remove(provider, e.id);
            self.allocations.insert(e.client, e.id, e.allocation);
            proof {
                let sub = log@.subrange(0, i as int);
                assert(sub.last() == *e);
                assert(sub.drop_last() =~= log@.subrange(0, i - 1));
                assert(self@ == undo_one(prev, provider, *e));
            }
            i -= 1;
        }
    }

    /// Redeems allocations for `provider`, sector by sector, at `epoch`.
    ///
    /// Each sector is judged against what the sectors before it left, and
    /// either all its requests are carried out or none. With
    /// `all_or_nothing`, one failing sector fails the whole call and nothing
    /// changes; without it, the sectors are independent. Either way there is
    /// one code for each sector.
    pub fn claim_allocations(
        &mut self,
        provider: ActorID,
        sectors: &Vec<SectorAllocationClaims>,
        all_or_nothing: bool,
        epoch: ChainEpoch,
    ) -> (r: Result<ClaimAllocationsReturn, BatchAborted>)
        requires
            old(self).wf(),
        ensures
            final(self).wf(),
            ({
                let codes = sector_codes(old(self)@, provider, claim_groups(sectors@), epoch, sectors@.len() as int);
                if all_or_nothing && !all_success(codes) {
                    &&& r.is_err()
                    &&& r.unwrap_err().exit_code == ExitCode::IllegalArgument
                    &&& r.unwrap_err().results@ == codes
                    &&& final(self)@ == old(self)@
                } else {
                    &&& r.is_ok()
                    &&& r.unwrap().sector_results@ == codes
                    &&& summary_spaces(r.unwrap().sector_claims@) == claimed_spaces(
                        codes,
                        claim_groups(sectors@),
                        sectors@.len() as int,
                    )
                    &&& final(self)@ == after_sectors(
                        old(self)@,
                        provider,
                        claim_groups(sectors@),
                        epoch,
                        sectors@.len() as int,
                    )
                }
            }),
    {
        let ghost origin = self@;
        let ghost total = sectors@.len() as int;
        let mut results = BatchReturn::empty();
        let mut summaries: Vec<SectorClaimSummary> = Vec::new();
        let mut log: Vec<Undo> = Vec::new();
        let mut i: usize = 0;
        while i < sectors.len()
            invariant
                i <= sectors@.len(),
                total == sectors@.len(),
                origin == old(self)@,
                ids_below_next(origin),
                stored_under_owner(origin),
                self.wf(),
                self@ == after_sectors(origin, provider, claim_groups(sectors@), epoch, i as int),
                results@ == sector_codes(origin, provider, claim_groups(sectors@), epoch, i as int),
                summary_spaces(summaries@) == claimed_spaces(results@, claim_groups(sectors@), i as int),
                all_or_nothing ==> rewind(self@, provider, log@) == origin,
            decreases sectors@.len() - i,
        {
            let group = &sectors[i];
            let code = self.sector_code_of(provider, group, epoch);
            let ghost before_results = results@;
            let ghost before_spaces = summary_spaces(summaries@);
            proof {
                lemma_sector_codes(origin, provider, claim_groups(sectors@), epoch, i as int);
            }
            if code.is_success() {
                self.apply_sector(provider, group, epoch, &mut log, all_or_nothing);
                let space = space_of(&group.claims);
                summaries.push(SectorClaimSummary { claimed_space: space });
                results.push(code);
                proof {
                    assert(summary_spaces(summaries@) =~= before_spaces.push(
                        requested_space(group.claims@, group.claims@.len() as int),
                    ));
                    lemma_claimed_spaces_prefix(before_results, results@, claim_groups(sectors@), i as int);
                }
            } else {
                results.push(code);
                proof {
                    lemma_claimed_spaces_prefix(before_results, results@, claim_groups(sectors@), i as int);
                }
            }
            i += 1;
        }
        if all_or_nothing && !results.all_ok() {
            self.undo_all(provider, &log);
            return Err(BatchAborted { exit_code: ExitCode::IllegalArgument, results });
        }
        Ok(ClaimAllocationsReturn { sector_results: results, sector_claims: summaries })
    }
}

/// The claimed spaces of the first `n` sectors depend on the first `n` codes
/// only.
proof fn lemma_claimed_spaces_prefix(
    a: Seq<ExitCode>,
    b: Seq<ExitCode>,
    groups: Seq<SectorClaims>,
    n: int,
)
    requires
        0 <= n <= a.len(),
        n <= b.len(),
        forall|i: int| 0 <= i < n ==> a[i] == b[i],
    ensures
        claimed_spaces(a, groups, n) == claimed_spaces(b, groups, n),
    decreases n,
{
    if n > 0 {
        lemma_claimed_spaces_prefix(a, b, groups, n - 1);
    }
}

/// Whether a new maximum term for the claim goes beyond the policy's
/// maximum term.
pub(crate) fn term_too_long(c: &Claim, term_max: ChainEpoch, epoch: ChainEpoch, policy: &Policy) -> (r: bool)
    ensures
        r == !(if claim_expired(*c, epoch) {
            c.term_start + term_max - epoch <= policy.maximum_verified_allocation_term
        } else {
            term_max <= policy.maximum_verified_allocation_term
        }),
{
    if c.term_start as i128 + c.term_max as i128 <= epoch as i128 {
        c.term_start as i128 + term_max as i128 - epoch as i128 > policy.maximum_verified_allocation_term as i128
    } else {
        term_max > policy.maximum_verified_allocation_term
    }
}

/// A copy of the numbers.
fn copy_ids(ids: &Vec<u64>) -> (r: Vec<u64>)
    ensures
        r@ == ids@,
{
    let mut out: Vec<u64> = Vec::new();
    let mut i: usize = 0;
    while i < ids.len()
        invariant
            i <= ids@.len(),
            out@ == ids@.subrange(0, i as int),
        decreases ids@.len() - i,
    {
        out.push(ids[i]);
        i += 1;
        assert(out@ =~= ids@.subrange(0, i as int));
    }
    assert(ids@.subrange(0, ids@.len() as int) =~= ids@);
    out
}

impl Registry {
    /// Raises the maximum term of claims on behalf of client `caller`, one
    /// request after the other.
    ///
    /// A request succeeds when the claim exists under the named provider,
    /// belongs to `caller`, and the new maximum term is strictly above the
    /// present one and within the policy's maximum term, counted from the
    /// start of the term while the claim runs, and from `epoch` to the new
    /// end of the term once the claim has run out. A claim that the
    /// provider does not hold is not found, a claim of another client is
    /// forbidden, a term that is not raised or goes too far is an illegal
    /// argument.
    pub fn extend_claim_terms(
        &mut self,
        caller: ActorID,
        terms: &Vec<ClaimTerm>,
        epoch: ChainEpoch,
        policy: &Policy,
    ) -> (r: BatchReturn)
        requires
            old(self).wf(),
        ensures
            final(self).wf(),
            r@ == extension_codes(old(self)@, caller, terms@, epoch, *policy, terms@.len() as int),
            final(self)@ == after_extensions(old(self)@, caller, terms@, epoch, *policy, terms@.len() as int),
    {
        let mut results = BatchReturn::empty();
        let mut i: usize = 0;
        while i < terms.len()
            invariant
                i <= terms@.len(),
                self.wf(),
                results@ == extension_codes(old(self)@, caller, terms@, epoch, *policy, i as int),
                self@ == after_extensions(old(self)@, caller, terms@, epoch, *policy, i as int),
            decreases terms@.len() - i,
        {
            let term = &terms[i];
            let code = match self.claims.get(term.provider, term.claim_id) {
                None => ExitCode::NotFound,
                Some(c) => {
                    if c.client != caller {
                        ExitCode::Forbidden
                    } else if term.term_max <= c.term_max || term_too_long(&c, term.term_max, epoch, policy) {
                        ExitCode::IllegalArgument
                    } else {
                        let extended = Claim {
                            provider: c.provider,
                            client: c.client,
                            data: c.data,
                            size: c.size,
                            term_min: c.term_min,
                            term_max: term.term_max,
                            term_start: c.term_start,
                            sector: c.sector,
                        };
                        proof {
                            assert(self@.claims.contains_key((term.provider, term.claim_id)));
                            lemma_insert_claim_keeps_order(self@, (term.provider, term.claim_id), extended);
                        }
                        self.claims.insert(term.provider, term.claim_id, extended);
                        ExitCode::Success
                    }
                },
            };
            results.push(code);
            i += 1;
        }
        results
    }

    /// Sweeps the given allocations of `client` in order.
    fn sweep_allocations(&mut self, client: ActorID, ids: &Vec<u64>, epoch: ChainEpoch) -> (r: (BatchReturn, BigInt))
        requires
            old(self).wf(),
        ensures
            final(self).wf(),
            r.0@ == allocation_sweep_codes(old(self)@.allocations, client, ids@, epoch, ids@.len() as int),
            r.1@ == allocation_sweep_recovered(old(self)@.allocations, client, ids@, epoch, ids@.len() as int),
            final(self)@ == (RegistryState {
                allocations: after_allocation_sweep(
                    old(self)@.allocations,
                    client,
                    ids@,
                    epoch,
                    ids@.len() as int,
                ),
                ..old(self)@
            }),
    {
        let mut results = BatchReturn::empty();
        let mut recovered = BigInt::zero();
        let mut i: usize = 0;
        while i < ids.len()
            invariant
                i <= ids@.len(),
                self.wf(),
                results@ == allocation_sweep_codes(old(self)@.allocations, client, ids@, epoch, i as int),
                recovered@ == allocation_sweep_recovered(old(self)@.allocations, client, ids@, epoch, i as int),
                self@ == (RegistryState {
                    allocations: after_allocation_sweep(old(self)@.allocations, client, ids@, epoch, i as int),
                    ..old(self)@
                }),
            decreases ids@.len() - i,
        {
            let id = ids[i];
            let code = match self.allocations.get(client, id) {
                None => ExitCode::NotFound,
                Some(a) => {
                    if a.expiration <= epoch {
                        proof {
                            lemma_remove_allocation_keeps_order(self@, (client, id));
                        }
                        let _ = self.allocations.remove(client, id);
                        recovered = recovered.add(&BigInt::from_u64(a.size));
                        ExitCode::Success
                    } else {
                        ExitCode::Forbidden
                    }
                },
            };
            results.push(code);
            i += 1;
        }
        (results, recovered)
    }

    /// Removes expired allocations of `client` at `epoch`.
    ///
    /// With ids given, exactly those are considered, in order; with no ids
    /// given, all allocations of `client` are considered, in ascending
    /// order of id. Each id considered gets its own code: an allocation
    /// that has expired is removed, with success; one that has not is
    /// forbidden; an id with no allocation under `client` is not found. The
    /// data cap recovered is the total size of what was removed.
    pub fn remove_expired_allocations(&mut self, client: ActorID, ids: &Vec<AllocationID>, epoch: ChainEpoch) -> (r:
        RemoveExpiredAllocationsReturn)
        requires
            old(self).wf(),
        ensures
            final(self).wf(),
            ids@.len() > 0 ==> r.considered@ == ids@,
            ids@.len() == 0 ==> {
                &&& strictly_ascending(r.considered@)
                &&& ids_under(r.considered@, old(self)@.allocations, client)
                &&& forall|i: int|
                    0 <= i < r.considered@.len() ==> #[trigger] r.results@[i] == sweep_allocation_code(
                        old(self)@.allocations,
                        client,
                        r.considered@[i],
                        epoch,
                    )
                &&& forall|k: (u64, u64)| #[trigger]
                    final(self)@.allocations.contains_key(k) <==> (old(self)@.allocations.contains_key(k) && !(k.0
                        == client && allocation_expired(old(self)@.allocations[k], epoch)))
                &&& forall|k: (u64, u64)| #[trigger]
                    final(self)@.allocations.contains_key(k) ==> final(self)@.allocations[k] == old(
                        self,
                    )@.allocations[k]
            },
            r.results@ == allocation_sweep_codes(
                old(self)@.allocations,
                client,
                r.considered@,
                epoch,
                r.considered@.len() as int,
            ),
            r.datacap_recovered@ == allocation_sweep_recovered(
                old(self)@.allocations,
                client,
                r.considered@,
                epoch,
                r.considered@.len() as int,
            ),
            final(self)@ == (RegistryState {
                allocations: after_allocation_sweep(
                    old(self)@.allocations,
                    client,
                    r.considered@,
                    epoch,
                    r.considered@.len() as int,
                ),
                ..old(self)@
            }),
    {
        let considered = if ids.len() == 0 {
            self.allocations.ids_of(client)
        } else {
            copy_ids(ids)
        };
        proof {
            if ids@.len() == 0 {
                let c = considered@;
                assert forall|i: int| 0 <= i < c.len() implies self@.allocations.contains_key(
                    (client, #[trigger] c[i]),
                ) by {
                    assert(c.contains(c[i]));
                }
                lemma_allocation_sweep_distinct(self@.allocations, client, c, epoch, c.len() as int);
                assert(c.subrange(0, c.len() as int) =~= c);
            }
        }
        let (results, recovered) = self.sweep_allocations(client, &considered, epoch);
        RemoveExpiredAllocationsReturn { considered, results, datacap_recovered: recovered }
    }

    /// Sweeps the given claims of `provider` in order.
    fn sweep_claims(&mut self, provider: ActorID, ids: &Vec<u64>, epoch: ChainEpoch) -> (r: BatchReturn)
        requires
            old(self).wf(),
        ensures
            final(self).wf(),
            r@ == claim_sweep_codes(old(self)@.claims, provider, ids@, epoch, ids@.len() as int),
            final(self)@ == (RegistryState {
                claims: after_claim_sweep(old(self)@.claims, provider, ids@, epoch, ids@.len() as int),
                ..old(self)@
            }),
    {
        let mut results = BatchReturn::empty();
        let mut i: usize = 0;
        while i < ids.len()
            invariant
                i <= ids@.len(),
                self.wf(),
                results@ == claim_sweep_codes(old(self)@.claims, provider, ids@, epoch, i as int),
                self@ == (RegistryState {
                    claims: after_claim_sweep(old(self)@.claims, provider, ids@, epoch, i as int),
                    ..old(self)@
                }),
            decreases ids@.len() - i,
        {
            let id = ids[i];
            let code = match self.claims.get(provider, id) {
                None => ExitCode::NotFound,
                Some(c) => {
                    if c.term_start as i128 + c.term_max as i128 <= epoch as i128 {
                        proof {
                            lemma_remove_claim_keeps_order(self@, (provider, id));
                        }
                        let _ = self.claims.remove(provider, id);
                        ExitCode::Success
                    } else {
                        ExitCode::Forbidden
                    }
                },
            };
            results.push(code);
            i += 1;
        }
        results
    }

    /// Removes claims of `provider` whose term has run out at `epoch`.
    ///
    /// With ids given, exactly those are considered, in order; with no ids
    /// given, all claims of `provider` are considered, in ascending order
    /// of id. Each id considered gets its own code: a claim whose term has
    /// run out is removed, with success; one whose term has not is
    /// forbidden; an id with no claim under `provider` is not found.
    pub fn remove_expired_claims(&mut self, provider: ActorID, ids: &Vec<ClaimID>, epoch: ChainEpoch) -> (r:
        RemoveExpiredClaimsReturn)
        requires
            old(self).wf(),
        ensures
            final(self).wf(),
            ids@.len() > 0 ==> r.considered@ == ids@,
            ids@.len() == 0 ==> {
                &&& strictly_ascending(r.considered@)
                &&& ids_under(r.considered@, old(self)@.claims, provider)
                &&& forall|i: int|
                    0 <= i < r.considered@.len() ==> #[trigger] r.results@[i] == sweep_claim_code(
                        old(self)@.claims,
                        provider,
                        r.considered@[i],
                        epoch,
                    )
                &&& forall|k: (u64, u64)| #[trigger]
                    final(self)@.claims.contains_key(k) <==> (old(self)@.claims.contains_key(k) && !(k.0
                        == provider && claim_expired(old(self)@.claims[k], epoch)))
                &&& forall|k: (u64, u64)| #[trigger]
                    final(self)@.claims.contains_key(k) ==> final(self)@.claims[k] == old(self)@.claims[k]
            },
            r.results@ == claim_sweep_codes(
                old(self)@.claims,
                provider,
                r.considered@,
                epoch,
                r.considered@.len() as int,
            ),
            final(self)@ == (RegistryState {
                claims: after_claim_sweep(
                    old(self)@.claims,
                    provider,
                    r.considered@,
                    epoch,
                    r.considered@.len() as int,
                ),
                ..old(self)@
            }),
    {
        let considered = if ids.len() == 0 {
            self.claims.ids_of(provider)
        } else {
            copy_ids(ids)
        };
        proof {
            if ids@.len() == 0 {
                let c = considered@;
                assert forall|i: int| 0 <= i < c.len() implies self@.claims.contains_key(
                    (provider, #[trigger] c[i]),
                ) by {
                    assert(c.contains(c[i]));
                }
                lemma_claim_sweep_distinct(self@.claims, provider, c, epoch, c.len() as int);
                assert(c.subrange(0, c.len() as int) =~= c);
            }
        }
        let results = self.sweep_claims(provider, &considered, epoch);
        RemoveExpiredClaimsReturn { considered, results }
    }

    /// Fetches claims of `provider` by id. Each id gets its own code:
    /// success when a claim with that id stands under `provider`, not found
    /// otherwise, also when such a claim stands under another provider. The
    /// claims found come back in the order of the request. The registry is
    /// not changed.
    pub fn get_claims(&self, provider: ActorID, ids: &Vec<ClaimID>) -> (r: GetClaimsReturn)
        requires
            self.wf(),
        ensures
            r.batch_info@ == Seq::new(ids@.len(), |i: int| get_claim_code(self@.claims, provider, ids@[i])),
            r.claims@ == claims_found(self@.claims, provider, ids@, ids@.len() as int),
    {
        let mut results = BatchReturn::empty();
        let mut found: Vec<Claim> = Vec::new();
        let mut i: usize = 0;
        while i < ids.len()
            invariant
                i <= ids@.len(),
                self.wf(),
                results@ == Seq::new(i as nat, |k: int| get_claim_code(self@.claims, provider, ids@[k])),
                found@ == claims_found(self@.claims, provider, ids@, i as int),
            decreases ids@.len() - i,
        {
            let ghost before = results@;
            match self.claims.get(provider, ids[i]) {
                Some(c) => {
                    found.push(c);
                    results.push(ExitCode::Success);
                },
                None => {
                    results.push(ExitCode::NotFound);
                },
            }
            i += 1;
            assert(results@ =~= Seq::new(i as nat, |k: int| get_claim_code(self@.claims, provider, ids@[k])));
        }
        GetClaimsReturn { batch_info: results, claims: found }
    }
}

} // verus!
