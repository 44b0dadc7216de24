//! The data-cap receiver hook: a transfer of data cap to the registry that
//! pays for new allocations and carries extensions of claims, all or
//! nothing.

use crate::bigint::{floor_div, BigInt};
use crate::econ::{precision, TokenAmount};
use crate::exit::{BatchReturn, ExitCode};
use crate::policy::Policy;
use crate::registry::rules::{
    after_extension, after_extensions, allocation_from, extension_allowed, extension_code,
    with_allocations, RegistryState,
};
use crate::registry::state::{term_too_long, Registry};
use crate::registry::types::{
    Allocation, AllocationRequest, Claim, ClaimExtensionRequest, ClaimTerm,
};
use crate::types::{ActorID, AllocationID, ChainEpoch, ClaimID};
use vstd::prelude::*;

verus! {

/// The actor id of the registry itself.
pub const VERIFIED_REGISTRY_ACTOR_ID: ActorID = 6;

/// The actor id of the data-cap token actor, the only caller of the hook.
pub const DATACAP_TOKEN_ACTOR_ID: ActorID = 7;

/// A transfer of data cap as the hook receives it.
#[derive(Debug)]
pub struct TokensReceived {
    /// The actor whose data cap is spent: the client of the new allocations.
    pub from: ActorID,
    /// The actor the data cap was sent to.
    pub to: ActorID,
    /// The amount, in token units; one whole token pays for one byte.
    pub amount: TokenAmount,
    /// The allocations asked for.
    pub allocations: Vec<AllocationRequest>,
    /// The claim extensions asked for.
    pub extensions: Vec<ClaimExtensionRequest>,
}

/// What the hook gives back when the whole transfer was accepted.
#[derive(Debug)]
pub struct AllocationsResponse {
    /// One success per allocation request.
    pub allocation_results: BatchReturn,
    /// One success per extension request.
    pub extension_results: BatchReturn,
    /// The ids of the new allocations, in the order of the requests.
    pub new_allocations: Vec<AllocationID>,
}

/// Why the hook turned a transfer down. Nothing persists in any of these
/// cases.
#[derive(Clone, Copy, Debug, PartialEq, Eq, Structural)]
pub enum ReceiveError {
    /// The caller is not the data-cap token actor.
    WrongCaller { caller: ActorID },
    /// The transfer is not addressed to the registry.
    WrongReceiver { to: ActorID },
    /// Allocation request `index` is smaller than the policy allows.
    AllocationTooSmall { index: usize, size: u64, minimum: u64 },
    /// The minimum term of request `index` is below the policy's limit.
    TermMinBelowLimit { index: usize, term_min: ChainEpoch, limit: ChainEpoch },
    /// The maximum term of request `index` is above the policy's limit.
    TermMaxAboveLimit { index: usize, term_max: ChainEpoch, limit: ChainEpoch },
    /// The minimum term of request `index` is above its maximum term.
    TermMinAboveMax { index: usize, term_min: ChainEpoch, term_max: ChainEpoch },
    /// Request `index` expires later than the policy allows.
    ExpirationTooLate { index: usize, expiration: ChainEpoch },
    /// Extension request `index` names a claim that its provider does not
    /// hold.
    ClaimNotFound { index: usize, provider: ActorID, claim: ClaimID },
    /// Extension request `index` names a claim of another client.
    NotClaimOwner { index: usize, client: ActorID },
    /// Extension request `index` does not raise the claim's maximum term.
    TermNotLarger { index: usize, term_max: ChainEpoch, existing: ChainEpoch },
    /// Extension request `index` ends later than the policy allows.
    ExtensionTooLong { index: usize, term_max: ChainEpoch },
    /// The data cap received is not the total size of the allocations asked
    /// for.
    AmountMismatch,
    /// The registry has no ids left for the new allocations.
    IdsExhausted,
}

impl ReceiveError {
    /// The exit code that the error stands for.
    pub open spec fn spec_exit_code(self) -> ExitCode {
        match self {
            ReceiveError::WrongCaller { .. } => ExitCode::Forbidden,
            ReceiveError::NotClaimOwner { .. } => ExitCode::Forbidden,
            ReceiveError::ClaimNotFound { .. } => ExitCode::NotFound,
            ReceiveError::IdsExhausted => ExitCode::IllegalState,
            _ => ExitCode::IllegalArgument,
        }
    }

    /// The exit code that the error stands for.
    pub fn exit_code(&self) -> (r: ExitCode)
        ensures
            r == self.spec_exit_code(),
    {
        match self {
            ReceiveError::WrongCaller { .. } => ExitCode::Forbidden,
            ReceiveError::NotClaimOwner { .. } => ExitCode::Forbidden,
            ReceiveError::ClaimNotFound { .. } => ExitCode::NotFound,
            ReceiveError::IdsExhausted => ExitCode::IllegalState,
            _ => ExitCode::IllegalArgument,
        }
    }
}

/// What is wrong with allocation request `index`, if anything: in this
/// order, its size, its minimum term, its maximum term, the two terms
/// against each other, its expiration.
pub open spec fn request_error(req: AllocationRequest, index: usize, policy: Policy, epoch: ChainEpoch) -> Option<
    ReceiveError,
> {
    if req.size < policy.minimum_verified_allocation_size {
        Some(
            ReceiveError::AllocationTooSmall {
                index,
                size: req.size,
                minimum: policy.minimum_verified_allocation_size,
            },
        )
    } else if req.term_min < policy.minimum_verified_allocation_term {
        Some(
            ReceiveError::TermMinBelowLimit {
                index,
                term_min: req.term_min,
                limit: policy.minimum_verified_allocation_term,
            },
        )
    } else if req.term_max > policy.maximum_verified_allocation_term {
        Some(
            ReceiveError::TermMaxAboveLimit {
                index,
                term_max: req.term_max,
                limit: policy.maximum_verified_allocation_term,
            },
        )
    } else if req.term_min > req.term_max {
        Some(ReceiveError::TermMinAboveMax { index, term_min: req.term_min, term_max: req.term_max })
    } else if req.expiration > epoch + policy.maximum_verified_allocation_expiration {
        Some(ReceiveError::ExpirationTooLate { index, expiration: req.expiration })
    } else {
        None
    }
}

/// The error of the first of the first `n` allocation requests that has
/// one.
pub open spec fn requests_error(reqs: Seq<AllocationRequest>, policy: Policy, epoch: ChainEpoch, n: int) -> Option<
    ReceiveError,
>
    decreases n,
{
    if n <= 0 {
        None
    } else {
        let before = requests_error(reqs, policy, epoch, n - 1);
        if before.is_some() {
            before
        } else {
            request_error(reqs[n - 1], (n - 1) as usize, policy, epoch)
        }
    }
}

/// The request as a term of an extension.
pub open spec fn extension_term(ext: ClaimExtensionRequest) -> ClaimTerm {
    ClaimTerm { provider: ext.provider, claim_id: ext.claim, term_max: ext.term_max }
}

/// The requests as terms of an extension, in order.
pub open spec fn extension_terms(exts: Seq<ClaimExtensionRequest>) -> Seq<ClaimTerm> {
    Seq::new(exts.len(), |i: int| extension_term(exts[i]))
}

/// What is wrong with extension request `index` of client `from` against
/// the claims as they stand, if anything: its provider holds no such claim;
/// the claim is another client's; the term is not raised; the term ends too
/// late.
pub open spec fn extension_error(
    claims: Map<(u64, u64), Claim>,
    from: ActorID,
    ext: ClaimExtensionRequest,
    index: usize,
    policy: Policy,
    epoch: ChainEpoch,
) -> Option<ReceiveError> {
    let key = (ext.provider, ext.claim);
    if !claims.contains_key(key) {
        Some(ReceiveError::ClaimNotFound { index, provider: ext.provider, claim: ext.claim })
    } else if claims[key].client != from {
        Some(ReceiveError::NotClaimOwner { index, client: claims[key].client })
    } else if ext.term_max <= claims[key].term_max {
        Some(ReceiveError::TermNotLarger { index, term_max: ext.term_max, existing: claims[key].term_max })
    } else if !extension_allowed(claims[key], ext.term_max, epoch, policy) {
        Some(ReceiveError::ExtensionTooLong { index, term_max: ext.term_max })
    } else {
        None
    }
}

/// The error of the first of the first `n` extension requests that has
/// one, each judged against the claims as the requests before it left
/// them.
pub open spec fn extensions_error(
    s: RegistryState,
    from: ActorID,
    exts: Seq<ClaimExtensionRequest>,
    policy: Policy,
    epoch: ChainEpoch,
    n: int,
) -> Option<ReceiveError>
    decreases n,
{
    if n <= 0 {
        None
    } else {
        let before = extensions_error(s, from, exts, policy, epoch, n - 1);
        if before.is_some() {
            before
        } else {
            extension_error(
                after_extensions(s, from, extension_terms(exts), epoch, policy, n - 1).claims,
                from,
                exts[n - 1],
                (n - 1) as usize,
                policy,
                epoch,
            )
        }
    }
}

/// Total size of the first `n` allocation requests.
pub open spec fn requests_size(reqs: Seq<AllocationRequest>, n: int) -> int
    decreases n,
{
    if n <= 0 {
        0
    } else {
        requests_size(reqs, n - 1) + reqs[n - 1].size
    }
}

/// The allocations that the requests of `client` made at `epoch` ask for.
pub open spec fn requested_allocations(client: ActorID, reqs: Seq<AllocationRequest>, epoch: ChainEpoch) -> Seq<
    Allocation,
> {
    Seq::new(reqs.len(), |i: int| allocation_from(client, reqs[i], epoch))
}

/// Why the hook turns the transfer down, if it does: the first of wrong
/// caller, wrong receiver, a bad allocation request, a bad extension
/// request, an amount whose whole tokens are not the total size of the
/// allocations asked for, and too few ids left.
pub open spec fn receive_error(
    s: RegistryState,
    caller: ActorID,
    params: TokensReceived,
    policy: Policy,
    epoch: ChainEpoch,
) -> Option<ReceiveError> {
    let reqs = params.allocations@;
    let exts = params.extensions@;
    if caller != DATACAP_TOKEN_ACTOR_ID {
        Some(ReceiveError::WrongCaller { caller })
    } else if params.to != VERIFIED_REGISTRY_ACTOR_ID {
        Some(ReceiveError::WrongReceiver { to: params.to })
    } else if requests_error(reqs, policy, epoch, reqs.len() as int).is_some() {
        requests_error(reqs, policy, epoch, reqs.len() as int)
    } else if extensions_error(s, params.from, exts, policy, epoch, exts.len() as int).is_some() {
        extensions_error(s, params.from, exts, policy, epoch, exts.len() as int)
    } else if requests_size(reqs, reqs.len() as int) != floor_div(params.amount@, precision()) {
        Some(ReceiveError::AmountMismatch)
    } else if s.next_allocation_id + reqs.len() > u64::MAX {
        Some(ReceiveError::IdsExhausted)
    } else {
        None
    }
}

/// The contents after an accepted transfer: every allocation request
/// stored for the sender under consecutive new ids, and every extension
/// carried out on the sender's behalf, in order.
pub open spec fn after_receive(
    s: RegistryState,
    params: TokensReceived,
    policy: Policy,
    epoch: ChainEpoch,
) -> RegistryState {
    let reqs = params.allocations@;
    let exts = params.extensions@;
    RegistryState {
        allocations: with_allocations(
            s.allocations,
            params.from,
            requested_allocations(params.from, reqs, epoch),
            s.next_allocation_id,
            reqs.len() as int,
        ),
        claims: after_extensions(s, params.from, extension_terms(exts), epoch, policy, exts.len() as int).claims,
        next_allocation_id: (s.next_allocation_id + reqs.len()) as u64,
    }
}

/// Once a request has an error, that error stays the first.
proof fn lemma_requests_error_stays(
    reqs: Seq<AllocationRequest>,
    policy: Policy,
    epoch: ChainEpoch,
    m: int,
    n: int,
)
    requires
        0 <= m <= n,
        requests_error(reqs, policy, epoch, m).is_some(),
    ensures
        requests_error(reqs, policy, epoch, n) == requests_error(reqs, policy, epoch, m),
    decreases n - m,
{
    if m < n {
        lemma_requests_error_stays(reqs, policy, epoch, m, n - 1);
    }
}

/// Once an extension has an error, that error stays the first.
proof fn lemma_extensions_error_stays(
    s: RegistryState,
    from: ActorID,
    exts: Seq<ClaimExtensionRequest>,
    policy: Policy,
    epoch: ChainEpoch,
    m: int,
    n: int,
)
    requires
        0 <= m <= n,
        extensions_error(s, from, exts, policy, epoch, m).is_some(),
    ensures
        extensions_error(s, from, exts, policy, epoch, n) == extensions_error(s, from, exts, policy, epoch, m),
    decreases n - m,
{
    if m < n {
        lemma_extensions_error_stays(s, from, exts, policy, epoch, m, n - 1);
    }
}

/// Extensions change nothing but maximum terms: the same claims stand
/// under the same keys, with the same size, client and provider, and the
/// allocations and the next id are untouched.
pub proof fn lemma_extensions_keep(
    s: RegistryState,
    caller: ActorID,
    terms: Seq<ClaimTerm>,
    epoch: ChainEpoch,
    policy: Policy,
    n: int,
)
    requires
        0 <= n,
    ensures
        ({
            let a = after_extensions(s, caller, terms, epoch, policy, n);
            &&& a.allocations == s.allocations
            &&& a.next_allocation_id == s.next_allocation_id
            &&& forall|k: (u64, u64)| #[trigger] a.claims.contains_key(k) == s.claims.contains_key(k)
            &&& forall|k: (u64, u64)|
                s.claims.contains_key(k) ==> (#[trigger] a.claims[k]).size == s.claims[k].size && a.claims[k].client
                    == s.claims[k].client && a.claims[k].provider == s.claims[k].provider
        }),
    decreases n,
{
    if n > 0 {
        lemma_extensions_keep(s, caller, terms, epoch, policy, n - 1);
    }
}

/// What it takes to put the maximum term of one claim back.
struct TermUndo {
    provider: ActorID,
    id: ClaimID,
    claim: Claim,
}

/// The contents with one extension taken back.
spec fn undo_term(s: RegistryState, e: TermUndo) -> RegistryState {
    RegistryState { claims: s.claims.insert((e.provider, e.id), e.claim), ..s }
}

/// The contents with all extensions of `log` taken back, last first.
spec fn rewind_terms(s: RegistryState, log: Seq<TermUndo>) -> RegistryState
    decreases log.len(),
{
    if log.len() == 0 {
        s
    } else {
        rewind_terms(undo_term(s, log.last()), log.drop_last())
    }
}

/// Every entry of the log puts back a claim of its own provider under an
/// id in use.
spec fn log_fits(log: Seq<TermUndo>, next_id: u64) -> bool {
    forall|i: int| 0 <= i < log.len() ==> (#[trigger] log[i]).id < next_id && log[i].claim.provider == log[i].provider
}

/// Taking extensions back leaves the next id as it is.
proof fn lemma_rewind_keeps_next(s: RegistryState, log: Seq<TermUndo>)
    ensures
        rewind_terms(s, log).next_allocation_id == s.next_allocation_id,
    decreases log.len(),
{
    if log.len() > 0 {
        lemma_rewind_keeps_next(undo_term(s, log.last()), log.drop_last());
    }
}

/// The first error among the allocation requests.
fn check_requests(reqs: &Vec<AllocationRequest>, policy: &Policy, epoch: ChainEpoch) -> (r: Option<ReceiveError>)
    ensures
        r == requests_error(reqs@, *policy, epoch, reqs@.len() as int),
{
    let mut i: usize = 0;
    while i < reqs.len()
        invariant
            i <= reqs@.len(),
            requests_error(reqs@, *policy, epoch, i as int).is_none(),
        decreases reqs@.len() - i,
    {
        let req = &reqs[i];
        let e = if req.size < policy.minimum_verified_allocation_size {
            Some(
                ReceiveError::AllocationTooSmall {
                    index: i,
                    size: req.size,
                    minimum: policy.minimum_verified_allocation_size,
                },
            )
        } else if req.term_min < policy.minimum_verified_allocation_term {
            Some(
                ReceiveError::TermMinBelowLimit {
                    index: i,
                    term_min: req.term_min,
                    limit: policy.minimum_verified_allocation_term,
                },
            )
        } else if req.term_max > policy.maximum_verified_allocation_term {
            Some(
                ReceiveError::TermMaxAboveLimit {
                    index: i,
                    term_max: req.term_max,
                    limit: policy.maximum_verified_allocation_term,
                },
            )
        } else if req.term_min > req.term_max {
            Some(ReceiveError::TermMinAboveMax { index: i, term_min: req.term_min, term_max: req.term_max })
        } else if req.expiration as i128 > epoch as i128 + policy.maximum_verified_allocation_expiration as i128 {
            Some(ReceiveError::ExpirationTooLate { index: i, expiration: req.expiration })
        } else {
            None
        };
        assert(e == request_error(*req, i, *policy, epoch));
        if e.is_some() {
            proof {
                lemma_requests_error_stays(reqs@, *policy, epoch, i + 1, reqs@.len() as int);
            }
            return e;
        }
        i += 1;
    }
    None
}

/// Total size of the allocation requests.
fn size_of_requests(reqs: &Vec<AllocationRequest>) -> (r: BigInt)
    ensures
        r@ == requests_size(reqs@, reqs@.len() as int),
{
    let mut total = BigInt::zero();
    let mut i: usize = 0;
    while i < reqs.len()
        invariant
            i <= reqs@.len(),
            total@ == requests_size(reqs@, i as int),
        decreases reqs@.len() - i,
    {
        total = total.add(&BigInt::from_u64(reqs[i].size));
        i += 1;
    }
    total
}

impl Registry {
    /// Takes back every extension of `log`, last first.
    fn undo_extensions(&mut self, log: &Vec<TermUndo>)
        requires
            old(self).wf(),
            log_fits(log@, old(self)@.next_allocation_id),
        ensures
            final(self).wf(),
            final(self)@ == rewind_terms(old(self)@, log@),
    {
        let mut i: usize = log.len();
        proof {
            assert(log@.subrange(0, log@.len() as int) =~= log@);
        }
        while i > 0
            invariant
                i <= log@.len(),
                self.wf(),
                self@.next_allocation_id == old(self)@.next_allocation_id,
                log_fits(log@, old(self)@.next_allocation_id),
                rewind_terms(self@, log@.subrange(0, i as int)) == rewind_terms(old(self)@, log@),
            decreases i,
        {
            let e = &log[i - 1];
            let ghost prev = self@;
            self.put_claim(e.provider, e.id, e.claim);
            proof {
                let sub = log@.subrange(0, i as int);
                assert(sub.last() == *e);
                assert(sub.drop_last() =~= log@.subrange(0, i - 1));
                assert(self@ == undo_term(prev, *e));
            }
            i -= 1;
        }
    }

    /// Carries out the extension requests of client `from` in order, or
    /// none: the first request with an error stops the run and undoes what
    /// was done. On success what it takes to undo the extensions comes
    /// back.
    fn apply_extensions(
        &mut self,
        from: ActorID,
        exts: &Vec<ClaimExtensionRequest>,
        policy: &Policy,
        epoch: ChainEpoch,
    ) -> (r: Result<Vec<TermUndo>, ReceiveError>)
        requires
            old(self).wf(),
        ensures
            final(self).wf(),
            match r {
                Ok(log) => {
                    &&& extensions_error(old(self)@, from, exts@, *policy, epoch, exts@.len() as int).is_none()
                    &&& final(self)@ == after_extensions(
                        old(self)@,
                        from,
                        extension_terms(exts@),
                        epoch,
                        *policy,
                        exts@.len() as int,
                    )
                    &&& rewind_terms(final(self)@, log@) == old(self)@
                    &&& log_fits(log@, old(self)@.next_allocation_id)
                },
                Err(e) => {
                    &&& extensions_error(old(self)@, from, exts@, *policy, epoch, exts@.len() as int) == Some(e)
                    &&& final(self)@ == old(self)@
                },
            },
    {
        let ghost origin = self@;
        let ghost terms = extension_terms(exts@);
        let mut log: Vec<TermUndo> = Vec::new();
        let mut i: usize = 0;
        while i < exts.len()
            invariant
                i <= exts@.len(),
                origin == old(self)@,
                terms == extension_terms(exts@),
                self.wf(),
                self@ == after_extensions(origin, from, terms, epoch, *policy, i as int),
                extensions_error(origin, from, exts@, *policy, epoch, i as int).is_none(),
                rewind_terms(self@, log@) == origin,
                log_fits(log@, origin.next_allocation_id),
            decreases exts@.len() - i,
        {
            let ext = &exts[i];
            let ghost cur = self@;
            let ghost key = (ext.provider, ext.claim);
            proof {
                lemma_extensions_keep(origin, from, terms, epoch, *policy, i as int);
                assert(terms[i as int] == extension_term(*ext));
            }
            let found = self.get_claim(ext.provider, ext.claim);
            let failure = match found {
                None => Some(ReceiveError::ClaimNotFound { index: i, provider: ext.provider, claim: ext.claim }),
                Some(c) => {
                    if c.client != from {
                        Some(ReceiveError::NotClaimOwner { index: i, client: c.client })
                    } else if ext.term_max <= c.term_max {
                        Some(ReceiveError::TermNotLarger { index: i, term_max: ext.term_max, existing: c.term_max })
                    } else if term_too_long(&c, ext.term_max, epoch, policy) {
                        Some(ReceiveError::ExtensionTooLong { index: i, term_max: ext.term_max })
                    } else {
                        None
                    }
                },
            };
            assert(failure == extension_error(cur.claims, from, *ext, i, *policy, epoch));
            match failure {
                Some(e) => {
                    proof {
                        assert(extensions_error(origin, from, exts@, *policy, epoch, i + 1) == Some(e));
                        lemma_extensions_error_stays(origin, from, exts@, *policy, epoch, i + 1, exts@.len() as int);
                        lemma_rewind_keeps_next(self@, log@);
                    }
                    self.undo_extensions(&log);
                    return Err(e);
                },
                None => {},
            }
            let c = found.unwrap();
            proof {
                assert(cur.claims.contains_key(key));
                assert(origin.claims.contains_key(key));
                assert(extension_code(cur, from, terms[i as int], epoch, *policy) == ExitCode::Success);
                assert(key.1 < cur.next_allocation_id);
                assert(c.provider == key.0);
            }
            let extended = Claim {
                provider: c.provider,
                client: c.client,
                data: c.data,
                size: c.size,
                term_min: c.term_min,
                term_max: ext.term_max,
                term_start: c.term_start,
                sector: c.sector,
            };
            self.put_claim(ext.provider, ext.claim, extended);
            let ghost before_log = log@;
            let entry = TermUndo { provider: ext.provider, id: ext.claim, claim: c };
            log.push(entry);
            proof {
                assert(self@ == after_extension(cur, from, terms[i as int], epoch, *policy));
                assert(log@.drop_last() =~= before_log);
                assert(log@.last() == entry);
                let back = undo_term(self@, entry);
                assert(back.claims =~= cur.claims);
                assert(back == cur);
            }
            i += 1;
        }
        Ok(log)
    }

    /// Receives a transfer of data cap made by `caller` at `epoch`.
    ///
    /// The transfer is accepted as a whole or not at all. It is turned down
    /// when the caller is not the data-cap token actor, when it is not
    /// addressed to the registry, when an allocation request breaks the
    /// policy's bounds, when an extension request names no claim or a claim
    /// of another client or asks for a term that is not longer or is too
    /// long, when the whole tokens received are not the total size of the
    /// allocations asked for, or when the ids run out. When it is accepted, each allocation request becomes an
    /// allocation of the sender under the next ids in order, and each
    /// extension request sets the maximum term of its claim.
    pub fn receive_tokens(
        &mut self,
        caller: ActorID,
        params: &TokensReceived,
        policy: &Policy,
        epoch: ChainEpoch,
    ) -> (r: Result<AllocationsResponse, ReceiveError>)
        requires
            old(self).wf(),
        ensures
            final(self).wf(),
            match r {
                Ok(resp) => {
                    &&& receive_error(old(self)@, caller, *params, *policy, epoch).is_none()
                    &&& final(self)@ == after_receive(old(self)@, *params, *policy, epoch)
                    &&& resp.allocation_results@ == Seq::new(params.allocations@.len(), |i: int| ExitCode::Success)
                    &&& resp.extension_results@ == Seq::new(params.extensions@.len(), |i: int| ExitCode::Success)
                    &&& resp.new_allocations@ == Seq::new(
                        params.allocations@.len(),
                        |i: int| (old(self)@.next_allocation_id + i) as u64,
                    )
                },
                Err(e) => {
                    &&& receive_error(old(self)@, caller, *params, *policy, epoch) == Some(e)
                    &&& final(self)@ == old(self)@
                },
            },
    {
        if caller != DATACAP_TOKEN_ACTOR_ID {
            return Err(ReceiveError::WrongCaller { caller });
        }
        if params.to != VERIFIED_REGISTRY_ACTOR_ID {
            return Err(ReceiveError::WrongReceiver { to: params.to });
        }
        match check_requests(&params.allocations, policy, epoch) {
            Some(e) => {
                return Err(e);
            },
            None => {},
        }
        let ghost origin = self@;
        let log = match self.apply_extensions(params.from, &params.extensions, policy, epoch) {
            Err(e) => {
                return Err(e);
            },
            Ok(done) => done,
        };
        proof {
            lemma_extensions_keep(
                origin,
                params.from,
                extension_terms(params.extensions@),
                epoch,
                *policy,
                params.extensions@.len() as int,
            );
        }
        let asked = size_of_requests(&params.allocations);
        if !asked.equals(&params.amount.whole()) {
            self.undo_extensions(&log);
            return Err(ReceiveError::AmountMismatch);
        }
        let first = self.next_allocation_id();
        if params.allocations.len() as u128 + first as u128 > u64::MAX as u128 {
            self.undo_extensions(&log);
            return Err(ReceiveError::IdsExhausted);
        }
        let ghost filled = self@;
        let ghost wanted = requested_allocations(params.from, params.allocations@, epoch);
        let mut ids: Vec<AllocationID> = Vec::new();
        let mut i: usize = 0;
        while i < params.allocations.len()
            invariant
                i <= params.allocations@.len(),
                first == filled.next_allocation_id,
                first + params.allocations@.len() <= u64::MAX,
                wanted == requested_allocations(params.from, params.allocations@, epoch),
                self.wf(),
                self@ == (RegistryState {
                    allocations: with_allocations(filled.allocations, params.from, wanted, first, i as int),
                    next_allocation_id: (first + i) as u64,
                    ..filled
                }),
                ids@ == Seq::new(i as nat, |k: int| (first + k) as u64),
            decreases params.allocations@.len() - i,
        {
            let req = &params.allocations[i];
            let alloc = Allocation {
                client: params.from,
                provider: req.provider,
                data: req.data,
                size: req.size,
                term_min: req.term_min,
                term_max: req.term_max,
                expiration: req.expiration,
                created_at: epoch,
            };
            assert(alloc == wanted[i as int]);
            let id = self.create_allocation(alloc).unwrap();
            ids.push(id);
            i += 1;
            assert(ids@ =~= Seq::new(i as nat, |k: int| (first + k) as u64));
        }
        Ok(
            AllocationsResponse {
                allocation_results: BatchReturn::ok(params.allocations.len()),
                extension_results: BatchReturn::ok(params.extensions.len()),
                new_allocations: ids,
            },
        )
    }
}

} // verus!
