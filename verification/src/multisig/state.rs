//! The multisig state and its rules.

use crate::bigint::{ceil_div, copy_bytes, BigInt};
use crate::econ::TokenAmount;
use crate::exit::{ActorError, ExitCode};
use crate::multisig::index::{
    distinct_keys, has_key, index_entries, index_insert, index_list, index_new, lemma_inserted,
};
use crate::owner_map::OwnerMap;
use crate::types::{address_eq, ChainEpoch, MethodNum, TxnID};
use fvm_shared::address::Address;
use vstd::prelude::*;

verus! {

/// A proposed transaction with the signers that approved it so far.
#[derive(Debug)]
pub struct Transaction {
    pub to: Address,
    pub value: TokenAmount,
    pub method: MethodNum,
    pub params: Vec<u8>,
    pub approved: Vec<Address>,
}

/// A transaction with its amount as a number and its lists as sequences.
pub struct TransactionView {
    pub to: Address,
    pub value: int,
    pub method: MethodNum,
    pub params: Seq<u8>,
    pub approved: Seq<Address>,
}

impl View for Transaction {
    type V = TransactionView;

    open spec fn view(&self) -> TransactionView {
        TransactionView {
            to: self.to,
            value: self.value@,
            method: self.method,
            params: self.params@,
            approved: self.approved@,
        }
    }
}

/// The first `n` of the approvers without `addr`, in order.
pub open spec fn without(approved: Seq<Address>, addr: Address, n: int) -> Seq<Address>
    decreases n,
{
    if n <= 0 {
        Seq::empty()
    } else if approved[n - 1] == addr {
        without(approved, addr, n - 1)
    } else {
        without(approved, addr, n - 1).push(approved[n - 1])
    }
}

/// The transaction with `addr` taken out of its approvers.
pub open spec fn purged_transaction(t: TransactionView, addr: Address) -> TransactionView {
    TransactionView { approved: without(t.approved, addr, t.approved.len() as int), ..t }
}

/// The pending transactions after the approvals of `addr` are purged: a
/// transaction that `addr` did not approve stays as it is; one that it did
/// approve loses that approval, and is dropped if no approval is left.
pub open spec fn purged(pending: Map<TxnID, TransactionView>, addr: Address) -> Map<TxnID, TransactionView> {
    Map::new(
        |id: TxnID|
            pending.contains_key(id) && (!pending[id].approved.contains(addr) || purged_transaction(
                pending[id],
                addr,
            ).approved.len() > 0),
        |id: TxnID|
            if pending[id].approved.contains(addr) {
                purged_transaction(pending[id], addr)
            } else {
                pending[id]
            },
    )
}

/// The amount still locked after `elapsed` epochs of a lock of `initial`
/// that is released evenly over `unlock_duration` epochs: nothing once the
/// duration has passed, all of it before the start, and in between the part
/// that the remaining epochs stand for, rounded up.
pub open spec fn locked_amount(initial: int, unlock_duration: int, elapsed: int) -> int {
    if elapsed >= unlock_duration {
        0
    } else if elapsed <= 0 {
        initial
    } else {
        ceil_div(initial * (unlock_duration - elapsed), unlock_duration)
    }
}

/// What spending `amount` from `balance` comes to, `elapsed` epochs into
/// the lock: illegal argument for a negative amount; insufficient funds
/// when the balance does not cover the amount; success for an amount of
/// zero; insufficient funds when what would be left is less than what is
/// still locked; success otherwise.
pub open spec fn spend_code(
    initial: int,
    unlock_duration: int,
    elapsed: int,
    balance: int,
    amount: int,
) -> ExitCode {
    if amount < 0 {
        ExitCode::IllegalArgument
    } else if balance < amount {
        ExitCode::InsufficientFunds
    } else if amount == 0 {
        ExitCode::Success
    } else if balance - amount < locked_amount(initial, unlock_duration, elapsed) {
        ExitCode::InsufficientFunds
    } else {
        ExitCode::Success
    }
}

/// Multisig actor state.
pub struct State {
    pub signers: Vec<Address>,
    pub num_approvals_threshold: u64,
    pub next_tx_id: TxnID,
    /// The amount locked at the start of the vesting.
    pub initial_balance: TokenAmount,
    pub start_epoch: ChainEpoch,
    pub unlock_duration: ChainEpoch,
    /// The pending transactions, under owner 0 and their id.
    pub pending_txs: OwnerMap<Transaction>,
}

/// Whether `addr` is among the addresses.
fn holds(list: &Vec<Address>, addr: &Address) -> (r: bool)
    ensures
        r == list@.contains(*addr),
{
    let mut i: usize = 0;
    while i < list.len()
        invariant
            i <= list@.len(),
            forall|k: int| 0 <= k < i ==> list@[k] != *addr,
        decreases list@.len() - i,
    {
        if address_eq(&list[i], addr) {
            return true;
        }
        i += 1;
    }
    false
}

/// The addresses without `addr`, in order.
fn retain_others(list: &Vec<Address>, addr: &Address) -> (r: Vec<Address>)
    ensures
        r@ == without(list@, *addr, list@.len() as int),
{
    let mut out: Vec<Address> = Vec::new();
    let mut i: usize = 0;
    while i < list.len()
        invariant
            i <= list@.len(),
            out@ == without(list@, *addr, i as int),
        decreases list@.len() - i,
    {
        if !address_eq(&list[i], addr) {
            out.push(list[i]);
        }
        i += 1;
    }
    out
}

impl State {
    /// The pending transactions by id.
    pub closed spec fn pending(&self) -> Map<TxnID, TransactionView> {
        Map::new(
            |id: TxnID| id >= 0 && self.pending_txs.view().contains_key((0, id as u64)),
            |id: TxnID| self.pending_txs.view()[(0, id as u64)]@,
        )
    }

    /// The state is well formed: the pending transactions are kept in
    /// order, and their ids are not negative.
    pub closed spec fn wf(&self) -> bool {
        &&& self.pending_txs.wf()
        &&& forall|k: (u64, u64)| #[trigger]
            self.pending_txs.view().contains_key(k) ==> k.0 == 0 && k.1 <= i64::MAX
    }

    /// A state without pending transactions.
    pub fn new(
        signers: Vec<Address>,
        num_approvals_threshold: u64,
        initial_balance: TokenAmount,
        start_epoch: ChainEpoch,
        unlock_duration: ChainEpoch,
    ) -> (r: Self)
        ensures
            r.wf(),
            r.signers == signers,
            r.num_approvals_threshold == num_approvals_threshold,
            r.next_tx_id == 0,
            r.initial_balance == initial_balance,
            r.start_epoch == start_epoch,
            r.unlock_duration == unlock_duration,
            r.pending() == Map::<TxnID, TransactionView>::empty(),
    {
        let r = State {
            signers,
            num_approvals_threshold,
            next_tx_id: 0,
            initial_balance,
            start_epoch,
            unlock_duration,
            pending_txs: OwnerMap::new(),
        };
        assert(r.pending() =~= Map::<TxnID, TransactionView>::empty());
        r
    }

    /// Checks if `address` is in the list of signers.
    pub fn is_signer(&self, address: &Address) -> (r: bool)
        ensures
            r == self.signers@.contains(*address),
    {
        holds(&self.signers, address)
    }

    /// Sets the locked amount and the time over which it is released.
    pub fn set_locked(&mut self, start_epoch: ChainEpoch, unlock_duration: ChainEpoch, locked_amount: TokenAmount)
        ensures
            final(self).start_epoch == start_epoch,
            final(self).unlock_duration == unlock_duration,
            final(self).initial_balance == locked_amount,
            final(self).signers == old(self).signers,
            final(self).num_approvals_threshold == old(self).num_approvals_threshold,
            final(self).next_tx_id == old(self).next_tx_id,
            final(self).pending() == old(self).pending(),
            old(self).wf() ==> final(self).wf(),
    {
        self.start_epoch = start_epoch;
        self.unlock_duration = unlock_duration;
        self.initial_balance = locked_amount;
    }

    /// The amount locked after a number of epochs, which may lie outside
    /// the range of an epoch.
    fn amount_locked_after(&self, elapsed: i128) -> (r: TokenAmount)
        ensures
            r@ == locked_amount(self.initial_balance@, self.unlock_duration as int, elapsed as int),
    {
        if elapsed >= self.unlock_duration as i128 {
            return TokenAmount::zero();
        }
        if elapsed <= 0 {
            return self.initial_balance.clone();
        }
        let remaining = BigInt::from_i128(self.unlock_duration as i128 - elapsed);
        let numerator = self.initial_balance.mul(&remaining);
        let denominator = BigInt::from_i64(self.unlock_duration);
        numerator.div_ceil(&denominator)
    }

    /// Returns the amount locked in the multisig `elapsed_epoch` epochs
    /// after the start of the lock.
    pub fn amount_locked(&self, elapsed_epoch: ChainEpoch) -> (r: TokenAmount)
        ensures
            r@ == locked_amount(self.initial_balance@, self.unlock_duration as int, elapsed_epoch as int),
    {
        self.amount_locked_after(elapsed_epoch as i128)
    }

    /// Checks that `amount_to_spend` can leave a balance of `balance` at
    /// `curr_epoch` without touching what is still locked.
    pub fn check_available(&self, balance: TokenAmount, amount_to_spend: &TokenAmount, curr_epoch: ChainEpoch) -> (r:
        Result<(), ActorError>)
        ensures
            ({
                let code = spend_code(
                    self.initial_balance@,
                    self.unlock_duration as int,
                    curr_epoch - self.start_epoch,
                    balance@,
                    amount_to_spend@,
                );
                match r {
                    Ok(_) => code == ExitCode::Success,
                    Err(e) => code != ExitCode::Success && e.exit_code == code,
                }
            }),
    {
        if amount_to_spend.is_negative() {
            return Err(ActorError { exit_code: ExitCode::IllegalArgument });
        }
        if balance.lt(amount_to_spend) {
            return Err(ActorError { exit_code: ExitCode::InsufficientFunds });
        }
        if amount_to_spend.is_zero() {
            return Ok(());
        }
        let remaining_balance = balance.sub(amount_to_spend);
        let amount_locked = self.amount_locked_after(curr_epoch as i128 - self.start_epoch as i128);
        if remaining_balance.lt(&amount_locked) {
            return Err(ActorError { exit_code: ExitCode::InsufficientFunds });
        }
        Ok(())
    }

    /// The pending transaction with this id, if there is one.
    pub fn get_pending(&self, id: TxnID) -> (r: Option<&Transaction>)
        requires
            self.wf(),
        ensures
            r.is_some() == self.pending().contains_key(id),
            r.is_some() ==> r.unwrap()@ == self.pending()[id],
    {
        if id < 0 {
            return None;
        }
        self.pending_txs.get_ref(0, id as u64)
    }

    /// Stores a pending transaction under `id`, replacing what was there.
    /// Ids are not negative: a negative id is refused, and nothing changes.
    pub fn put_pending(&mut self, id: TxnID, txn: Transaction) -> (r: bool)
        requires
            old(self).wf(),
        ensures
            final(self).wf(),
            r == (id >= 0),
            r ==> final(self).pending() == old(self).pending().insert(id, txn@),
            !r ==> final(self).pending() == old(self).pending(),
            final(self).signers == old(self).signers,
            final(self).num_approvals_threshold == old(self).num_approvals_threshold,
            final(self).next_tx_id == old(self).next_tx_id,
            final(self).initial_balance == old(self).initial_balance,
            final(self).start_epoch == old(self).start_epoch,
            final(self).unlock_duration == old(self).unlock_duration,
    {
        if id < 0 {
            return false;
        }
        let ghost before = self.pending_txs.view();
        self.pending_txs.insert(0, id as u64, txn);
        proof {
            assert forall|k: (u64, u64)| #[trigger] self.pending_txs.view().contains_key(k) implies k.0 == 0 && k.1
                <= i64::MAX by {
                if k != (0u64, id as u64) {
                    assert(before.contains_key(k));
                }
            }
            assert(self.pending() =~= old(self).pending().insert(id, txn@)) by {
                assert forall|x: TxnID| self.pending().contains_key(x) == old(self).pending().insert(
                    id,
                    txn@,
                ).contains_key(x) by {
                    if x >= 0 && x != id {
                        assert((0u64, x as u64) != (0u64, id as u64));
                    }
                }
                assert forall|x: TxnID| self.pending().contains_key(x) implies self.pending()[x] == old(
                    self,
                ).pending().insert(id, txn@)[x] by {
                    if x != id {
                        assert((0u64, x as u64) != (0u64, id as u64));
                    }
                }
            }
        }
        true
    }

    /// Removes `addr` from the approvals of every pending transaction. A
    /// transaction that is left without approvals is deleted.
    pub fn purge_approvals(&mut self, addr: &Address)
        requires
            old(self).wf(),
        ensures
            final(self).wf(),
            final(self).pending() == purged(old(self).pending(), *addr),
            final(self).signers == old(self).signers,
            final(self).num_approvals_threshold == old(self).num_approvals_threshold,
            final(self).next_tx_id == old(self).next_tx_id,
            final(self).initial_balance == old(self).initial_balance,
            final(self).start_epoch == old(self).start_epoch,
            final(self).unlock_duration == old(self).unlock_duration,
    {
        let ghost start = self.pending_txs.view();
        // Identify the transactions that need updating.
        let mut txn_ids_to_purge = index_new();
        let ids = self.pending_txs.ids_of(0);
        let mut i: usize = 0;
        while i < ids.len()
            invariant
                i <= ids@.len(),
                self.wf(),
                self.pending_txs.view() == start,
                forall|id: u64| ids@.contains(id) <==> start.contains_key((0, id)),
                distinct_keys(index_entries(txn_ids_to_purge)),
                forall|k: i64|
                    has_key(index_entries(txn_ids_to_purge), k) ==> k >= 0 && start.contains_key((0, k as u64))
                        && start[(0, k as u64)].approved@.contains(*addr),
                forall|n: int|
                    0 <= n < i && start[(0, #[trigger] ids@[n])].approved@.contains(*addr) ==> has_key(
                        index_entries(txn_ids_to_purge),
                        ids@[n] as i64,
                    ),
            decreases ids@.len() - i,
        {
            let id = ids[i];
            assert(ids@.contains(id));
            let txn = self.pending_txs.get_ref(0, id).unwrap();
            let mut j: usize = 0;
            while j < txn.approved.len()
                invariant
                    j <= txn.approved@.len(),
                    i < ids@.len(),
                    id == ids@[i as int],
                    id <= i64::MAX,
                    start.contains_key((0, id)),
                    *txn == start[(0, id)],
                    distinct_keys(index_entries(txn_ids_to_purge)),
                    forall|k: i64|
                        has_key(index_entries(txn_ids_to_purge), k) ==> k >= 0 && start.contains_key(
                            (0, k as u64),
                        ) && start[(0, k as u64)].approved@.contains(*addr),
                    forall|n: int|
                        0 <= n < i && start[(0, #[trigger] ids@[n])].approved@.contains(*addr) ==> has_key(
                            index_entries(txn_ids_to_purge),
                            ids@[n] as i64,
                        ),
                    (exists|m: int| 0 <= m < j && txn.approved@[m] == *addr) ==> has_key(
                        index_entries(txn_ids_to_purge),
                        id as i64,
                    ),
                decreases txn.approved@.len() - j,
            {
                if address_eq(&txn.approved[j], addr) {
                    let ghost before = index_entries(txn_ids_to_purge);
                    proof {
                        lemma_inserted(before, id as i64, i);
                        assert(txn.approved@.contains(*addr));
                    }
                    index_insert(&mut txn_ids_to_purge, id as i64, i);
                    proof {
                        let after = index_entries(txn_ids_to_purge);
                        assert(after == crate::multisig::index::inserted(before, id as i64, i));
                        assert forall|k: i64| has_key(after, k) implies k >= 0 && start.contains_key(
                            (0, k as u64),
                        ) && start[(0, k as u64)].approved@.contains(*addr) by {
                            if k != id as i64 {
                                assert(has_key(before, k));
                            } else {
                                assert(k as u64 == id);
                            }
                        }
                        assert forall|n: int|
                            0 <= n < i && start[(0, #[trigger] ids@[n])].approved@.contains(
                                *addr,
                            ) implies has_key(after, ids@[n] as i64) by {
                            assert(has_key(before, ids@[n] as i64));
                        }
                    }
                }
                j += 1;
            }
            proof {
                if start[(0, id)].approved@.contains(*addr) {
                    let m = choose|m: int| 0 <= m < txn.approved@.len() && txn.approved@[m] == *addr;
                    assert(0 <= m < j && txn.approved@[m] == *addr);
                }
            }
            i += 1;
        }
        // Update or remove those transactions.
        let listed = index_list(&txn_ids_to_purge);
        let mut n: usize = 0;
        while n < listed.len()
            invariant
                n <= listed@.len(),
                listed@ == index_entries(txn_ids_to_purge),
                distinct_keys(listed@),
                self.pending_txs.wf(),
                forall|k: (u64, u64)| #[trigger] start.contains_key(k) ==> k.0 == 0 && k.1 <= i64::MAX,
                forall|k: i64|
                    has_key(listed@, k) ==> k >= 0 && start.contains_key((0, k as u64)) && start[(
                        0,
                        k as u64,
                    )].approved@.contains(*addr),
                forall|k: (u64, u64)|
                    has_key(listed@.subrange(0, n as int), k.1 as i64) && k.0 == 0 && start.contains_key(k) ==> (
                    #[trigger] self.pending_txs.view().contains_key(k) == (purged_transaction(
                        start[k]@,
                        *addr,
                    ).approved.len() > 0)) && (self.pending_txs.view().contains_key(k)
                        ==> self.pending_txs.view()[k]@ == purged_transaction(start[k]@, *addr)),
                forall|k: (u64, u64)|
                    !(has_key(listed@.subrange(0, n as int), k.1 as i64) && k.0 == 0 && start.contains_key(k)) ==> (
                    #[trigger] self.pending_txs.view().contains_key(k) == start.contains_key(k)) && (
                    start.contains_key(k) ==> self.pending_txs.view()[k] == start[k]),
                self.signers == old(self).signers,
                self.num_approvals_threshold == old(self).num_approvals_threshold,
                self.next_tx_id == old(self).next_tx_id,
                self.initial_balance == old(self).initial_balance,
                self.start_epoch == old(self).start_epoch,
                self.unlock_duration == old(self).unlock_duration,
            decreases listed@.len() - n,
        {
            let tx_id = listed[n].0;
            let ghost key = (0u64, tx_id as u64);
            let ghost done = listed@.subrange(0, n as int);
            let ghost cur = self.pending_txs.view();
            proof {
                assert(has_key(listed@, tx_id)) by {
                    assert(listed@[n as int].0 == tx_id);
                }
                assert(!has_key(done, tx_id)) by {
                    if has_key(done, tx_id) {
                        let w = choose|w: int| 0 <= w < done.len() && (#[trigger] done[w]).0 == tx_id;
                        assert(listed@[w].0 == listed@[n as int].0);
                    }
                }
                assert(cur.contains_key(key) == start.contains_key(key));
            }
            let txn = self.pending_txs.get_ref(0, tx_id as u64).unwrap();
            let kept = retain_others(&txn.approved, addr);
            if kept.len() > 0 {
                let updated = Transaction {
                    to: txn.to,
                    value: txn.value.clone(),
                    method: txn.method,
                    params: copy_bytes(&txn.params),
                    approved: kept,
                };
                assert(updated@ == purged_transaction(start[key]@, *addr));
                self.pending_txs.insert(0, tx_id as u64, updated);
            } else {
                let _ = self.pending_txs.remove(0, tx_id as u64);
            }
            n += 1;
            proof {
                let now = listed@.subrange(0, n as int);
                assert forall|k: i64| has_key(now, k) <==> (has_key(done, k) || k == tx_id) by {
                    if has_key(now, k) {
                        let w = choose|w: int| 0 <= w < now.len() && (#[trigger] now[w]).0 == k;
                        if w < n - 1 {
                            assert(done[w].0 == k);
                        }
                    }
                    if has_key(done, k) {
                        let w = choose|w: int| 0 <= w < done.len() && (#[trigger] done[w]).0 == k;
                        assert(now[w].0 == k);
                    }
                    if k == tx_id {
                        assert(now[n - 1].0 == k);
                    }
                }
                assert forall|k: (u64, u64)|
                    has_key(now, k.1 as i64) && k.0 == 0 && start.contains_key(k) implies (
                    #[trigger] self.pending_txs.view().contains_key(k) == (purged_transaction(
                        start[k]@,
                        *addr,
                    ).approved.len() > 0)) && (self.pending_txs.view().contains_key(k)
                        ==> self.pending_txs.view()[k]@ == purged_transaction(start[k]@, *addr)) by {
                    if k.1 as i64 == tx_id {
                        assert(k == key);
                    } else {
                        assert(has_key(done, k.1 as i64));
                        assert(cur.contains_key(k) == (purged_transaction(start[k]@, *addr).approved.len() > 0));
                    }
                }
                assert forall|k: (u64, u64)|
                    !(has_key(now, k.1 as i64) && k.0 == 0 && start.contains_key(k)) implies (
                    #[trigger] self.pending_txs.view().contains_key(k) == start.contains_key(k)) && (
                    start.contains_key(k) ==> self.pending_txs.view()[k] == start[k]) by {
                    assert(cur.contains_key(k) == start.contains_key(k));
                    if k == key {
                        assert(has_key(now, k.1 as i64));
                    }
                }
            }
        }
        proof {
            let done = listed@.subrange(0, listed@.len() as int);
            assert(done =~= listed@);
            let end = self.pending_txs.view();
            assert forall|k: (u64, u64)| #[trigger] end.contains_key(k) implies k.0 == 0 && k.1 <= i64::MAX by {
                if !start.contains_key(k) {
                    assert(end.contains_key(k) == start.contains_key(k));
                }
            }
            let target = purged(old(self).pending(), *addr);
            assert forall|id: TxnID| self.pending().contains_key(id) == target.contains_key(id) by {
                if id >= 0 {
                    let k = (0u64, id as u64);
                    if start.contains_key(k) {
                        if start[k].approved@.contains(*addr) {
                            assert(ids@.contains(k.1));
                            let w = choose|w: int| 0 <= w < ids@.len() && ids@[w] == k.1;
                            assert(has_key(listed@, ids@[w] as i64));
                            assert(end.contains_key(k) == (purged_transaction(start[k]@, *addr).approved.len() > 0));
                        } else {
                            if has_key(listed@, k.1 as i64) {
                                assert(start[(0u64, (k.1 as i64) as u64)].approved@.contains(*addr));
                            }
                            assert(end.contains_key(k) == start.contains_key(k));
                        }
                    } else {
                        assert(end.contains_key(k) == start.contains_key(k));
                    }
                }
            }
            assert forall|id: TxnID| self.pending().contains_key(id) implies self.pending()[id] == target[id] by {
                let k = (0u64, id as u64);
                if start.contains_key(k) {
                    if start[k].approved@.contains(*addr) {
                        assert(ids@.contains(k.1));
                        let w = choose|w: int| 0 <= w < ids@.len() && ids@[w] == k.1;
                        assert(has_key(listed@, ids@[w] as i64));
                        assert(end[k]@ == purged_transaction(start[k]@, *addr));
                    } else {
                        if has_key(listed@, k.1 as i64) {
                            assert(start[(0u64, (k.1 as i64) as u64)].approved@.contains(*addr));
                        }
                        assert(end[k] == start[k]);
                    }
                } else {
                    assert(end.contains_key(k) == start.contains_key(k));
                }
            }
            assert(self.pending() =~= target);
        }
    }
}

} // verus!
