//! Running totals of fees, kept per deadline, partition and quantized
//! epoch.

use crate::econ::TokenAmount;
use crate::types::ChainEpoch;
use vstd::prelude::*;

verus! {

/// One total with its key.
pub struct FeeEntry {
    pub deadline: u64,
    pub partition: u64,
    pub epoch: ChainEpoch,
    pub amount: TokenAmount,
}

/// The key of an entry.
pub open spec fn entry_key(e: FeeEntry) -> (u64, u64, ChainEpoch) {
    (e.deadline, e.partition, e.epoch)
}

/// The amount of the first entry from position `from` on that has `key`;
/// zero when there is none.
pub open spec fn lookup(entries: Seq<FeeEntry>, key: (u64, u64, ChainEpoch), from: int) -> int
    decreases entries.len() - from,
{
    if from < 0 || from >= entries.len() {
        0
    } else if entry_key(entries[from]) == key {
        entries[from].amount@
    } else {
        lookup(entries, key, from + 1)
    }
}

/// Raising the amount of the first entry with `key` by `delta` raises what
/// is found under `key` by `delta`, and changes nothing under other keys.
proof fn lemma_lookup_after_set(
    before: Seq<FeeEntry>,
    after: Seq<FeeEntry>,
    key: (u64, u64, ChainEpoch),
    idx: int,
    delta: int,
    other: (u64, u64, ChainEpoch),
    from: int,
)
    requires
        0 <= idx < before.len(),
        0 <= from <= before.len(),
        after.len() == before.len(),
        forall|i: int| 0 <= i < before.len() && i != idx ==> after[i] == before[i],
        entry_key(before[idx]) == key,
        entry_key(after[idx]) == key,
        after[idx].amount@ == before[idx].amount@ + delta,
        forall|i: int| 0 <= i < idx ==> entry_key(#[trigger] before[i]) != key,
    ensures
        lookup(after, other, from) == lookup(before, other, from) + if other == key && from <= idx {
            delta
        } else {
            0
        },
    decreases before.len() - from,
{
    if from < before.len() {
        lemma_lookup_after_set(before, after, key, idx, delta, other, from + 1);
        if from != idx {
            assert(after[from] == before[from]);
        }
    }
}

/// Adding an entry under a key that has none makes its amount what is found
/// under that key, and changes nothing under other keys.
proof fn lemma_lookup_after_push(
    before: Seq<FeeEntry>,
    entry: FeeEntry,
    other: (u64, u64, ChainEpoch),
    from: int,
)
    requires
        0 <= from <= before.len(),
        forall|i: int| 0 <= i < before.len() ==> entry_key(#[trigger] before[i]) != entry_key(entry),
    ensures
        lookup(before.push(entry), other, from) == lookup(before, other, from) + if other == entry_key(entry) {
            entry.amount@
        } else {
            0
        },
    decreases before.len() - from,
{
    let after = before.push(entry);
    if from < before.len() {
        lemma_lookup_after_push(before, entry, other, from + 1);
        assert(after[from] == before[from]);
    } else {
        assert(after[from] == entry);
        assert(lookup(after, other, from + 1) == 0);
    }
}

/// Totals of fees by `(deadline, partition, epoch)`. A key that was never
/// touched has total zero.
pub struct FeeLedger {
    entries: Vec<FeeEntry>,
}

impl FeeLedger {
    /// The total under `key`.
    pub closed spec fn total(&self, key: (u64, u64, ChainEpoch)) -> int {
        lookup(self.entries@, key, 0)
    }

    /// A ledger with every total zero.
    pub fn new() -> (r: Self)
        ensures
            forall|key: (u64, u64, ChainEpoch)| r.total(key) == 0,
    {
        FeeLedger { entries: Vec::new() }
    }

    /// Position of the first entry with the key, if any.
    fn find(&self, deadline: u64, partition: u64, epoch: ChainEpoch) -> (r: Option<usize>)
        ensures
            match r {
                Some(i) => i < self.entries@.len() && entry_key(self.entries@[i as int]) == (
                    deadline,
                    partition,
                    epoch,
                ) && forall|k: int|
                    0 <= k < i ==> entry_key(#[trigger] self.entries@[k]) != (deadline, partition, epoch),
                None => forall|k: int|
                    0 <= k < self.entries@.len() ==> entry_key(#[trigger] self.entries@[k]) != (
                        deadline,
                        partition,
                        epoch,
                    ),
            },
    {
        let mut i: usize = 0;
        while i < self.entries.len()
            invariant
                i <= self.entries@.len(),
                forall|k: int|
                    0 <= k < i ==> entry_key(#[trigger] self.entries@[k]) != (deadline, partition, epoch),
            decreases self.entries@.len() - i,
        {
            let e = &self.entries[i];
            if e.deadline == deadline && e.partition == partition && e.epoch == epoch {
                return Some(i);
            }
            i += 1;
        }
        None
    }

    /// The total under `(deadline, partition, epoch)`.
    pub fn get(&self, deadline: u64, partition: u64, epoch: ChainEpoch) -> (r: TokenAmount)
        ensures
            r@ == self.total((deadline, partition, epoch)),
    {
        match self.find(deadline, partition, epoch) {
            Some(i) => {
                proof {
                    lemma_lookup_first(self.entries@, (deadline, partition, epoch), i as int, 0);
                }
                self.entries[i].amount.clone()
            },
            None => {
                proof {
                    lemma_lookup_none(self.entries@, (deadline, partition, epoch), 0);
                }
                TokenAmount::zero()
            },
        }
    }

    /// Raises the total under `(deadline, partition, epoch)` by `delta`.
    pub fn add(&mut self, deadline: u64, partition: u64, epoch: ChainEpoch, delta: &TokenAmount)
        ensures
            forall|key: (u64, u64, ChainEpoch)|
                #[trigger] final(self).total(key) == old(self).total(key) + if key == (deadline, partition, epoch) {
                    delta@
                } else {
                    0
                },
    {
        let ghost before = self.entries@;
        let ghost target = (deadline, partition, epoch);
        match self.find(deadline, partition, epoch) {
            Some(i) => {
                let raised = self.entries[i].amount.add(delta);
                self.entries.set(i, FeeEntry { deadline, partition, epoch, amount: raised });
                proof {
                    let after = self.entries@;
                    assert forall|key: (u64, u64, ChainEpoch)|
                        lookup(after, key, 0) == lookup(before, key, 0) + if key == target {
                            delta@
                        } else {
                            0
                        } by {
                        lemma_lookup_after_set(before, after, target, i as int, delta@, key, 0);
                    }
                }
            },
            None => {
                let entry = FeeEntry { deadline, partition, epoch, amount: delta.clone() };
                self.entries.push(entry);
                proof {
                    let after = self.entries@;
                    assert(after == before.push(entry));
                    assert forall|key: (u64, u64, ChainEpoch)|
                        lookup(after, key, 0) == lookup(before, key, 0) + if key == target {
                            delta@
                        } else {
                            0
                        } by {
                        lemma_lookup_after_push(before, entry, key, 0);
                    }
                }
            },
        }
    }
}

/// What is found under a key is the amount of the first entry that has it.
proof fn lemma_lookup_first(entries: Seq<FeeEntry>, key: (u64, u64, ChainEpoch), idx: int, from: int)
    requires
        0 <= from <= idx < entries.len(),
        entry_key(entries[idx]) == key,
        forall|k: int| 0 <= k < idx ==> entry_key(#[trigger] entries[k]) != key,
    ensures
        lookup(entries, key, from) == entries[idx].amount@,
    decreases idx - from,
{
    if from < idx {
        lemma_lookup_first(entries, key, idx, from + 1);
    }
}

/// Nothing is found under a key that no entry has.
proof fn lemma_lookup_none(entries: Seq<FeeEntry>, key: (u64, u64, ChainEpoch), from: int)
    requires
        0 <= from <= entries.len(),
        forall|k: int| 0 <= k < entries.len() ==> entry_key(#[trigger] entries[k]) != key,
    ensures
        lookup(entries, key, from) == 0,
    decreases entries.len() - from,
{
    if from < entries.len() {
        lemma_lookup_none(entries, key, from + 1);
    }
}

} // verus!
