//! A collection indexed first by an owner and then by a numeric id.
//!
//! Entries are kept in ascending order of `(owner, id)`, so the ids of one
//! owner are contiguous and come out in ascending order.

use vstd::prelude::*;

verus! {

/// One stored value with its key.
pub struct Entry<V> {
    pub owner: u64,
    pub id: u64,
    pub value: V,
}

/// Lexicographic order on `(owner, id)`.
pub open spec fn key_lt(a: (u64, u64), b: (u64, u64)) -> bool {
    a.0 < b.0 || (a.0 == b.0 && a.1 < b.1)
}

/// The key of an entry.
pub open spec fn key_of<V>(e: Entry<V>) -> (u64, u64) {
    (e.owner, e.id)
}

/// Entries in strictly ascending order of key.
pub open spec fn ascending<V>(s: Seq<Entry<V>>) -> bool {
    forall|i: int, j: int| 0 <= i < j < s.len() ==> key_lt(key_of(#[trigger] s[i]), key_of(#[trigger] s[j]))
}

/// The map that a sequence of entries stands for.
pub open spec fn entries_map<V>(s: Seq<Entry<V>>) -> Map<(u64, u64), V> {
    Map::new(
        |k: (u64, u64)| exists|i: int| 0 <= i < s.len() && key_of(#[trigger] s[i]) == k,
        |k: (u64, u64)| s[choose|i: int| 0 <= i < s.len() && key_of(#[trigger] s[i]) == k].value,
    )
}

/// In an ascending sequence every entry is what the map holds at its key.
pub proof fn lemma_entries_map<V>(s: Seq<Entry<V>>)
    requires
        ascending(s),
    ensures
        forall|i: int|
            0 <= i < s.len() ==> entries_map(s).contains_key(key_of(#[trigger] s[i])) && entries_map(
                s,
            )[key_of(s[i])] == s[i].value,
        forall|k: (u64, u64)| #[trigger]
            entries_map(s).contains_key(k) ==> exists|i: int|
                0 <= i < s.len() && key_of(#[trigger] s[i]) == k,
        entries_map(s).dom().finite(),
{
    assert forall|i: int| 0 <= i < s.len() implies entries_map(s).contains_key(
        key_of(#[trigger] s[i]),
    ) && entries_map(s)[key_of(s[i])] == s[i].value by {
        let k = key_of(s[i]);
        let j = choose|j: int| 0 <= j < s.len() && key_of(#[trigger] s[j]) == k;
        if j < i {
            assert(key_lt(key_of(s[j]), key_of(s[i])));
        } else if i < j {
            assert(key_lt(key_of(s[i]), key_of(s[j])));
        }
    }
    lemma_entries_finite(s);
}

proof fn lemma_entries_finite<V>(s: Seq<Entry<V>>)
    ensures
        entries_map(s).dom().finite(),
    decreases s.len(),
{
    if s.len() == 0 {
        assert(entries_map(s).dom() =~= Set::<(u64, u64)>::empty());
    } else {
        let t = s.drop_last();
        lemma_entries_finite(t);
        let k = key_of(s.last());
        assert forall|x: (u64, u64)| entries_map(s).dom().contains(x) <==> entries_map(t).dom().insert(
            k,
        ).contains(x) by {
            if entries_map(s).dom().contains(x) {
                let i = choose|i: int| 0 <= i < s.len() && key_of(#[trigger] s[i]) == x;
                if i < s.len() - 1 {
                    assert(key_of(t[i]) == x);
                }
            }
            if entries_map(t).dom().contains(x) {
                let i = choose|i: int| 0 <= i < t.len() && key_of(#[trigger] t[i]) == x;
                assert(key_of(s[i]) == x);
            }
            if x == k {
                assert(key_of(s[s.len() - 1]) == x);
            }
        }
        assert(entries_map(s).dom() =~= entries_map(t).dom().insert(k));
    }
}

/// Where the entries below a key end: the key is in the map exactly when
/// the entry at that position has it.
proof fn lemma_found_at<V>(s: Seq<Entry<V>>, pos: int, key: (u64, u64))
    requires
        ascending(s),
        0 <= pos <= s.len(),
        forall|i: int| 0 <= i < pos ==> key_lt(key_of(#[trigger] s[i]), key),
        forall|i: int| pos <= i < s.len() ==> !key_lt(key_of(#[trigger] s[i]), key),
    ensures
        entries_map(s).contains_key(key) == (pos < s.len() && key_of(s[pos]) == key),
{
    if entries_map(s).contains_key(key) {
        let i = choose|i: int| 0 <= i < s.len() && key_of(#[trigger] s[i]) == key;
        if i < pos {
            assert(key_lt(key_of(s[i]), key));
        } else if i > pos {
            assert(key_lt(key_of(s[pos]), key_of(s[i])));
            assert(!key_lt(key_of(s[pos]), key));
        }
    }
    if pos < s.len() && key_of(s[pos]) == key {
        assert(entries_map(s).contains_key(key_of(s[pos])));
    }
}

/// Replacing the value of an entry replaces the value in the map.
proof fn lemma_after_set<V>(before: Seq<Entry<V>>, after: Seq<Entry<V>>, pos: int, entry: Entry<V>)
    requires
        ascending(before),
        0 <= pos < before.len(),
        key_of(before[pos]) == key_of(entry),
        after == before.update(pos, entry),
    ensures
        ascending(after),
        entries_map(after) == entries_map(before).insert(key_of(entry), entry.value),
{
    let key = key_of(entry);
    assert forall|i: int, j: int| 0 <= i < j < after.len() implies key_lt(
        key_of(#[trigger] after[i]),
        key_of(#[trigger] after[j]),
    ) by {
        assert(key_of(after[i]) == key_of(before[i]));
        assert(key_of(after[j]) == key_of(before[j]));
        assert(key_lt(key_of(before[i]), key_of(before[j])));
    }
    lemma_entries_map(before);
    lemma_entries_map(after);
    let target = entries_map(before).insert(key, entry.value);
    assert forall|k: (u64, u64)| entries_map(after).contains_key(k) == target.contains_key(k) by {
        if entries_map(after).contains_key(k) {
            let i = choose|i: int| 0 <= i < after.len() && key_of(#[trigger] after[i]) == k;
            assert(key_of(before[i]) == k);
        }
        if entries_map(before).contains_key(k) {
            let i = choose|i: int| 0 <= i < before.len() && key_of(#[trigger] before[i]) == k;
            assert(key_of(after[i]) == k);
        }
        if k == key {
            assert(key_of(after[pos]) == k);
        }
    }
    assert forall|k: (u64, u64)| entries_map(after).contains_key(k) implies entries_map(after)[k]
        == target[k] by {
        let i = choose|i: int| 0 <= i < after.len() && key_of(#[trigger] after[i]) == k;
        assert(entries_map(after)[key_of(after[i])] == after[i].value);
        if i != pos {
            assert(after[i] == before[i]);
            assert(entries_map(before)[key_of(before[i])] == before[i].value);
        }
    }
    assert(entries_map(after) =~= target);
}

/// Adding an entry at the place where its key belongs adds it to the map.
proof fn lemma_after_insert<V>(before: Seq<Entry<V>>, after: Seq<Entry<V>>, pos: int, entry: Entry<V>)
    requires
        ascending(before),
        0 <= pos <= before.len(),
        forall|i: int| 0 <= i < pos ==> key_lt(key_of(#[trigger] before[i]), key_of(entry)),
        forall|i: int| pos <= i < before.len() ==> !key_lt(key_of(#[trigger] before[i]), key_of(entry)),
        pos < before.len() ==> key_of(before[pos]) != key_of(entry),
        after == before.insert(pos, entry),
    ensures
        ascending(after),
        entries_map(after) == entries_map(before).insert(key_of(entry), entry.value),
{
    let key = key_of(entry);
    assert forall|i: int, j: int| 0 <= i < j < after.len() implies key_lt(
        key_of(#[trigger] after[i]),
        key_of(#[trigger] after[j]),
    ) by {
        let bi = if i < pos { i } else { i - 1 };
        let bj = if j < pos { j } else { j - 1 };
        if i != pos && j != pos {
            assert(after[i] == before[bi]);
            assert(after[j] == before[bj]);
            assert(key_lt(key_of(before[bi]), key_of(before[bj])));
        } else if i == pos {
            assert(after[j] == before[bj]);
            assert(!key_lt(key_of(before[bj]), key));
            if bj != pos {
                assert(key_lt(key_of(before[pos]), key_of(before[bj])));
            }
        } else {
            assert(after[i] == before[bi]);
            assert(key_lt(key_of(before[bi]), key));
        }
    }
    lemma_entries_map(before);
    lemma_entries_map(after);
    let target = entries_map(before).insert(key, entry.value);
    assert forall|k: (u64, u64)| entries_map(after).contains_key(k) == target.contains_key(k) by {
        if entries_map(after).contains_key(k) {
            let i = choose|i: int| 0 <= i < after.len() && key_of(#[trigger] after[i]) == k;
            if i < pos {
                assert(key_of(before[i]) == k);
            } else if i > pos {
                assert(key_of(before[i - 1]) == k);
            }
        }
        if entries_map(before).contains_key(k) {
            let i = choose|i: int| 0 <= i < before.len() && key_of(#[trigger] before[i]) == k;
            if i < pos {
                assert(key_of(after[i]) == k);
            } else {
                assert(key_of(after[i + 1]) == k);
            }
        }
        if k == key {
            assert(key_of(after[pos]) == k);
        }
    }
    assert forall|k: (u64, u64)| entries_map(after).contains_key(k) implies entries_map(after)[k]
        == target[k] by {
        let i = choose|i: int| 0 <= i < after.len() && key_of(#[trigger] after[i]) == k;
        assert(entries_map(after)[key_of(after[i])] == after[i].value);
        if i < pos {
            assert(after[i] == before[i]);
            assert(entries_map(before)[key_of(before[i])] == before[i].value);
        } else if i > pos {
            assert(after[i] == before[i - 1]);
            assert(entries_map(before)[key_of(before[i - 1])] == before[i - 1].value);
        }
    }
    assert(entries_map(after) =~= target);
}

/// Taking an entry out takes its key out of the map.
proof fn lemma_after_remove<V>(before: Seq<Entry<V>>, after: Seq<Entry<V>>, pos: int)
    requires
        ascending(before),
        0 <= pos < before.len(),
        after == before.remove(pos),
    ensures
        ascending(after),
        entries_map(after) == entries_map(before).remove(key_of(before[pos])),
        entries_map(before).contains_key(key_of(before[pos])),
        entries_map(before)[key_of(before[pos])] == before[pos].value,
{
    let key = key_of(before[pos]);
    assert forall|i: int, j: int| 0 <= i < j < after.len() implies key_lt(
        key_of(#[trigger] after[i]),
        key_of(#[trigger] after[j]),
    ) by {
        let bi = if i < pos { i } else { i + 1 };
        let bj = if j < pos { j } else { j + 1 };
        assert(after[i] == before[bi]);
        assert(after[j] == before[bj]);
        assert(key_lt(key_of(before[bi]), key_of(before[bj])));
    }
    lemma_entries_map(before);
    lemma_entries_map(after);
    let target = entries_map(before).remove(key);
    assert forall|k: (u64, u64)| entries_map(after).contains_key(k) == target.contains_key(k) by {
        if entries_map(after).contains_key(k) {
            let i = choose|i: int| 0 <= i < after.len() && key_of(#[trigger] after[i]) == k;
            let bi = if i < pos { i } else { i + 1 };
            assert(after[i] == before[bi]);
            assert(key_of(before[bi]) == k);
            if bi < pos {
                assert(key_lt(key_of(before[bi]), key_of(before[pos])));
            } else {
                assert(key_lt(key_of(before[pos]), key_of(before[bi])));
            }
        }
        if entries_map(before).contains_key(k) && k != key {
            let i = choose|i: int| 0 <= i < before.len() && key_of(#[trigger] before[i]) == k;
            if i < pos {
                assert(key_of(after[i]) == k);
            } else {
                assert(after[i - 1] == before[i]);
                assert(key_of(after[i - 1]) == k);
            }
        }
    }
    assert forall|k: (u64, u64)| entries_map(after).contains_key(k) implies entries_map(after)[k]
        == target[k] by {
        let i = choose|i: int| 0 <= i < after.len() && key_of(#[trigger] after[i]) == k;
        let bi = if i < pos { i } else { i + 1 };
        assert(entries_map(after)[key_of(after[i])] == after[i].value);
        assert(after[i] == before[bi]);
        assert(entries_map(before)[key_of(before[bi])] == before[bi].value);
    }
    assert(entries_map(after) =~= target);
}

/// A map from `(owner, id)` to values.
pub struct OwnerMap<V> {
    entries: Vec<Entry<V>>,
}

impl<V> OwnerMap<V> {
    /// The entries are in strictly ascending order of key.
    pub closed spec fn wf(self) -> bool {
        ascending(self.entries@)
    }

    /// The map from `(owner, id)` to the stored value.
    pub closed spec fn view(self) -> Map<(u64, u64), V> {
        entries_map(self.entries@)
    }

    /// An empty map.
    pub fn new() -> (r: Self)
        ensures
            r.wf(),
            r.view() == Map::<(u64, u64), V>::empty(),
    {
        let r = OwnerMap { entries: Vec::new() };
        assert(r.view() =~= Map::<(u64, u64), V>::empty());
        r
    }

    /// Number of entries.
    pub fn len(&self) -> (r: usize)
        requires
            self.wf(),
        ensures
            r == self.view().dom().len(),
    {
        proof {
            lemma_entries_len(self.entries@);
        }
        self.entries.len()
    }

    /// Position of the first entry whose key is not below `(owner, id)`.
    fn position(&self, owner: u64, id: u64) -> (pos: usize)
        requires
            self.wf(),
        ensures
            pos <= self.entries@.len(),
            forall|i: int| 0 <= i < pos ==> key_lt(key_of(#[trigger] self.entries@[i]), (owner, id)),
            forall|i: int|
                pos <= i < self.entries@.len() ==> !key_lt(key_of(#[trigger] self.entries@[i]), (owner, id)),
    {
        proof {
        }
        let mut pos: usize = 0;
        while pos < self.entries.len()
            invariant
                pos <= self.entries@.len(),
                ascending(self.entries@),
                forall|i: int| 0 <= i < pos ==> key_lt(key_of(#[trigger] self.entries@[i]), (owner, id)),
            decreases self.entries@.len() - pos,
        {
            let e = &self.entries[pos];
            if e.owner < owner || (e.owner == owner && e.id < id) {
                pos += 1;
            } else {
                assert forall|i: int| pos <= i < self.entries@.len() implies !key_lt(
                    key_of(#[trigger] self.entries@[i]),
                    (owner, id),
                ) by {
                    if pos < i {
                        assert(key_lt(key_of(self.entries@[pos as int]), key_of(self.entries@[i])));
                    }
                }
                return pos;
            }
        }
        pos
    }

    /// The value stored under `(owner, id)`, if any.
    pub fn get_ref(&self, owner: u64, id: u64) -> (r: Option<&V>)
        requires
            self.wf(),
        ensures
            r.is_some() == self.view().contains_key((owner, id)),
            r.is_some() ==> *r.unwrap() == self.view()[(owner, id)],
    {
        proof {
            lemma_entries_map(self.entries@);
        }
        let pos = self.position(owner, id);
        if pos < self.entries.len() {
            let e = &self.entries[pos];
            if e.owner == owner && e.id == id {
                assert(key_of(self.entries@[pos as int]) == (owner, id));
                return Some(&e.value);
            }
        }
        assert(!self.view().contains_key((owner, id))) by {
            if self.view().contains_key((owner, id)) {
                let i = choose|i: int|
                    0 <= i < self.entries@.len() && key_of(#[trigger] self.entries@[i]) == (owner, id);
                if i < pos {
                    assert(key_lt(key_of(self.entries@[i]), (owner, id)));
                } else if i > pos {
                    assert(key_lt(key_of(self.entries@[pos as int]), key_of(self.entries@[i])));
                    assert(!key_lt(key_of(self.entries@[pos as int]), (owner, id)));
                }
            }
        }
        None
    }

    /// Whether a value is stored under `(owner, id)`.
    pub fn contains(&self, owner: u64, id: u64) -> (r: bool)
        requires
            self.wf(),
        ensures
            r == self.view().contains_key((owner, id)),
    {
        self.get_ref(owner, id).is_some()
    }

    /// Stores `value` under `(owner, id)`, replacing what was there.
    pub fn insert(&mut self, owner: u64, id: u64, value: V)
        requires
            old(self).wf(),
        ensures
            final(self).wf(),
            final(self).view() == old(self).view().insert((owner, id), value),
    {
        let ghost before = self.entries@;
        let pos = self.position(owner, id);
        let mut present = false;
        if pos < self.entries.len() {
            let e = &self.entries[pos];
            present = e.owner == owner && e.id == id;
        }
        let entry = Entry { owner, id, value };
        if present {
            self.entries.set(pos, entry);
            proof {
                lemma_after_set(before, self.entries@, pos as int, entry);
            }
        } else {
            self.entries.insert(pos, entry);
            proof {
                assert(self.entries@ =~= before.insert(pos as int, entry));
                lemma_after_insert(before, self.entries@, pos as int, entry);
            }
        }
    }

    /// Removes what is stored under `(owner, id)` and returns it.
    pub fn remove(&mut self, owner: u64, id: u64) -> (r: Option<V>)
        requires
            old(self).wf(),
        ensures
            final(self).wf(),
            final(self).view() == old(self).view().remove((owner, id)),
            r.is_some() == old(self).view().contains_key((owner, id)),
            r.is_some() ==> r.unwrap() == old(self).view()[(owner, id)],
    {
        let ghost before = self.entries@;
        let pos = self.position(owner, id);
        let mut present = false;
        if pos < self.entries.len() {
            let e = &self.entries[pos];
            present = e.owner == owner && e.id == id;
        }
        proof {
            lemma_entries_map(before);
            lemma_found_at(before, pos as int, (owner, id));
        }
        if !present {
            assert(self.view() =~= self.view().remove((owner, id)));
            return None;
        }
        let taken = self.entries.remove(pos);
        proof {
            assert(self.entries@ =~= before.remove(pos as int));
            lemma_after_remove(before, self.entries@, pos as int);
        }
        Some(taken.value)
    }

    /// The ids stored under `owner`, in ascending order.
    pub fn ids_of(&self, owner: u64) -> (r: Vec<u64>)
        requires
            self.wf(),
        ensures
            forall|i: int, j: int| 0 <= i < j < r@.len() ==> r@[i] < r@[j],
            forall|id: u64| r@.contains(id) <==> self.view().contains_key((owner, id)),
    {
        proof {
            lemma_entries_map(self.entries@);
        }
        let mut out: Vec<u64> = Vec::new();
        let ghost mut src: Seq<int> = Seq::empty();
        let mut i: usize = 0;
        while i < self.entries.len()
            invariant
                i <= self.entries@.len(),
                ascending(self.entries@),
                src.len() == out@.len(),
                forall|k: int|
                    0 <= k < out@.len() ==> 0 <= #[trigger] src[k] < i && self.entries@[src[k]].owner == owner
                        && self.entries@[src[k]].id == out@[k],
                forall|a: int, b: int| 0 <= a < b < out@.len() ==> #[trigger] src[a] < #[trigger] src[b],
                forall|n: int|
                    0 <= n < i && (#[trigger] self.entries@[n]).owner == owner ==> out@.contains(
                        self.entries@[n].id,
                    ),
            decreases self.entries@.len() - i,
        {
            let e = &self.entries[i];
            if e.owner == owner {
                let ghost prev = out@;
                out.push(e.id);
                proof {
                    src = src.push(i as int);
                    assert forall|n: int|
                        0 <= n < i + 1 && (#[trigger] self.entries@[n]).owner == owner implies out@.contains(
                        self.entries@[n].id,
                    ) by {
                        if n < i {
                            let w = choose|w: int| 0 <= w < prev.len() && prev[w] == self.entries@[n].id;
                            assert(out@[w] == self.entries@[n].id);
                        } else {
                            assert(out@[prev.len() as int] == self.entries@[n].id);
                        }
                    }
                }
            }
            i += 1;
        }
        proof {
            assert forall|a: int, b: int| 0 <= a < b < out@.len() implies out@[a] < out@[b] by {
                assert(src[a] < src[b]);
                assert(key_lt(key_of(self.entries@[src[a]]), key_of(self.entries@[src[b]])));
            }
            assert forall|id: u64| out@.contains(id) <==> self.view().contains_key((owner, id)) by {
                if out@.contains(id) {
                    let w = choose|w: int| 0 <= w < out@.len() && out@[w] == id;
                    assert(key_of(self.entries@[src[w]]) == (owner, id));
                }
                if self.view().contains_key((owner, id)) {
                    let n = choose|n: int|
                        0 <= n < self.entries@.len() && key_of(#[trigger] self.entries@[n]) == (owner, id);
                    assert(self.entries@[n].owner == owner);
                }
            }
        }
        out
    }
}

impl<V: Copy> OwnerMap<V> {
    /// A copy of the value stored under `(owner, id)`, if any.
    pub fn get(&self, owner: u64, id: u64) -> (r: Option<V>)
        requires
            self.wf(),
        ensures
            r.is_some() == self.view().contains_key((owner, id)),
            r.is_some() ==> r.unwrap() == self.view()[(owner, id)],
    {
        match self.get_ref(owner, id) {
            Some(v) => Some(*v),
            None => None,
        }
    }
}

/// An ascending sequence has as many entries as its map has keys.
proof fn lemma_entries_len<V>(s: Seq<Entry<V>>)
    requires
        ascending(s),
    ensures
        entries_map(s).dom().finite(),
        entries_map(s).dom().len() == s.len(),
    decreases s.len(),
{
    lemma_entries_finite(s);
    if s.len() == 0 {
        assert(entries_map(s).dom() =~= Set::<(u64, u64)>::empty());
    } else {
        let t = s.drop_last();
        assert(ascending(t)) by {
            assert forall|i: int, j: int| 0 <= i < j < t.len() implies key_lt(
                key_of(#[trigger] t[i]),
                key_of(#[trigger] t[j]),
            ) by {
                assert(t[i] == s[i] && t[j] == s[j]);
            }
        }
        lemma_entries_len(t);
        let k = key_of(s.last());
        assert(!entries_map(t).dom().contains(k)) by {
            if entries_map(t).dom().contains(k) {
                let i = choose|i: int| 0 <= i < t.len() && key_of(#[trigger] t[i]) == k;
                assert(t[i] == s[i]);
                assert(key_lt(key_of(s[i]), key_of(s[s.len() - 1])));
            }
        }
        assert forall|x: (u64, u64)| entries_map(s).dom().contains(x) <==> entries_map(t).dom().insert(
            k,
        ).contains(x) by {
            if entries_map(s).dom().contains(x) {
                let i = choose|i: int| 0 <= i < s.len() && key_of(#[trigger] s[i]) == x;
                if i < s.len() - 1 {
                    assert(key_of(t[i]) == x);
                }
            }
            if entries_map(t).dom().contains(x) {
                let i = choose|i: int| 0 <= i < t.len() && key_of(#[trigger] t[i]) == x;
                assert(key_of(s[i]) == x);
            }
            if x == k {
                assert(key_of(s[s.len() - 1]) == x);
            }
        }
        assert(entries_map(s).dom() =~= entries_map(t).dom().insert(k));
    }
}

} // verus!
