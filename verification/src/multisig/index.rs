//! The insertion-ordered map in which a purge collects the transactions to
//! update. It is `indexmap::IndexMap`, from transaction id to the position
//! at which the transaction was met.

use indexmap::IndexMap;
use vstd::prelude::*;

verus! {

/// `indexmap::IndexMap`, a map that keeps its pairs in the order in which
/// their keys were first inserted.
#[verifier::external_type_specification]
#[verifier::external_body]
#[verifier::reject_recursive_types(K)]
#[verifier::reject_recursive_types(V)]
#[verifier::reject_recursive_types(S)]
pub struct ExIndexMap<K, V, S>(indexmap::IndexMap<K, V, S>);

/// The key-value pairs of the map, in its order.
pub uninterp spec fn index_entries(m: IndexMap<i64, usize>) -> Seq<(i64, usize)>;

/// Position of the first of the first `n` pairs that has `key`, if any.
pub open spec fn key_position(s: Seq<(i64, usize)>, key: i64, n: int) -> Option<int>
    decreases n,
{
    if n <= 0 {
        None
    } else if key_position(s, key, n - 1).is_some() {
        key_position(s, key, n - 1)
    } else if s[n - 1].0 == key {
        Some(n - 1)
    } else {
        None
    }
}

/// The pairs after `(key, value)` is inserted: where the key is present,
/// its pair keeps its place and takes the new value; where it is not, the
/// pair is added last.
pub open spec fn inserted(s: Seq<(i64, usize)>, key: i64, value: usize) -> Seq<(i64, usize)> {
    match key_position(s, key, s.len() as int) {
        Some(i) => s.update(i, (key, value)),
        None => s.push((key, value)),
    }
}

/// Whether one of the pairs has `key`.
pub open spec fn has_key(s: Seq<(i64, usize)>, key: i64) -> bool {
    exists|i: int| 0 <= i < s.len() && (#[trigger] s[i]).0 == key
}

/// The keys of the pairs are all different.
pub open spec fn distinct_keys(s: Seq<(i64, usize)>) -> bool {
    forall|i: int, j: int| 0 <= i < j < s.len() ==> (#[trigger] s[i]).0 != (#[trigger] s[j]).0
}

/// `IndexMap::new`: a map without pairs.
#[verifier::external_body]
pub(crate) fn index_new() -> (r: IndexMap<i64, usize>)
    ensures
        index_entries(r) == Seq::<(i64, usize)>::empty(),
{
    IndexMap::new()
}

/// `IndexMap::insert`: a key that is present keeps its place in the order
/// and takes the new value; a key that is not is added last.
#[verifier::external_body]
pub(crate) fn index_insert(m: &mut IndexMap<i64, usize>, key: i64, value: usize)
    ensures
        index_entries(*final(m)) == inserted(index_entries(*old(m)), key, value),
{
    m.insert(key, value);
}

/// `IndexMap::iter`, collected: the pairs in the map's order.
#[verifier::external_body]
pub(crate) fn index_list(m: &IndexMap<i64, usize>) -> (r: Vec<(i64, usize)>)
    ensures
        r@ == index_entries(*m),
{
    m.iter().map(|(k, v)| (*k, *v)).collect()
}

/// Where the first pair with a key stands, when there is one.
pub proof fn lemma_key_position(s: Seq<(i64, usize)>, key: i64, n: int)
    requires
        0 <= n <= s.len(),
    ensures
        match key_position(s, key, n) {
            Some(i) => 0 <= i < n && s[i].0 == key,
            None => forall|i: int| 0 <= i < n ==> (#[trigger] s[i]).0 != key,
        },
    decreases n,
{
    if n > 0 {
        lemma_key_position(s, key, n - 1);
    }
}

/// Inserting keeps the keys different, keeps every key that was there, and
/// adds the key inserted and no other.
pub proof fn lemma_inserted(s: Seq<(i64, usize)>, key: i64, value: usize)
    requires
        distinct_keys(s),
    ensures
        distinct_keys(inserted(s, key, value)),
        has_key(inserted(s, key, value), key),
        forall|k: i64| has_key(s, k) ==> has_key(inserted(s, key, value), k),
        forall|k: i64| has_key(inserted(s, key, value), k) ==> k == key || has_key(s, k),
{
    lemma_key_position(s, key, s.len() as int);
    let t = inserted(s, key, value);
    match key_position(s, key, s.len() as int) {
        Some(p) => {
            assert(t[p].0 == key);
            assert forall|k: i64| has_key(s, k) implies has_key(t, k) by {
                let i = choose|i: int| 0 <= i < s.len() && (#[trigger] s[i]).0 == k;
                assert(t[i].0 == k);
            }
            assert forall|k: i64| has_key(t, k) implies k == key || has_key(s, k) by {
                let i = choose|i: int| 0 <= i < t.len() && (#[trigger] t[i]).0 == k;
                assert(s[i].0 == k);
            }
            assert forall|i: int, j: int| 0 <= i < j < t.len() implies (#[trigger] t[i]).0 != (#[trigger] t[j]).0 by {
                assert(t[i].0 == s[i].0);
                assert(t[j].0 == s[j].0);
            }
        },
        None => {
            assert(t[s.len() as int].0 == key);
            assert forall|k: i64| has_key(s, k) implies has_key(t, k) by {
                let i = choose|i: int| 0 <= i < s.len() && (#[trigger] s[i]).0 == k;
                assert(t[i].0 == k);
            }
            assert forall|k: i64| has_key(t, k) implies k == key || has_key(s, k) by {
                let i = choose|i: int| 0 <= i < t.len() && (#[trigger] t[i]).0 == k;
                if i < s.len() {
                    assert(s[i].0 == k);
                }
            }
            assert forall|i: int, j: int| 0 <= i < j < t.len() implies (#[trigger] t[i]).0 != (#[trigger] t[j]).0 by {
                if j < s.len() {
                    assert(t[i] == s[i] && t[j] == s[j]);
                } else {
                    assert(t[i] == s[i]);
                }
            }
        },
    }
}

} // verus!
