//! Keyed stores as association vectors with a `Map` view.
//!
//! The ledger keeps three keyed stores (source labels, per-subject action
//! sequences, per-source action-type lists). Each is a vector of key/value
//! entries whose keys are pairwise distinct, and each is specified through
//! `assoc_view`, the finite map from key to the value's deep view. Entry
//! order inside a store is never observable through the ledger's interface,
//! so a store may be updated by removing an entry and pushing the replacement.

use vstd::prelude::*;

verus! {

/// One entry of a keyed store.
pub struct KeyVal<V> {
    pub key: String,
    pub val: V,
}

/// The map a store denotes: each key bound to the deep view of the value
/// standing furthest right in the vector (the only one, once keys are
/// pairwise distinct).
pub open spec fn assoc_view<V: DeepView>(s: Seq<KeyVal<V>>) -> Map<Seq<char>, V::V>
    decreases s.len(),
{
    if s.len() == 0 {
        Map::empty()
    } else {
        assoc_view(s.drop_last()).insert(s.last().key@, s.last().val.deep_view())
    }
}

/// Whether some entry of the store carries key `k`.
pub open spec fn has_key<V: DeepView>(s: Seq<KeyVal<V>>, k: Seq<char>) -> bool {
    exists|i: int| 0 <= i < s.len() && s[i].key@ == k
}

/// The store's keys are pairwise distinct.
pub open spec fn keys_unique<V: DeepView>(s: Seq<KeyVal<V>>) -> bool {
    forall|i: int, j: int| 0 <= i < j < s.len() ==> s[i].key@ != s[j].key@
}

/// The map view has key `k` exactly when some entry carries it.
pub proof fn lemma_assoc_view_contains<V: DeepView>(s: Seq<KeyVal<V>>, k: Seq<char>)
    ensures
        assoc_view(s).contains_key(k) == has_key(s, k),
    decreases s.len(),
{
    if s.len() == 0 {
    } else {
        lemma_assoc_view_contains(s.drop_last(), k);
        if s.last().key@ == k {
            assert(s[s.len() - 1].key@ == k);
        } else {
            if has_key(s, k) {
                let i = choose|i: int| 0 <= i < s.len() && s[i].key@ == k;
                assert(s.drop_last()[i] == s[i]);
            }
            if has_key(s.drop_last(), k) {
                let i = choose|i: int|
                    0 <= i < s.drop_last().len() && s.drop_last()[i].key@ == k;
                assert(s[i].key@ == k);
            }
        }
    }
}

/// With pairwise distinct keys, the map view binds each entry's key to that
/// entry's value.
pub proof fn lemma_assoc_view_value<V: DeepView>(s: Seq<KeyVal<V>>, i: int)
    requires
        keys_unique(s),
        0 <= i < s.len(),
    ensures
        assoc_view(s).contains_key(s[i].key@),
        assoc_view(s)[s[i].key@] == s[i].val.deep_view(),
    decreases s.len(),
{
    if i == s.len() - 1 {
    } else {
        assert(forall|x: int| 0 <= x < s.len() - 1 ==> #[trigger] s.drop_last()[x] == s[x]);
        lemma_assoc_view_value(s.drop_last(), i);
        assert(s.last().key@ != s[i].key@);
    }
}

/// Pushing an entry inserts its binding into the map view.
pub proof fn lemma_assoc_view_push<V: DeepView>(s: Seq<KeyVal<V>>, e: KeyVal<V>)
    ensures
        assoc_view(s.push(e)) == assoc_view(s).insert(e.key@, e.val.deep_view()),
        !has_key(s, e.key@) && keys_unique(s) ==> keys_unique(s.push(e)),
{
    assert(s.push(e).drop_last() =~= s);
    assert(s.push(e).last() == e);
    if !has_key(s, e.key@) && keys_unique(s) {
        assert forall|i: int, j: int| 0 <= i < j < s.push(e).len() implies s.push(e)[i].key@
            != s.push(e)[j].key@ by {
            if j < s.len() {
                assert(s.push(e)[i] == s[i] && s.push(e)[j] == s[j]);
            } else {
                assert(s.push(e)[i] == s[i] && s.push(e)[j] == e);
            }
        }
    }
}

/// Removing the entry at index `i` removes its key's binding from the map
/// view and keeps the other keys pairwise distinct.
pub proof fn lemma_assoc_view_remove<V: DeepView>(s: Seq<KeyVal<V>>, i: int)
    requires
        keys_unique(s),
        0 <= i < s.len(),
    ensures
        assoc_view(s.remove(i)) == assoc_view(s).remove(s[i].key@),
        keys_unique(s.remove(i)),
    decreases s.len(),
{
    let k = s[i].key@;
    assert forall|a: int, b: int| 0 <= a < b < s.remove(i).len() implies s.remove(i)[a].key@
        != s.remove(i)[b].key@ by {
        let a2: int = if a < i { a } else { a + 1 };
        let b2: int = if b < i { b } else { b + 1 };
        assert(s.remove(i)[a] == s[a2] && s.remove(i)[b] == s[b2]);
    }
    if i == s.len() - 1 {
        assert(s.remove(i) =~= s.drop_last());
        assert(forall|x: int| 0 <= x < s.len() - 1 ==> #[trigger] s.drop_last()[x].key@ != k);
        lemma_assoc_view_contains(s.drop_last(), k);
        assert(!assoc_view(s.drop_last()).contains_key(k));
        assert(assoc_view(s.drop_last()).insert(k, s[i].val.deep_view()).remove(k) =~= assoc_view(
            s.drop_last(),
        ));
        assert(s[i] == s.last());
    } else {
        assert(forall|x: int| 0 <= x < s.len() - 1 ==> #[trigger] s.drop_last()[x] == s[x]);
        assert(s.remove(i).drop_last() =~= s.drop_last().remove(i));
        assert(s.remove(i).last() == s.last());
        lemma_assoc_view_remove(s.drop_last(), i);
        let lk = s.last().key@;
        let lv = s.last().val.deep_view();
        assert(lk != k);
        assert(assoc_view(s.drop_last()).remove(k).insert(lk, lv) =~= assoc_view(
            s.drop_last(),
        ).insert(lk, lv).remove(k));
    }
}

/// Looks up the index of the entry carrying `key`, if any.
pub fn find_key<V: DeepView>(entries: &Vec<KeyVal<V>>, key: &String) -> (r: Option<usize>)
    ensures
        match r {
            Some(i) => i < entries@.len() && entries@[i as int].key@ == key@,
            None => !has_key(entries@, key@),
        },
{
    let mut i: usize = 0;
    while i < entries.len()
        invariant
            i <= entries@.len(),
            forall|j: int| 0 <= j < i ==> entries@[j].key@ != key@,
        decreases entries@.len() - i,
    {
        if entries[i].key == *key {
            return Some(i);
        }
        i += 1;
    }
    None
}

} // verus!
