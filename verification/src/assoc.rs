//! Facts about association lists: a sequence of distinct keys, a parallel
//! sequence of values, and the map they describe.
use vstd::prelude::*;

verus! {

/// `keys` and `values` describe map `m`: the keys are distinct, the map's
/// domain is the key set, and each key maps to the value at its position.
pub open spec fn assoc_wf<K, V>(keys: Seq<K>, values: Seq<V>, m: Map<K, V>) -> bool {
    &&& keys.len() == values.len()
    &&& keys.no_duplicates()
    &&& m.dom() == keys.to_set()
    &&& forall|i: int| 0 <= i < keys.len() ==> #[trigger] m[keys[i]] == values[i]
}

/// An empty list describes the empty map.
pub proof fn lemma_assoc_empty<K, V>()
    ensures
        assoc_wf(Seq::<K>::empty(), Seq::<V>::empty(), Map::<K, V>::empty()),
{
    assert(Seq::<K>::empty().to_set() =~= Set::<K>::empty());
}

/// The value at position `i` is what the map gives for the key there.
pub proof fn lemma_assoc_at<K, V>(keys: Seq<K>, values: Seq<V>, m: Map<K, V>, i: int)
    requires
        assoc_wf(keys, values, m),
        0 <= i < keys.len(),
    ensures
        m.contains_key(keys[i]),
        m[keys[i]] == values[i],
{
    assert(keys.to_set().contains(keys[i]));
}

/// A key absent from the list is absent from the map.
pub proof fn lemma_assoc_absent<K, V>(keys: Seq<K>, values: Seq<V>, m: Map<K, V>, k: K)
    requires
        assoc_wf(keys, values, m),
        !keys.contains(k),
    ensures
        !m.contains_key(k),
{
    if m.contains_key(k) {
        assert(keys.to_set().contains(k));
    }
}

/// Replacing the value at position `i` replaces the map's value for that key.
pub proof fn lemma_assoc_set<K, V>(keys: Seq<K>, values: Seq<V>, m: Map<K, V>, i: int, v: V)
    requires
        assoc_wf(keys, values, m),
        0 <= i < keys.len(),
    ensures
        assoc_wf(keys, values.update(i, v), m.insert(keys[i], v)),
{
    assert(keys.to_set().contains(keys[i]));
    assert(m.insert(keys[i], v).dom() =~= keys.to_set());
    assert forall|j: int| 0 <= j < keys.len() implies #[trigger] m.insert(keys[i], v)[keys[j]]
        == values.update(i, v)[j] by {
        if j != i {
            assert(keys[j] != keys[i]);
        }
    }
}

/// Appending a new key adds it to the map.
pub proof fn lemma_assoc_push<K, V>(keys: Seq<K>, values: Seq<V>, m: Map<K, V>, k: K, v: V)
    requires
        assoc_wf(keys, values, m),
        !keys.contains(k),
    ensures
        assoc_wf(keys.push(k), values.push(v), m.insert(k, v)),
{
    let ks = keys.push(k);
    assert forall|a: int, b: int| 0 <= a < b < ks.len() implies ks[a] != ks[b] by {
        if b == keys.len() {
            assert(keys.contains(keys[a]));
        }
    }
    assert forall|x: K| #[trigger] ks.to_set().contains(x) == (keys.to_set().contains(x) || x == k) by {
        if keys.to_set().contains(x) {
            let t = choose|t: int| 0 <= t < keys.len() && keys[t] == x;
            assert(ks[t] == x);
        }
        if x == k {
            assert(ks[keys.len() as int] == k);
        }
        if ks.to_set().contains(x) {
            let t = choose|t: int| 0 <= t < ks.len() && ks[t] == x;
            if t < keys.len() {
                assert(keys[t] == x);
            }
        }
    }
    assert(m.insert(k, v).dom() =~= ks.to_set());
    assert forall|j: int| 0 <= j < ks.len() implies #[trigger] m.insert(k, v)[ks[j]] == values.push(v)[j] by {
        if j < keys.len() {
            assert(keys.contains(keys[j]));
            assert(keys[j] != k);
        }
    }
}

} // verus!
