use vstd::prelude::*;

verus! {

/// The sum of `weight` over the values of a finite map.
pub closed spec fn total<K, V>(m: Map<K, V>, weight: spec_fn(V) -> nat) -> nat
    decreases m.dom().len(),
    when m.dom().finite()
{
    if m.dom().is_empty() {
        0
    } else {
        let k = m.dom().choose();
        proof {
            m.lemma_remove_key_len(k);
        }
        weight(m[k]) + total(m.remove(k), weight)
    }
}

/// The empty map sums to zero.
pub proof fn lemma_total_empty<K, V>(weight: spec_fn(V) -> nat)
    ensures
        total(Map::<K, V>::empty(), weight) == 0,
{
}

/// The sum can be split at any key of the map.
pub proof fn lemma_total_remove<K, V>(m: Map<K, V>, weight: spec_fn(V) -> nat, key: K)
    requires
        m.dom().finite(),
        m.contains_key(key),
    ensures
        total(m, weight) == weight(m[key]) + total(m.remove(key), weight),
    decreases m.dom().len(),
{
    let k = m.dom().choose();
    m.lemma_remove_key_len(k);
    m.lemma_remove_key_len(key);
    if k != key {
        // Split the two smaller maps at the other key each.
        lemma_total_remove(m.remove(k), weight, key);
        lemma_total_remove(m.remove(key), weight, k);
        assert(m.remove(k).remove(key) =~= m.remove(key).remove(k));
    }
}

/// Writing a value under a key replaces that key's share of the sum.
pub proof fn lemma_total_insert<K, V>(m: Map<K, V>, weight: spec_fn(V) -> nat, key: K, value: V)
    requires
        m.dom().finite(),
    ensures
        total(m.insert(key, value), weight) + (if m.contains_key(key) {
            weight(m[key])
        } else {
            0
        }) == total(m, weight) + weight(value),
{
    let after = m.insert(key, value);
    lemma_total_remove(after, weight, key);
    assert(after.remove(key) =~= m.remove(key));
    if m.contains_key(key) {
        lemma_total_remove(m, weight, key);
    } else {
        assert(m.remove(key) =~= m);
    }
}

} // verus!
