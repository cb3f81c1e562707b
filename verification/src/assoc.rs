//! Lists that stand for maps: a list of keys without repetition and a list of
//! values of the same length.

use vstd::prelude::*;

verus! {

/// Whether no key occurs twice.
pub open spec fn no_repeats<K>(keys: Seq<K>) -> bool {
    keys.no_duplicates()
}

/// A place at which the key occurs.
pub open spec fn place_of<K>(keys: Seq<K>, key: K) -> int {
    choose|i: int| 0 <= i < keys.len() && keys[i] == key
}

/// The map from each key to the value at its place.
pub open spec fn paired<K, V>(keys: Seq<K>, values: Seq<V>) -> Map<K, V> {
    Map::new(|k: K| keys.contains(k), |k: K| values[place_of(keys, k)])
}

/// In a list without repetition each key has one place.
pub proof fn lemma_place<K, V>(keys: Seq<K>, values: Seq<V>, i: int)
    requires
        no_repeats(keys),
        keys.len() == values.len(),
        0 <= i < keys.len(),
    ensures
        keys.contains(keys[i]),
        place_of(keys, keys[i]) == i,
        paired(keys, values).contains_key(keys[i]),
        paired(keys, values)[keys[i]] == values[i],
{
    let j = place_of(keys, keys[i]);
    assert(0 <= j < keys.len() && keys[j] == keys[i]);
}

/// A key that occurs has a place.
pub proof fn lemma_contained<K, V>(keys: Seq<K>, values: Seq<V>, key: K)
    requires
        no_repeats(keys),
        keys.len() == values.len(),
        keys.contains(key),
    ensures
        0 <= place_of(keys, key) < keys.len(),
        keys[place_of(keys, key)] == key,
        paired(keys, values)[key] == values[place_of(keys, key)],
{
    let i = choose|i: int| 0 <= i < keys.len() && keys[i] == key;
    assert(keys[i] == key);
}

/// Nothing is paired with an empty list.
pub proof fn lemma_paired_empty<K, V>(keys: Seq<K>, values: Seq<V>)
    requires
        keys.len() == 0,
    ensures
        paired(keys, values) == Map::<K, V>::empty(),
{
    assert(paired(keys, values) =~= Map::<K, V>::empty());
}

/// Adding a new key at the end inserts it into the map.
pub proof fn lemma_paired_push<K, V>(keys: Seq<K>, values: Seq<V>, key: K, value: V)
    requires
        no_repeats(keys),
        keys.len() == values.len(),
        !keys.contains(key),
    ensures
        no_repeats(keys.push(key)),
        paired(keys.push(key), values.push(value)) == paired(keys, values).insert(key, value),
{
    let ks = keys.push(key);
    let vs = values.push(value);
    let n = keys.len() as int;
    assert forall|i: int, j: int| 0 <= i < ks.len() && 0 <= j < ks.len() && i != j implies ks[i]
        != ks[j] by {
        if j == n {
            assert(keys[i] == ks[i]);
            assert(keys.contains(ks[i]));
        } else if i == n {
            assert(keys[j] == ks[j]);
            assert(keys.contains(ks[j]));
        }
    }
    assert forall|k: K| ks.contains(k) == (keys.contains(k) || k == key) by {
        if keys.contains(k) {
            let i = place_of(keys, k);
            lemma_contained(keys, values, k);
            assert(ks[i] == k);
        }
        if k == key {
            assert(ks[n] == k);
        }
        if ks.contains(k) {
            let i = choose|i: int| 0 <= i < ks.len() && ks[i] == k;
            if i < n {
                assert(keys[i] == k);
            }
        }
    }
    assert forall|k: K| ks.contains(k) implies #[trigger] paired(ks, vs)[k] == paired(
        keys,
        values,
    ).insert(key, value)[k] by {
        lemma_contained(ks, vs, k);
        let i = place_of(ks, k);
        if i < n {
            assert(keys[i] == k);
            lemma_place(keys, values, i);
        }
    }
    assert(paired(ks, vs) =~= paired(keys, values).insert(key, value));
}

/// Replacing the value at the place of a key replaces it in the map.
pub proof fn lemma_paired_update<K, V>(keys: Seq<K>, values: Seq<V>, i: int, value: V)
    requires
        no_repeats(keys),
        keys.len() == values.len(),
        0 <= i < keys.len(),
    ensures
        paired(keys, values.update(i, value)) == paired(keys, values).insert(keys[i], value),
{
    let vs = values.update(i, value);
    lemma_place(keys, values, i);
    assert forall|k: K| keys.contains(k) implies #[trigger] paired(keys, vs)[k] == paired(
        keys,
        values,
    ).insert(keys[i], value)[k] by {
        lemma_contained(keys, vs, k);
        lemma_contained(keys, values, k);
    }
    assert(paired(keys, vs) =~= paired(keys, values).insert(keys[i], value));
}

/// Taking out the place of a key removes it from the map.
pub proof fn lemma_paired_remove<K, V>(keys: Seq<K>, values: Seq<V>, i: int)
    requires
        no_repeats(keys),
        keys.len() == values.len(),
        0 <= i < keys.len(),
    ensures
        no_repeats(keys.remove(i)),
        paired(keys.remove(i), values.remove(i)) == paired(keys, values).remove(keys[i]),
{
    let ks = keys.remove(i);
    let vs = values.remove(i);
    let key = keys[i];
    assert forall|a: int, b: int| 0 <= a < ks.len() && 0 <= b < ks.len() && a != b implies ks[a]
        != ks[b] by {
        let a0 = if a < i { a } else { a + 1 };
        let b0 = if b < i { b } else { b + 1 };
        assert(ks[a] == keys[a0] && ks[b] == keys[b0]);
    }
    assert forall|k: K| ks.contains(k) == (keys.contains(k) && k != key) by {
        if keys.contains(k) && k != key {
            lemma_contained(keys, values, k);
            let j = place_of(keys, k);
            let j1 = if j < i { j } else { j - 1 };
            assert(ks[j1] == k);
        }
        if ks.contains(k) {
            let j = choose|j: int| 0 <= j < ks.len() && ks[j] == k;
            let j0 = if j < i { j } else { j + 1 };
            assert(keys[j0] == k);
            if k == key {
                lemma_place(keys, values, j0);
                lemma_place(keys, values, i);
            }
        }
    }
    assert forall|k: K| ks.contains(k) implies #[trigger] paired(ks, vs)[k] == paired(
        keys,
        values,
    ).remove(key)[k] by {
        lemma_contained(ks, vs, k);
        let j = place_of(ks, k);
        let j0 = if j < i { j } else { j + 1 };
        assert(keys[j0] == k);
        lemma_place(keys, values, j0);
    }
    assert(paired(ks, vs) =~= paired(keys, values).remove(key));
}

/// What is kept of a list without repetition has no repetition.
pub proof fn lemma_filter_no_repeats<K>(keys: Seq<K>, wanted: spec_fn(K) -> bool)
    requires
        no_repeats(keys),
    ensures
        no_repeats(keys.filter(wanted)),
    decreases keys.len(),
{
    reveal(Seq::filter);
    if keys.len() > 0 {
        let rest = keys.drop_last();
        lemma_filter_no_repeats(rest, wanted);
        let kept = rest.filter(wanted);
        if wanted(keys.last()) {
            let out = kept.push(keys.last());
            assert forall|i: int, j: int|
                0 <= i < out.len() && 0 <= j < out.len() && i != j implies out[i] != out[j] by {
                if i == kept.len() || j == kept.len() {
                    let other = if i == kept.len() { j } else { i };
                    assert(kept.contains(kept[other]));
                    rest.lemma_filter_contains_rev(wanted, kept[other]);
                    let k = choose|k: int| 0 <= k < rest.len() && rest[k] == kept[other];
                    assert(keys[k] == kept[other]);
                }
            }
        }
    }
}

} // verus!
