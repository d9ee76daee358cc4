//! Keyed tables laid out as a sequence of keys beside a sequence of values.
//!
//! The stores of the ledger keep their records in a vector and are read as
//! maps. This module says which map two such sequences stand for, and how the
//! map changes when the sequences do.

use vstd::prelude::*;

verus! {

/// The map that sends `keys[i]` to `vals[i]`.
pub open spec fn table<K, V>(keys: Seq<K>, vals: Seq<V>) -> Map<K, V> {
    Map::new(|k: K| keys.contains(k), |k: K| vals[keys.index_of(k)])
}

/// Where no key occurs twice, the entry at index `i` is found under `keys[i]`.
pub proof fn lemma_table_at<K, V>(keys: Seq<K>, vals: Seq<V>, i: int)
    requires
        keys.no_duplicates(),
        keys.len() == vals.len(),
        0 <= i < keys.len(),
    ensures
        table(keys, vals).contains_key(keys[i]),
        table(keys, vals)[keys[i]] == vals[i],
{
}

/// Appending an entry under a key that is not there yet inserts it.
pub proof fn lemma_table_push<K, V>(keys: Seq<K>, vals: Seq<V>, k: K, v: V)
    requires
        keys.no_duplicates(),
        keys.len() == vals.len(),
        !keys.contains(k),
    ensures
        keys.push(k).no_duplicates(),
        table(keys.push(k), vals.push(v)) == table(keys, vals).insert(k, v),
{
    let keys2 = keys.push(k);
    let vals2 = vals.push(v);
    let inserted = table(keys, vals).insert(k, v);
    assert forall|q: K| #[trigger] inserted.contains_key(q) implies table(keys2, vals2).contains_key(
        q,
    ) && table(keys2, vals2)[q] == inserted[q] by {
        let i = if q == k {
            keys.len() as int
        } else {
            keys.index_of(q)
        };
        lemma_table_at(keys2, vals2, i);
    }
    assert forall|q: K| #[trigger] table(keys2, vals2).contains_key(q) implies inserted.contains_key(
        q,
    ) by {
        let i = keys2.index_of(q);
        assert(i < keys.len() ==> keys[i] == q);
    }
}

/// Replacing the value at index `i` replaces what is found under `keys[i]`.
pub proof fn lemma_table_update<K, V>(keys: Seq<K>, vals: Seq<V>, i: int, v: V)
    requires
        keys.no_duplicates(),
        keys.len() == vals.len(),
        0 <= i < keys.len(),
    ensures
        table(keys, vals.update(i, v)) == table(keys, vals).insert(keys[i], v),
{
}

} // verus!
