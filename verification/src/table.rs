//! Association tables: a sequence of distinct text keys beside a sequence of
//! values of the same length. The stores of this crate keep such tables in two
//! parallel vectors and speak of them in contracts as finite maps.

use vstd::prelude::*;

verus! {

/// A table is well formed when every key has its value and no key occurs twice.
pub open spec fn table_wf<V>(keys: Seq<Seq<char>>, vals: Seq<V>) -> bool {
    keys.len() == vals.len() && keys.no_duplicates()
}

/// The finite map that pairs `keys[i]` with `vals[i]`.
pub open spec fn table_map<V>(keys: Seq<Seq<char>>, vals: Seq<V>) -> Map<Seq<char>, V> {
    Map::new(|k: Seq<char>| keys.contains(k), |k: Seq<char>| vals[keys.index_of(k)])
}

/// In a sequence without duplicates every element is found at its own index.
pub proof fn lemma_index_of_distinct(keys: Seq<Seq<char>>, i: int)
    requires
        keys.no_duplicates(),
        0 <= i < keys.len(),
    ensures
        keys.contains(keys[i]),
        keys.index_of(keys[i]) == i,
{
    let j = keys.index_of(keys[i]);
    assert(0 <= j < keys.len() && keys[j] == keys[i]);
}

/// The entry at index `i` of a well-formed table is the map's entry for `keys[i]`.
pub proof fn lemma_table_entry<V>(keys: Seq<Seq<char>>, vals: Seq<V>, i: int)
    requires
        table_wf(keys, vals),
        0 <= i < keys.len(),
    ensures
        table_map(keys, vals).contains_key(keys[i]),
        table_map(keys, vals)[keys[i]] == vals[i],
{
    lemma_index_of_distinct(keys, i);
}

/// The keys of the map are the keys of the table.
pub proof fn lemma_table_dom<V>(keys: Seq<Seq<char>>, vals: Seq<V>)
    ensures
        table_map(keys, vals).dom() =~= keys.to_set(),
        table_map(keys, vals).dom().finite(),
{
    vstd::seq_lib::seq_to_set_is_finite(keys);
}

/// Appending a fresh key with its value inserts that pair into the map.
pub proof fn lemma_table_push<V>(keys: Seq<Seq<char>>, vals: Seq<V>, k: Seq<char>, v: V)
    requires
        table_wf(keys, vals),
        !keys.contains(k),
    ensures
        table_wf(keys.push(k), vals.push(v)),
        table_map(keys.push(k), vals.push(v)) =~= table_map(keys, vals).insert(k, v),
{
    let keys2 = keys.push(k);
    let vals2 = vals.push(v);
    assert forall|i: int, j: int|
        0 <= i < keys2.len() && 0 <= j < keys2.len() && i != j implies keys2[i] != keys2[j] by {
        if i < keys.len() {
            assert(keys.contains(keys[i]));
        }
        if j < keys.len() {
            assert(keys.contains(keys[j]));
        }
    }
    assert forall|x: Seq<char>| #[trigger] keys2.contains(x) <==> (keys.contains(x) || x == k) by {
        if keys.contains(x) {
            let i = keys.index_of(x);
            assert(keys2[i] == x);
        }
        if x == k {
            assert(keys2[keys.len() as int] == x);
        }
        if keys2.contains(x) {
            let i = keys2.index_of(x);
            if i < keys.len() {
                assert(keys[i] == x);
            }
        }
    }
    assert forall|x: Seq<char>| #[trigger] keys2.contains(x) implies table_map(keys2, vals2)[x]
        == table_map(keys, vals).insert(k, v)[x] by {
        let i = keys2.index_of(x);
        lemma_index_of_distinct(keys2, i);
        if i < keys.len() {
            lemma_index_of_distinct(keys, i);
        }
    }
}

/// Replacing the value at index `i` replaces the map's entry for `keys[i]`.
pub proof fn lemma_table_update<V>(keys: Seq<Seq<char>>, vals: Seq<V>, i: int, v: V)
    requires
        table_wf(keys, vals),
        0 <= i < keys.len(),
    ensures
        table_wf(keys, vals.update(i, v)),
        table_map(keys, vals.update(i, v)) =~= table_map(keys, vals).insert(keys[i], v),
{
    lemma_index_of_distinct(keys, i);
    assert forall|x: Seq<char>| #[trigger] keys.contains(x) implies table_map(
        keys,
        vals.update(i, v),
    )[x] == table_map(keys, vals).insert(keys[i], v)[x] by {
        let j = keys.index_of(x);
        lemma_index_of_distinct(keys, j);
    }
}

/// Removing index `i` from both sequences removes `keys[i]` from the map.
pub proof fn lemma_table_remove<V>(keys: Seq<Seq<char>>, vals: Seq<V>, i: int)
    requires
        table_wf(keys, vals),
        0 <= i < keys.len(),
    ensures
        table_wf(keys.remove(i), vals.remove(i)),
        !keys.remove(i).contains(keys[i]),
        table_map(keys.remove(i), vals.remove(i)) =~= table_map(keys, vals).remove(keys[i]),
{
    let keys2 = keys.remove(i);
    let vals2 = vals.remove(i);
    assert forall|a: int, b: int|
        0 <= a < keys2.len() && 0 <= b < keys2.len() && a != b implies keys2[a] != keys2[b] by {
        let a0 = if a < i { a } else { a + 1 };
        let b0 = if b < i { b } else { b + 1 };
        assert(keys2[a] == keys[a0] && keys2[b] == keys[b0]);
    }
    assert forall|x: Seq<char>| #[trigger] keys2.contains(x) <==> (keys.contains(x) && x
        != keys[i]) by {
        if keys2.contains(x) {
            let a = keys2.index_of(x);
            let a0 = if a < i { a } else { a + 1 };
            assert(keys[a0] == x);
        }
        if keys.contains(x) && x != keys[i] {
            let a0 = keys.index_of(x);
            let a = if a0 < i { a0 } else { a0 - 1 };
            assert(keys2[a] == x);
        }
    }
    assert forall|x: Seq<char>| #[trigger] keys2.contains(x) implies table_map(keys2, vals2)[x]
        == table_map(keys, vals).remove(keys[i])[x] by {
        let a = keys2.index_of(x);
        lemma_index_of_distinct(keys2, a);
        let a0 = if a < i { a } else { a + 1 };
        assert(keys[a0] == x);
        lemma_index_of_distinct(keys, a0);
    }
}

/// Finds the index at which `key` stands among `keys`.
pub fn find_key(keys: &Vec<String>, key: &str) -> (r: Option<usize>)
    ensures
        match r {
            Some(i) => i < keys.len() && keys.deep_view()[i as int] == key@,
            None => !keys.deep_view().contains(key@),
        },
{
    let wanted: String = key.to_owned();
    let mut i: usize = 0;
    while i < keys.len()
        invariant
            i <= keys.len(),
            wanted@ == key@,
            forall|j: int| 0 <= j < i ==> keys.deep_view()[j] != key@,
        decreases keys.len() - i,
    {
        if keys[i] == wanted {
            return Some(i);
        }
        i += 1;
    }
    None
}

} // verus!
