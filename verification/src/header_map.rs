//! Ordered `String -> String` maps (`indexmap::IndexMap`), the store behind
//! every header block and variable block of the protocol.
//!
//! The map itself is the outside crate's; what Verus knows of a map is the
//! sequence of its entries in insertion order, [`map_entries`].

use indexmap::IndexMap;
use vstd::prelude::*;

verus! {

/// Ordered map from header (or variable) name to value.
pub type HeaderMap = IndexMap<String, String>;

#[verifier::external_type_specification]
#[verifier::external_body]
#[verifier::reject_recursive_types(K)]
#[verifier::reject_recursive_types(V)]
#[verifier::reject_recursive_types(S)]
pub struct ExIndexMap<K, V, S>(IndexMap<K, V, S>);

/// One map entry, as character sequences.
pub type Entry = (Seq<char>, Seq<char>);

/// The entries of a map, in the map's iteration order.
pub uninterp spec fn map_entries(m: IndexMap<String, String>) -> Seq<(Seq<char>, Seq<char>)>;

/// Index of the first entry whose key is `k`, or -1.
pub open spec fn key_index(e: Seq<Entry>, k: Seq<char>) -> int
    decreases e.len(),
{
    if e.len() == 0 {
        -1
    } else {
        let r = key_index(e.drop_last(), k);
        if r >= 0 {
            r
        } else if e.last().0 == k {
            e.len() - 1
        } else {
            -1
        }
    }
}

/// The value stored under `k`, if any.
pub open spec fn lookup(e: Seq<Entry>, k: Seq<char>) -> Option<Seq<char>> {
    let i = key_index(e, k);
    if i >= 0 {
        Some(e[i].1)
    } else {
        None
    }
}

/// The entries after setting `k` to `v`: an existing key keeps its position,
/// a new key goes last.
pub open spec fn insert_entry(e: Seq<Entry>, k: Seq<char>, v: Seq<char>) -> Seq<Entry> {
    let i = key_index(e, k);
    if i >= 0 {
        e.update(i, (k, v))
    } else {
        e.push((k, v))
    }
}

/// The entries after removing `k`, the rest keeping their order.
pub open spec fn remove_entry(e: Seq<Entry>, k: Seq<char>) -> Seq<Entry> {
    let i = key_index(e, k);
    if i >= 0 {
        e.remove(i)
    } else {
        e
    }
}

/// No key occurs twice.
pub open spec fn keys_distinct(e: Seq<Entry>) -> bool {
    forall|i: int, j: int| 0 <= i < j < e.len() ==> e[i].0 != e[j].0
}

/// The entries built by inserting `pairs` one after the other into an empty map.
pub open spec fn entries_from_pairs(pairs: Seq<Entry>) -> Seq<Entry>
    decreases pairs.len(),
{
    if pairs.len() == 0 {
        Seq::empty()
    } else {
        insert_entry(entries_from_pairs(pairs.drop_last()), pairs.last().0, pairs.last().1)
    }
}

pub proof fn lemma_key_index_bounds(e: Seq<Entry>, k: Seq<char>)
    ensures
        -1 <= key_index(e, k) < e.len(),
        key_index(e, k) >= 0 ==> e[key_index(e, k)].0 == k,
        key_index(e, k) >= 0 ==> forall|j: int| 0 <= j < key_index(e, k) ==> e[j].0 != k,
        key_index(e, k) < 0 ==> forall|j: int| 0 <= j < e.len() ==> e[j].0 != k,
    decreases e.len(),
{
    if e.len() > 0 {
        let d = e.drop_last();
        lemma_key_index_bounds(d, k);
        assert forall|j: int| 0 <= j < d.len() implies d[j] == e[j] by {}
    }
}

/// `key_index` is the first position holding `k`.
pub proof fn lemma_key_index_is_first(e: Seq<Entry>, k: Seq<char>, i: int)
    requires
        0 <= i < e.len(),
        e[i].0 == k,
        forall|j: int| 0 <= j < i ==> e[j].0 != k,
    ensures
        key_index(e, k) == i,
{
    lemma_key_index_bounds(e, k);
}

/// `key_index` is -1 exactly when no entry holds `k`.
pub proof fn lemma_key_index_absent(e: Seq<Entry>, k: Seq<char>)
    requires
        forall|j: int| 0 <= j < e.len() ==> e[j].0 != k,
    ensures
        key_index(e, k) == -1,
{
    lemma_key_index_bounds(e, k);
}

/// Inserting keeps keys distinct.
pub proof fn lemma_insert_keeps_distinct(e: Seq<Entry>, k: Seq<char>, v: Seq<char>)
    requires
        keys_distinct(e),
    ensures
        keys_distinct(insert_entry(e, k, v)),
        lookup(insert_entry(e, k, v), k) == Some(v),
{
    lemma_key_index_bounds(e, k);
    let e2 = insert_entry(e, k, v);
    let i = key_index(e, k);
    if i >= 0 {
        lemma_key_index_is_first(e2, k, i);
    } else {
        assert forall|j: int| 0 <= j < e2.len() - 1 implies e2[j].0 != k by {}
        lemma_key_index_is_first(e2, k, e2.len() - 1);
    }
}

/// Looking up a different key after an insert sees the old value.
pub proof fn lemma_insert_other(e: Seq<Entry>, k: Seq<char>, v: Seq<char>, k2: Seq<char>)
    requires
        k2 != k,
    ensures
        lookup(insert_entry(e, k, v), k2) == lookup(e, k2),
{
    lemma_key_index_bounds(e, k);
    lemma_key_index_bounds(e, k2);
    let e2 = insert_entry(e, k, v);
    let i2 = key_index(e, k2);
    if i2 >= 0 {
        lemma_key_index_is_first(e2, k2, i2);
    } else {
        assert forall|j: int| 0 <= j < e2.len() implies e2[j].0 != k2 by {}
        lemma_key_index_absent(e2, k2);
    }
}

/// Removing `k` leaves it absent and the others as they were.
pub proof fn lemma_remove(e: Seq<Entry>, k: Seq<char>, k2: Seq<char>)
    requires
        keys_distinct(e),
    ensures
        lookup(remove_entry(e, k), k) is None,
        k2 != k ==> lookup(remove_entry(e, k), k2) == lookup(e, k2),
        keys_distinct(remove_entry(e, k)),
{
    lemma_key_index_bounds(e, k);
    lemma_key_index_bounds(e, k2);
    let e2 = remove_entry(e, k);
    let i = key_index(e, k);
    if i >= 0 {
        assert forall|j: int| 0 <= j < e2.len() implies e2[j].0 != k by {
            if j < i {
            } else {
                assert(e2[j] == e[j + 1]);
            }
        }
        lemma_key_index_absent(e2, k);
        if k2 != k {
            let i2 = key_index(e, k2);
            if i2 >= 0 {
                if i2 < i {
                    lemma_key_index_is_first(e2, k2, i2);
                } else {
                    assert(e2[i2 - 1] == e[i2]);
                    assert forall|j: int| 0 <= j < i2 - 1 implies e2[j].0 != k2 by {
                        if j >= i {
                            assert(e2[j] == e[j + 1]);
                        }
                    }
                    lemma_key_index_is_first(e2, k2, i2 - 1);
                }
            } else {
                assert forall|j: int| 0 <= j < e2.len() implies e2[j].0 != k2 by {
                    if j >= i {
                        assert(e2[j] == e[j + 1]);
                    }
                }
                lemma_key_index_absent(e2, k2);
            }
        }
        assert forall|a: int, b: int| 0 <= a < b < e2.len() implies e2[a].0 != e2[b].0 by {
            let a1 = if a < i { a } else { a + 1 };
            let b1 = if b < i { b } else { b + 1 };
            assert(e2[a] == e[a1]);
            assert(e2[b] == e[b1]);
        }
    } else {
        lemma_key_index_absent(e2, k);
    }
}

/// The entries after setting each of `pairs`, in order, on `e`.
pub open spec fn insert_all(e: Seq<Entry>, pairs: Seq<Entry>) -> Seq<Entry>
    decreases pairs.len(),
{
    if pairs.len() == 0 {
        e
    } else {
        let prev = insert_all(e, pairs.drop_last());
        insert_entry(prev, pairs.last().0, pairs.last().1)
    }
}

/// Setting distinct entries one by one on an empty map rebuilds them.
pub proof fn lemma_insert_all_distinct(pairs: Seq<Entry>)
    requires
        keys_distinct(pairs),
    ensures
        insert_all(Seq::empty(), pairs) == pairs,
    decreases pairs.len(),
{
    if pairs.len() > 0 {
        let d = pairs.drop_last();
        assert(keys_distinct(d));
        lemma_insert_all_distinct(d);
        assert forall|j: int| 0 <= j < d.len() implies d[j].0 != pairs.last().0 by {
            assert(d[j] == pairs[j]);
        }
        lemma_key_index_absent(d, pairs.last().0);
        assert(d.push(pairs.last()) =~= pairs);
    }
}

// ---------------------------------------------------------------------------
// Trusted calls into `indexmap`
// ---------------------------------------------------------------------------

/// `IndexMap`'s `Clone`, which a derived `Clone` of a type holding a map
/// calls. Nothing is stated of the copy: the entries of a generic map have
/// no view here.
pub assume_specification<K, V, S>[ <IndexMap<K, V, S> as Clone>::clone ](
    m: &IndexMap<K, V, S>,
) -> IndexMap<K, V, S>
    where
        K: Clone,
        S: Clone,
        V: Clone,
;

/// Calls `IndexMap::new`, which makes an empty map.
#[verifier::external_body]
pub fn map_new() -> (m: HeaderMap)
    ensures
        map_entries(m) == Seq::<Entry>::empty(),
{
    IndexMap::new()
}

/// Calls `IndexMap::insert`: an existing key keeps its position and takes the
/// new value; a new key is appended at the end.
#[verifier::external_body]
pub fn map_insert(m: &mut HeaderMap, k: String, v: String)
    ensures
        map_entries(*final(m)) == insert_entry(map_entries(*old(m)), k@, v@),
{
    m.insert(k, v);
}

/// Calls `IndexMap::get`: the value of the entry whose key is `k`.
#[verifier::external_body]
pub fn map_get<'a>(m: &'a HeaderMap, k: &str) -> (r: Option<&'a String>)
    ensures
        match r {
            Some(v) => lookup(map_entries(*m), k@) == Some(v@),
            None => lookup(map_entries(*m), k@) is None,
        },
{
    m.get(k)
}

/// Calls `IndexMap::shift_remove`: drops the entry for `k`, keeping the order
/// of the others, and returns its value.
#[verifier::external_body]
pub fn map_remove(m: &mut HeaderMap, k: &str) -> (r: Option<String>)
    ensures
        map_entries(*final(m)) == remove_entry(map_entries(*old(m)), k@),
        match r {
            Some(v) => lookup(map_entries(*old(m)), k@) == Some(v@),
            None => lookup(map_entries(*old(m)), k@) is None,
        },
{
    m.shift_remove(k)
}

/// Calls `IndexMap::len`, the number of entries.
#[verifier::external_body]
pub fn map_len(m: &HeaderMap) -> (n: usize)
    ensures
        n == map_entries(*m).len(),
{
    m.len()
}

/// Calls `IndexMap::get_index`: the entry at position `i`.
#[verifier::external_body]
pub fn map_get_index<'a>(m: &'a HeaderMap, i: usize) -> (r: (&'a String, &'a String))
    requires
        i < map_entries(*m).len(),
    ensures
        (r.0@, r.1@) == map_entries(*m)[i as int],
{
    m.get_index(i).unwrap()
}

// ---------------------------------------------------------------------------
// Verified helpers
// ---------------------------------------------------------------------------

/// The value stored under `k`, as a `&str`.
pub fn map_get_str<'a>(m: &'a HeaderMap, k: &str) -> (r: Option<&'a str>)
    ensures
        match r {
            Some(v) => lookup(map_entries(*m), k@) == Some(v@),
            None => lookup(map_entries(*m), k@) is None,
        },
{
    match map_get(m, k) {
        Some(v) => Some(v.as_str()),
        None => None,
    }
}

/// Sets `k` to `v`, taking both as slices.
pub fn map_set(m: &mut HeaderMap, k: &str, v: &str)
    ensures
        map_entries(*final(m)) == insert_entry(map_entries(*old(m)), k@, v@),
{
    map_insert(m, k.to_owned(), v.to_owned());
}

/// A copy of `m` with the same entries.
pub(crate) fn map_copy(m: &HeaderMap) -> (r: HeaderMap)
    requires
        keys_distinct(map_entries(*m)),
    ensures
        map_entries(r) == map_entries(*m),
{
    let mut r = map_new();
    let n = map_len(m);
    let mut i: usize = 0;
    while i < n
        invariant
            n == map_entries(*m).len(),
            i <= n,
            keys_distinct(map_entries(*m)),
            map_entries(r) == map_entries(*m).take(i as int),
        decreases n - i,
    {
        let (k, v) = map_get_index(m, i);
        proof {
            let e = map_entries(*m).take(i as int);
            assert forall|j: int| 0 <= j < e.len() implies e[j].0 != k@ by {}
            lemma_key_index_absent(e, k@);
            assert(map_entries(*m).take(i + 1) =~= e.push((k@, v@)));
        }
        map_insert(&mut r, k.clone(), v.clone());
        i += 1;
    }
    assert(map_entries(*m).take(n as int) =~= map_entries(*m));
    r
}

} // verus!
