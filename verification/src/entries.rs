//! An insertion-ordered map, as a sequence of its entries: what an `IndexMap`
//! holds, and what `insert` does to it.

use vstd::prelude::*;

verus! {

/// Where the entry with key `k` sits, if there is one.
pub open spec fn key_index<K, V>(e: Seq<(K, V)>, k: K) -> Option<int>
    decreases e.len(),
{
    if e.len() == 0 {
        None
    } else {
        match key_index(e.drop_last(), k) {
            Some(i) => Some(i),
            None => if e.last().0 == k {
                Some(e.len() - 1)
            } else {
                None
            },
        }
    }
}

/// The value stored under `k`, if any.
pub open spec fn lookup<K, V>(e: Seq<(K, V)>, k: K) -> Option<V> {
    match key_index(e, k) {
        Some(i) => Some(e[i].1),
        None => None,
    }
}

/// No key occurs twice.
pub open spec fn distinct_keys<K, V>(e: Seq<(K, V)>) -> bool {
    forall|i: int, j: int| 0 <= i < j < e.len() ==> e[i].0 != e[j].0
}

/// Inserting `k` with `v`: a key already there keeps its place and takes the
/// new value; a new key goes last.
pub open spec fn inserted<K, V>(e: Seq<(K, V)>, k: K, v: V) -> Seq<(K, V)> {
    match key_index(e, k) {
        Some(i) => e.update(i, (k, v)),
        None => e.push((k, v)),
    }
}

/// Inserting every pair, first to last, into an empty map.
pub open spec fn inserted_all<K, V>(items: Seq<(K, V)>) -> Seq<(K, V)>
    decreases items.len(),
{
    if items.len() == 0 {
        Seq::empty()
    } else {
        inserted(inserted_all(items.drop_last()), items.last().0, items.last().1)
    }
}

pub proof fn lemma_key_index<K, V>(e: Seq<(K, V)>, k: K)
    ensures
        match key_index(e, k) {
            Some(i) => 0 <= i < e.len() && e[i].0 == k && forall|j: int|
                0 <= j < i ==> e[j].0 != k,
            None => forall|j: int| 0 <= j < e.len() ==> e[j].0 != k,
        },
    decreases e.len(),
{
    if e.len() > 0 {
        let p = e.drop_last();
        lemma_key_index(p, k);
        assert forall|j: int| 0 <= j < p.len() implies p[j] == e[j] by {}
    }
}

/// The converse: an entry with the key and none before it is where the key
/// sits.
pub proof fn lemma_key_index_at<K, V>(e: Seq<(K, V)>, k: K, i: int)
    requires
        0 <= i < e.len(),
        e[i].0 == k,
        forall|j: int| 0 <= j < i ==> e[j].0 != k,
    ensures
        key_index(e, k) == Some(i),
{
    lemma_key_index(e, k);
    match key_index(e, k) {
        Some(x) => {
            if x < i {
                assert(e[x].0 != k);
            }
            if i < x {
                assert(e[i].0 != k);
            }
        },
        None => {
            assert(e[i].0 != k);
        },
    }
}

/// Insertion keeps every key once.
pub proof fn lemma_inserted_distinct<K, V>(e: Seq<(K, V)>, k: K, v: V)
    requires
        distinct_keys(e),
    ensures
        distinct_keys(inserted(e, k, v)),
        lookup(inserted(e, k, v), k) == Some(v),
{
    lemma_key_index(e, k);
    let r = inserted(e, k, v);
    match key_index(e, k) {
        Some(i) => {
            assert forall|a: int, b: int| 0 <= a < b < r.len() implies r[a].0 != r[b].0 by {
                assert(r[a].0 == e[a].0);
                assert(r[b].0 == e[b].0);
            }
            lemma_key_index_at(r, k, i);
        },
        None => {
            assert forall|a: int, b: int| 0 <= a < b < r.len() implies r[a].0 != r[b].0 by {
                if b == e.len() {
                    assert(r[a].0 == e[a].0);
                }
            }
            assert forall|j: int| 0 <= j < e.len() implies r[j].0 != k by {
                assert(r[j] == e[j]);
            }
            lemma_key_index_at(r, k, e.len() as int);
        },
    }
}

/// Inserting one key touches that key alone: it is there afterwards with the
/// new value, and every other key is there exactly where it was before,
/// with the value it had.
pub proof fn lemma_inserted_lookup<K, V>(e: Seq<(K, V)>, k: K, v: V, other: K)
    ensures
        lookup(inserted(e, k, v), other) == if other == k {
            Some(v)
        } else {
            lookup(e, other)
        },
{
    lemma_key_index(e, k);
    lemma_key_index(e, other);
    let r = inserted(e, k, v);
    match key_index(e, k) {
        Some(i) => {
            assert forall|j: int| 0 <= j < r.len() implies r[j].0 == e[j].0 by {}
            if other == k {
                lemma_key_index_at(r, k, i);
            } else {
                match key_index(e, other) {
                    Some(x) => {
                        assert(x != i);
                        lemma_key_index_at(r, other, x);
                    },
                    None => {
                        lemma_key_index(r, other);
                    },
                }
            }
        },
        None => {
            assert forall|j: int| 0 <= j < e.len() implies r[j] == e[j] by {}
            if other == k {
                lemma_key_index_at(r, k, e.len() as int);
            } else {
                match key_index(e, other) {
                    Some(x) => {
                        lemma_key_index_at(r, other, x);
                    },
                    None => {
                        lemma_key_index(r, other);
                        assert(r[e.len() as int].0 == k);
                    },
                }
            }
        },
    }
}

pub proof fn lemma_inserted_all_distinct<K, V>(items: Seq<(K, V)>)
    ensures
        distinct_keys(inserted_all(items)),
    decreases items.len(),
{
    if items.len() > 0 {
        lemma_inserted_all_distinct(items.drop_last());
        lemma_inserted_distinct(inserted_all(items.drop_last()), items.last().0, items.last().1);
    }
}

} // verus!
