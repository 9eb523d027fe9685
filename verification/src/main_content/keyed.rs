//! Small maps keyed by strings, kept as lists of entries.
//!
//! Lookups see the most recent entry for a key; inserting replaces that
//! entry, or appends one; removing drops every entry for the key.

use crate::main_content::assistant_messages::assoc::{index_of, lemma_index_of, lookup};
use crate::text::{owned, str_eq};
use vstd::prelude::*;

verus! {

pub open spec fn keyed_view<V>(m: Seq<(String, V)>) -> Seq<(Seq<char>, V)> {
    m.map_values(|e: (String, V)| (e.0@, e.1))
}

/// `HashMap::insert`: the key now maps to `v`.
pub open spec fn insert_key<V>(m: Seq<(Seq<char>, V)>, k: Seq<char>, v: V) -> Seq<(Seq<char>, V)> {
    match index_of(m, k) {
        Some(i) => m.update(i, (k, v)),
        None => m.push((k, v)),
    }
}

/// `HashMap::remove`: the key maps to nothing.
pub open spec fn remove_key<V>(m: Seq<(Seq<char>, V)>, k: Seq<char>) -> Seq<(Seq<char>, V)>
    decreases m.len(),
{
    if m.len() == 0 {
        m
    } else if m.last().0 == k {
        remove_key(m.drop_last(), k)
    } else {
        remove_key(m.drop_last(), k).push(m.last())
    }
}

/// A read after an insert sees the inserted value.
pub proof fn lemma_insert_lookup<V>(m: Seq<(Seq<char>, V)>, k: Seq<char>, v: V, j: Seq<char>)
    ensures
        lookup(insert_key(m, k, v), j) == if j == k {
            Some(v)
        } else {
            lookup(m, j)
        },
    decreases m.len(),
{
    lemma_index_of(m, k);
    match index_of(m, k) {
        Some(i) => {
            if i == m.len() - 1 {
                assert(m.update(i, (k, v)).drop_last() =~= m.drop_last());
            } else {
                let m2 = m.drop_last();
                assert(index_of(m2, k) == Some(i)) by {
                    lemma_index_of(m2, k);
                    assert(m.last().0 != k);
                }
                lemma_insert_lookup(m2, k, v, j);
                assert(m.update(i, (k, v)).drop_last() =~= m2.update(i, (k, v)));
                assert(insert_key(m2, k, v) == m2.update(i, (k, v)));
            }
        },
        None => {
            assert(m.push((k, v)).drop_last() =~= m);
        },
    }
}

/// A read after a removal sees nothing for the removed key.
pub proof fn lemma_remove_lookup<V>(m: Seq<(Seq<char>, V)>, k: Seq<char>, j: Seq<char>)
    ensures
        lookup(remove_key(m, k), j) == if j == k {
            None
        } else {
            lookup(m, j)
        },
    decreases m.len(),
{
    if m.len() > 0 {
        lemma_remove_lookup(m.drop_last(), k, j);
        if m.last().0 != k {
            assert(remove_key(m, k).drop_last() =~= remove_key(m.drop_last(), k));
        }
    }
}

/// Index of the most recent entry for `k`.
pub fn key_index<V>(m: &Vec<(String, V)>, k: &str) -> (r: Option<usize>)
    ensures
        match r {
            Some(i) => index_of(keyed_view(m@), k@) == Some(i as int) && i < m.len(),
            None => index_of(keyed_view(m@), k@) is None,
        },
{
    let ghost mv = keyed_view(m@);
    let mut i: usize = m.len();
    assert(mv.take(m.len() as int) =~= mv);
    while i > 0
        invariant
            i <= m.len(),
            mv == keyed_view(m@),
            index_of(mv, k@) == index_of(mv.take(i as int), k@),
        decreases i,
    {
        proof {
            assert(mv.take(i as int).drop_last() =~= mv.take(i - 1));
            assert(mv.take(i as int).last() == mv[i - 1]);
        }
        if str_eq(m[i - 1].0.as_str(), k) {
            return Some(i - 1);
        }
        i -= 1;
    }
    None
}

/// `HashMap::get`.
pub fn key_get<V: Copy>(m: &Vec<(String, V)>, k: &str) -> (r: Option<V>)
    ensures
        r == lookup(keyed_view(m@), k@),
{
    let idx = key_index(m, k);
    proof {
        lemma_index_of(keyed_view(m@), k@);
    }
    match idx {
        Some(i) => Some(m[i].1),
        None => None,
    }
}

/// `HashMap::insert`.
pub fn key_insert<V: Copy>(m: &mut Vec<(String, V)>, k: &str, v: V)
    ensures
        keyed_view(final(m)@) == insert_key(keyed_view(old(m)@), k@, v),
{
    match key_index(m, k) {
        Some(i) => {
            proof {
                lemma_index_of(keyed_view(m@), k@);
            }
            let key = owned(k);
            m.set(i, (key, v));
            assert(keyed_view(m@) =~= keyed_view(old(m)@).update(i as int, (k@, v)));
        },
        None => {
            m.push((owned(k), v));
            assert(keyed_view(m@) =~= keyed_view(old(m)@).push((k@, v)));
        },
    }
}

/// `HashMap::remove`.
pub fn key_remove<V: Copy>(m: &mut Vec<(String, V)>, k: &str)
    ensures
        keyed_view(final(m)@) == remove_key(keyed_view(old(m)@), k@),
{
    let ghost mv = keyed_view(m@);
    let mut out: Vec<(String, V)> = Vec::new();
    let mut i: usize = 0;
    while i < m.len()
        invariant
            i <= m.len(),
            mv == keyed_view(m@),
            keyed_view(out@) == remove_key(mv.take(i as int), k@),
        decreases m.len() - i,
    {
        proof {
            assert(mv.take(i + 1).drop_last() =~= mv.take(i as int));
            assert(mv.take(i + 1).last() == mv[i as int]);
        }
        if !str_eq(m[i].0.as_str(), k) {
            let e = (owned(m[i].0.as_str()), m[i].1);
            let ghost o0 = out@;
            out.push(e);
            assert(keyed_view(out@) =~= keyed_view(o0).push(mv[i as int]));
        }
        i += 1;
    }
    assert(mv.take(m.len() as int) =~= mv);
    *m = out;
}

/// A found value is an entry of the map.
pub proof fn lemma_lookup_entry<V>(m: Seq<(Seq<char>, V)>, k: Seq<char>)
    ensures
        lookup(m, k) matches Some(v) ==> m.contains((k, v)),
{
    lemma_index_of(m, k);
    match index_of(m, k) {
        Some(i) => {
            assert(m[i] == (k, m[i].1));
        },
        None => {},
    }
}

/// An insert adds only the inserted entry.
pub proof fn lemma_insert_entries<V>(m: Seq<(Seq<char>, V)>, k: Seq<char>, v: V)
    ensures
        forall|x: (Seq<char>, V)| #[trigger] insert_key(m, k, v).contains(x) ==> m.contains(x) || x == (k, v),
{
    lemma_index_of(m, k);
    assert forall|x: (Seq<char>, V)| #[trigger] insert_key(m, k, v).contains(x) implies m.contains(x) || x
        == (k, v) by {
        let r = insert_key(m, k, v);
        let j = choose|j: int| 0 <= j < r.len() && r[j] == x;
        match index_of(m, k) {
            Some(i) => {
                if j != i {
                    assert(m[j] == x);
                }
            },
            None => {
                if j < m.len() {
                    assert(m[j] == x);
                }
            },
        }
    }
}

/// A removal adds no entry.
pub proof fn lemma_remove_entries<V>(m: Seq<(Seq<char>, V)>, k: Seq<char>)
    ensures
        forall|x: (Seq<char>, V)| #[trigger] remove_key(m, k).contains(x) ==> m.contains(x),
    decreases m.len(),
{
    if m.len() > 0 {
        lemma_remove_entries(m.drop_last(), k);
        assert forall|x: (Seq<char>, V)| #[trigger] remove_key(m, k).contains(x) implies m.contains(
            x,
        ) by {
            let r = remove_key(m, k);
            let r0 = remove_key(m.drop_last(), k);
            let j = choose|j: int| 0 <= j < r.len() && r[j] == x;
            if m.last().0 == k {
                assert(r0.contains(x));
                let jj = choose|jj: int| 0 <= jj < m.drop_last().len() && m.drop_last()[jj] == x;
                assert(m[jj] == x);
            } else {
                if j < r0.len() {
                    assert(r0[j] == x);
                    assert(r0.contains(x));
                    let jj = choose|jj: int| 0 <= jj < m.drop_last().len() && m.drop_last()[jj] == x;
                    assert(m[jj] == x);
                } else {
                    assert(m[m.len() - 1] == x);
                }
            }
        }
    }
}

} // verus!
