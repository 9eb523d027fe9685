//! Small association lists keyed by strings, kept in insertion order.
//!
//! The diagram layout keys its per-node bookkeeping by node id; these lists
//! play the part of hash maps with a deterministic walk order.

use crate::text::str_eq;
use vstd::prelude::*;

verus! {

/// The value stored under `k` (the most recent entry for it).
pub open spec fn lookup<V>(m: Seq<(Seq<char>, V)>, k: Seq<char>) -> Option<V>
    decreases m.len(),
{
    if m.len() == 0 {
        None
    } else if m.last().0 == k {
        Some(m.last().1)
    } else {
        lookup(m.drop_last(), k)
    }
}

/// Index of the most recent entry for `k`.
pub open spec fn index_of<V>(m: Seq<(Seq<char>, V)>, k: Seq<char>) -> Option<int>
    decreases m.len(),
{
    if m.len() == 0 {
        None
    } else if m.last().0 == k {
        Some(m.len() - 1)
    } else {
        index_of(m.drop_last(), k)
    }
}

pub proof fn lemma_index_of<V>(m: Seq<(Seq<char>, V)>, k: Seq<char>)
    ensures
        match index_of(m, k) {
            Some(i) => 0 <= i < m.len() && m[i].0 == k && lookup(m, k) == Some(m[i].1) && forall|
                j: int,
            | i < j < m.len() ==> m[j].0 != k,
            None => lookup(m, k) is None && forall|j: int| 0 <= j < m.len() ==> m[j].0 != k,
        },
    decreases m.len(),
{
    if m.len() > 0 && m.last().0 != k {
        lemma_index_of(m.drop_last(), k);
        match index_of(m.drop_last(), k) {
            Some(i) => {
                assert forall|j: int| i < j < m.len() implies m[j].0 != k by {
                    if j < m.len() - 1 {
                        assert(m[j] == m.drop_last()[j]);
                    }
                }
            },
            None => {
                assert forall|j: int| 0 <= j < m.len() implies m[j].0 != k by {
                    if j < m.len() - 1 {
                        assert(m[j] == m.drop_last()[j]);
                    }
                }
            },
        }
    }
}

/// `m` with the value under `k` replaced by `v` (unchanged when absent).
pub open spec fn set_val<V>(m: Seq<(Seq<char>, V)>, k: Seq<char>, v: V) -> Seq<(Seq<char>, V)> {
    match index_of(m, k) {
        Some(i) => m.update(i, (k, v)),
        None => m,
    }
}

/// `entry(k).or_insert(v)`: adds `(k, v)` when `k` is absent.
pub open spec fn or_insert<V>(m: Seq<(Seq<char>, V)>, k: Seq<char>, v: V) -> Seq<(Seq<char>, V)> {
    match lookup(m, k) {
        Some(_) => m,
        None => m.push((k, v)),
    }
}

pub open spec fn counts_view(m: Seq<(String, usize)>) -> Seq<(Seq<char>, nat)> {
    m.map_values(|e: (String, usize)| (e.0@, e.1 as nat))
}

/// Finds the most recent entry for `k` in a count list.
pub fn count_index(m: &Vec<(String, usize)>, k: &str) -> (r: Option<usize>)
    ensures
        match r {
            Some(i) => index_of(counts_view(m@), k@) == Some(i as int),
            None => index_of(counts_view(m@), k@) is None,
        },
{
    let mut i: usize = m.len();
    assert(counts_view(m@).take(m.len() as int) =~= counts_view(m@));
    while i > 0
        invariant
            i <= m.len(),
            index_of(counts_view(m@), k@) == index_of(counts_view(m@).take(i as int), k@),
        decreases i,
    {
        proof {
            assert(counts_view(m@).take(i as int).drop_last() =~= counts_view(m@).take(i - 1));
            assert(counts_view(m@).take(i as int).last() == counts_view(m@)[i - 1]);
        }
        if str_eq(m[i - 1].0.as_str(), k) {
            return Some(i - 1);
        }
        i -= 1;
    }
    None
}

pub fn count_lookup(m: &Vec<(String, usize)>, k: &str) -> (r: Option<usize>)
    ensures
        match r {
            Some(v) => lookup(counts_view(m@), k@) == Some(v as nat),
            None => lookup(counts_view(m@), k@) is None,
        },
{
    let idx = count_index(m, k);
    proof {
        lemma_index_of(counts_view(m@), k@);
    }
    match idx {
        Some(i) => Some(m[i].1),
        None => None,
    }
}

pub fn count_set(m: &mut Vec<(String, usize)>, k: &str, v: usize)
    ensures
        counts_view(final(m)@) == set_val(counts_view(old(m)@), k@, v as nat),
{
    let idx = count_index(m, k);
    proof {
        lemma_index_of(counts_view(m@), k@);
    }
    match idx {
        Some(i) => {
            let key = m[i].0.clone();
            m.set(i, (key, v));
            assert(counts_view(m@) =~= counts_view(old(m)@).update(i as int, (k@, v as nat)));
        },
        None => {},
    }
}

pub fn count_or_insert(m: &mut Vec<(String, usize)>, k: &str, v: usize)
    ensures
        counts_view(final(m)@) == or_insert(counts_view(old(m)@), k@, v as nat),
{
    match count_lookup(m, k) {
        Some(_) => {},
        None => {
            m.push((crate::text::owned(k), v));
            assert(counts_view(m@) =~= counts_view(old(m)@).push((k@, v as nat)));
        },
    }
}

} // verus!
