//! A set of strings kept as a list without repeats.

use crate::text::{owned, str_eq};
use vstd::prelude::*;

verus! {

proof fn lemma_remove_keeps(p0: Seq<Seq<char>>, i: int, x: Seq<char>)
    requires
        0 <= i < p0.len(),
        p0.no_duplicates(),
    ensures
        p0.remove(i).no_duplicates(),
        p0.remove(i).contains(x) <==> (p0.contains(x) && x != p0[i]),
{
    let r = p0.remove(i);
    assert forall|a: int, b: int| 0 <= a < b < r.len() implies r[a] != r[b] by {
        let a0 = if a < i { a } else { a + 1 };
        let b0 = if b < i { b } else { b + 1 };
        assert(r[a] == p0[a0]);
        assert(r[b] == p0[b0]);
    }
    if r.contains(x) {
        let j = choose|j: int| 0 <= j < r.len() && r[j] == x;
        let j0 = if j < i { j } else { j + 1 };
        assert(p0[j0] == x);
    }
    if p0.contains(x) && x != p0[i] {
        let j = choose|j: int| 0 <= j < p0.len() && p0[j] == x;
        if j < i {
            assert(r[j] == x);
        } else {
            assert(r[j - 1] == x);
        }
    }
}

proof fn lemma_push_keeps(p0: Seq<Seq<char>>, v: Seq<char>, x: Seq<char>)
    requires
        p0.no_duplicates(),
        !p0.contains(v),
    ensures
        p0.push(v).no_duplicates(),
        p0.push(v).contains(x) <==> (p0.contains(x) || x == v),
{
    let r = p0.push(v);
    assert forall|a: int, b: int| 0 <= a < b < r.len() implies r[a] != r[b] by {
        if b == p0.len() {
            assert(r[a] == p0[a]);
        }
    }
    if r.contains(x) {
        let j = choose|j: int| 0 <= j < r.len() && r[j] == x;
        if j < p0.len() {
            assert(p0[j] == x);
        }
    }
    if p0.contains(x) {
        let j = choose|j: int| 0 <= j < p0.len() && p0[j] == x;
        assert(r[j] == x);
    }
    assert(r[p0.len() as int] == v);
}

/// A set of strings, such as the file diffs shown expanded (by path) or the
/// permission groups shown expanded (by key); no string is held twice.
pub struct StringSet {
    entries: Vec<String>,
}

pub open spec fn held_view(v: Seq<String>) -> Seq<Seq<char>> {
    v.map_values(|s: String| s@)
}

impl StringSet {
    /// The strings held.
    pub closed spec fn view_set(&self) -> Set<Seq<char>> {
        held_view(self.entries@).to_set()
    }

    /// No string is held twice.
    pub closed spec fn wf(&self) -> bool {
        held_view(self.entries@).no_duplicates()
    }

    /// An empty set.
    pub fn new() -> (r: Self)
        ensures
            r.wf(),
            r.view_set() == Set::<Seq<char>>::empty(),
    {
        let r = StringSet { entries: Vec::new() };
        assert(held_view(r.entries@) =~= seq![]);
        r
    }

    fn index_of(&self, path: &str) -> (r: Option<usize>)
        ensures
            match r {
                Some(i) => i < self.entries.len() && self.entries@[i as int]@ == path@,
                None => !held_view(self.entries@).contains(path@),
            },
    {
        let mut i: usize = 0;
        while i < self.entries.len()
            invariant
                i <= self.entries.len(),
                forall|j: int| 0 <= j < i ==> #[trigger] self.entries@[j]@ != path@,
            decreases self.entries.len() - i,
        {
            if str_eq(self.entries[i].as_str(), path) {
                return Some(i);
            }
            i += 1;
        }
        proof {
            if held_view(self.entries@).contains(path@) {
                let j = choose|j: int| 0 <= j < self.entries@.len() && held_view(self.entries@)[j] == path@;
                assert(self.entries@[j]@ == path@);
            }
        }
        None
    }

    /// Whether `path` is held.
    pub fn contains(&self, path: &str) -> (r: bool)
        ensures
            r == self.view_set().contains(path@),
    {
        match self.index_of(path) {
            Some(i) => {
                assert(held_view(self.entries@)[i as int] == path@);
                true
            },
            None => false,
        }
    }

    /// Adds `path`.
    pub fn insert(&mut self, path: &str)
        requires
            old(self).wf(),
        ensures
            final(self).wf(),
            final(self).view_set() == old(self).view_set().insert(path@),
    {
        match self.index_of(path) {
            Some(i) => {
                assert(held_view(self.entries@)[i as int] == path@);
                assert(self.view_set() =~= self.view_set().insert(path@));
            },
            None => {
                let ghost p0 = held_view(self.entries@);
                self.entries.push(owned(path));
                assert(held_view(self.entries@) =~= p0.push(path@));
                proof {
                    lemma_push_keeps(p0, path@, path@);
                    assert forall|x: Seq<char>| #[trigger] held_view(self.entries@).to_set().contains(x)
                        == p0.to_set().insert(path@).contains(x) by {
                        lemma_push_keeps(p0, path@, x);
                    }
                }
                assert(held_view(self.entries@).to_set() =~= p0.to_set().insert(path@));
            },
        }
    }

    /// Removes `path`.
    pub fn remove(&mut self, path: &str)
        requires
            old(self).wf(),
        ensures
            final(self).wf(),
            final(self).view_set() == old(self).view_set().remove(path@),
    {
        match self.index_of(path) {
            Some(i) => {
                let ghost p0 = held_view(self.entries@);
                self.entries.remove(i);
                assert(held_view(self.entries@) =~= p0.remove(i as int));
                proof {
                    assert(p0[i as int] == path@);
                    lemma_remove_keeps(p0, i as int, path@);
                    assert forall|x: Seq<char>| #[trigger] held_view(self.entries@).to_set().contains(x)
                        == p0.to_set().remove(path@).contains(x) by {
                        lemma_remove_keeps(p0, i as int, x);
                    }
                }
                assert(held_view(self.entries@).to_set() =~= p0.to_set().remove(path@));
            },
            None => {
                assert(self.view_set() =~= self.view_set().remove(path@));
            },
        }
    }

    /// Removes every string.
    pub fn clear(&mut self)
        ensures
            final(self).wf(),
            final(self).view_set() == Set::<Seq<char>>::empty(),
    {
        self.entries = Vec::new();
        assert(held_view(self.entries@) =~= seq![]);
    }
}

} // verus!
