//! An ordered registry keyed by string names: an association vector kept
//! sorted in strict lexicographic name order. Both the stage registry and
//! the system registry store their entries here; the sorted order is what
//! makes a tick sweep deterministic.

use vstd::prelude::*;
use crate::names::{lex_lt, str_lt, str_eq, lemma_lex_irrefl, lemma_lex_total, lemma_lex_trans};

verus! {

/// Name-keyed entries, sorted strictly by name (so names are unique).
pub struct NameMap<T> {
    pub entries: Vec<(String, T)>,
}

impl<T> NameMap<T> {
    /// The names, in storage (and therefore iteration) order.
    pub open spec fn names(&self) -> Seq<Seq<char>> {
        Seq::new(self.entries@.len() as nat, |i: int| self.entries@[i].0@)
    }

    pub open spec fn spec_len(&self) -> int {
        self.entries@.len() as int
    }

    /// Strictly increasing names: sorted, and free of duplicates.
    pub open spec fn wf(&self) -> bool {
        forall|i: int, j: int|
            0 <= i < j < self.spec_len() ==> lex_lt(
                (#[trigger] self.entries@[i]).0@,
                (#[trigger] self.entries@[j]).0@,
            )
    }

    pub open spec fn contains_name(&self, k: Seq<char>) -> bool {
        exists|i: int| 0 <= i < self.spec_len() && self.names()[i] == k
    }

    pub open spec fn index_of(&self, k: Seq<char>) -> int {
        choose|i: int| 0 <= i < self.spec_len() && self.names()[i] == k
    }

    /// The value stored under name `k` (meaningful when `k` is present).
    pub open spec fn value_of(&self, k: Seq<char>) -> T {
        self.entries@[self.index_of(k)].1
    }

    /// In a sorted registry an entry's position is determined by its name.
    pub proof fn lemma_index_unique(&self, i: int, k: Seq<char>)
        requires
            self.wf(),
            0 <= i < self.spec_len(),
            self.names()[i] == k,
        ensures
            self.contains_name(k),
            self.index_of(k) == i,
            self.value_of(k) == self.entries@[i].1,
    {
        assert(self.contains_name(k));
        let j = self.index_of(k);
        if i != j {
            lemma_lex_irrefl(k);
        }
    }

    /// Iteration order is deterministic: the names stand in strictly
    /// increasing lexicographic order, whatever order they were registered
    /// in.
    pub proof fn lemma_names_sorted(&self, i: int, j: int)
        requires
            self.wf(),
            0 <= i < j < self.spec_len(),
        ensures
            lex_lt(self.names()[i], self.names()[j]),
    {
    }

    /// Distinct positions hold distinct names.
    pub proof fn lemma_names_distinct(&self, i: int, j: int)
        requires
            self.wf(),
            0 <= i < self.spec_len(),
            0 <= j < self.spec_len(),
            i != j,
        ensures
            self.names()[i] != self.names()[j],
    {
        lemma_lex_irrefl(self.names()[i]);
    }

    pub fn new() -> (m: NameMap<T>)
        ensures
            m.wf(),
            m.spec_len() == 0,
            forall|k: Seq<char>| !m.contains_name(k),
    {
        NameMap { entries: Vec::new() }
    }

    pub fn len(&self) -> (n: usize)
        ensures
            n == self.spec_len(),
    {
        self.entries.len()
    }

    /// The name stored at position `i`.
    pub fn key_at(&self, i: usize) -> (r: &String)
        requires
            i < self.spec_len(),
        ensures
            r@ == self.names()[i as int],
    {
        &self.entries[i].0
    }

    /// The value stored at position `i`.
    pub fn value_at(&self, i: usize) -> (r: &T)
        requires
            i < self.spec_len(),
        ensures
            *r == self.entries@[i as int].1,
    {
        &self.entries[i].1
    }

    /// Mutable access to the value at position `i`; the name keeps its place.
    pub fn value_at_mut(&mut self, i: usize) -> (r: &mut T)
        requires
            old(self).wf(),
            i < old(self).spec_len(),
        ensures
            *r == old(self).entries@[i as int].1,
            final(self).entries@ == old(self).entries@.update(
                i as int,
                (old(self).entries@[i as int].0, *final(r)),
            ),
            final(self).wf(),
            final(self).names() == old(self).names(),
            final(self).spec_len() == old(self).spec_len(),
    {
        let p = &mut self.entries[i];
        &mut p.1
    }

    /// Position of `name`, or `None` when it is absent.
    pub fn find(&self, name: &str) -> (r: Option<usize>)
        ensures
            match r {
                Some(i) => i < self.spec_len() && self.names()[i as int] == name@,
                None => !self.contains_name(name@),
            },
    {
        let n = self.entries.len();
        let mut i: usize = 0;
        while i < n
            invariant
                n == self.spec_len(),
                i <= n,
                forall|j: int| 0 <= j < i ==> self.names()[j] != name@,
            decreases n - i,
        {
            if str_eq(self.entries[i].0.as_str(), name) {
                return Some(i);
            }
            i += 1;
        }
        None
    }

    /// The value under `name`, or `None` when it is absent.
    pub fn get(&self, name: &str) -> (r: Option<&T>)
        requires
            self.wf(),
        ensures
            r.is_some() == self.contains_name(name@),
            r.is_some() ==> *r.unwrap() == self.value_of(name@),
    {
        match self.find(name) {
            Some(i) => {
                proof {
                    self.lemma_index_unique(i as int, name@);
                }
                Some(&self.entries[i].1)
            },
            None => None,
        }
    }

    /// Mutable counterpart of `get`: only the value under `name` can change.
    pub fn get_mut(&mut self, name: &str) -> (r: Option<&mut T>)
        requires
            old(self).wf(),
        ensures
            final(self).wf(),
            final(self).names() == old(self).names(),
            r.is_some() == old(self).contains_name(name@),
            r.is_some() ==> {
                &&& *r.unwrap() == old(self).value_of(name@)
                &&& final(self).entries@ == old(self).entries@.update(
                    old(self).index_of(name@),
                    (old(self).entries@[old(self).index_of(name@)].0, *final(r.unwrap())),
                )
            },
            r.is_none() ==> final(self).entries@ == old(self).entries@,
    {
        match self.find(name) {
            Some(i) => {
                proof {
                    self.lemma_index_unique(i as int, name@);
                }
                Some(self.value_at_mut(i))
            },
            None => None,
        }
    }

    /// First position whose name does not sort below `name`: where `name`
    /// belongs in the order.
    fn lower_bound(&self, name: &str) -> (i: usize)
        requires
            self.wf(),
        ensures
            i <= self.spec_len(),
            forall|j: int| 0 <= j < i ==> lex_lt(#[trigger] self.names()[j], name@),
            i < self.spec_len() ==> !lex_lt(self.names()[i as int], name@),
    {
        let n = self.entries.len();
        let mut i: usize = 0;
        while i < n
            invariant
                n == self.spec_len(),
                i <= n,
                forall|j: int| 0 <= j < i ==> lex_lt(#[trigger] self.names()[j], name@),
            decreases n - i,
        {
            if !str_lt(self.entries[i].0.as_str(), name) {
                return i;
            }
            i += 1;
        }
        i
    }

    /// Inserts `value` under `name`, replacing any previous value; every
    /// other entry keeps its name and value, and the order stays sorted.
    pub fn register(&mut self, name: &str, value: T)
        requires
            old(self).wf(),
            old(self).spec_len() < usize::MAX as int,
        ensures
            final(self).wf(),
            final(self).contains_name(name@),
            final(self).value_of(name@) == value,
            forall|k: Seq<char>|
                k != name@ ==> final(self).contains_name(k) == old(self).contains_name(k),
            forall|k: Seq<char>|
                k != name@ && old(self).contains_name(k) ==> final(self).value_of(k) == old(self).value_of(k),
            final(self).spec_len() == old(self).spec_len() + (if old(self).contains_name(name@) {
                0int
            } else {
                1int
            }),
    {
        let i = self.lower_bound(name);
        let n = self.entries.len();
        if i < n && str_eq(self.entries[i].0.as_str(), name) {
            proof {
                self.lemma_index_unique(i as int, name@);
            }
            self.entries[i] = (name.to_owned(), value);
            proof {
                self.lemma_register_replace(*old(self), i as int, name@, value);
            }
        } else {
            proof {
                if i < n {
                    lemma_lex_total(self.names()[i as int], name@);
                }
                assert forall|j: int| 0 <= j < n implies self.names()[j] != name@ by {
                    if j < i {
                        lemma_lex_irrefl(name@);
                    } else if j > i {
                        assert(lex_lt(self.names()[i as int], self.names()[j]));
                    }
                }
                assert(!self.contains_name(name@));
            }
            self.entries.insert(i, (name.to_owned(), value));
            proof {
                self.lemma_register_insert(*old(self), i as int, name@, value);
            }
        }
    }

    /// Replacing the value at `name`'s own position is a map update.
    proof fn lemma_register_replace(&self, pre: NameMap<T>, i: int, k: Seq<char>, value: T)
        requires
            pre.wf(),
            0 <= i < pre.spec_len(),
            pre.names()[i] == k,
            self.entries@ == pre.entries@.update(i, (self.entries@[i].0, value)),
            self.entries@[i].0@ == k,
            self.entries@[i].1 == value,
        ensures
            self.wf(),
            self.contains_name(k),
            self.value_of(k) == value,
            forall|q: Seq<char>| q != k ==> self.contains_name(q) == pre.contains_name(q),
            forall|q: Seq<char>|
                q != k && pre.contains_name(q) ==> self.value_of(q) == pre.value_of(q),
            self.spec_len() == pre.spec_len(),
    {
        assert(self.names() =~= pre.names());
        assert forall|p: int, q: int| 0 <= p < q < self.spec_len()
            implies lex_lt((#[trigger] self.entries@[p]).0@, (#[trigger] self.entries@[q]).0@) by {
            assert(self.names()[p] == pre.entries@[p].0@);
            assert(self.names()[q] == pre.entries@[q].0@);
            assert(lex_lt(pre.entries@[p].0@, pre.entries@[q].0@));
        }
        self.lemma_index_unique(i, k);
        assert forall|q: Seq<char>| q != k && pre.contains_name(q)
            implies self.contains_name(q) && self.value_of(q) == pre.value_of(q) by {
            let j = choose|j: int| 0 <= j < pre.spec_len() && pre.names()[j] == q;
            pre.lemma_index_unique(j, q);
            self.lemma_index_unique(j, q);
        }
        assert forall|q: Seq<char>| q != k && self.contains_name(q)
            implies pre.contains_name(q) by {
            let j = choose|j: int| 0 <= j < self.spec_len() && self.names()[j] == q;
            assert(pre.names()[j] == q);
        }
    }

    /// Inserting a new name at its sorted position keeps the order and
    /// leaves every existing entry in place (shifted, not changed).
    proof fn lemma_register_insert(&self, pre: NameMap<T>, i: int, k: Seq<char>, value: T)
        requires
            pre.wf(),
            0 <= i <= pre.spec_len(),
            forall|j: int| 0 <= j < i ==> lex_lt(#[trigger] pre.names()[j], k),
            i < pre.spec_len() ==> !lex_lt(pre.names()[i], k) && (lex_lt(k, pre.names()[i])
                || pre.names()[i] == k),
            i < pre.spec_len() ==> pre.names()[i] != k,
            self.entries@ == pre.entries@.insert(i, (self.entries@[i].0, value)),
            self.entries@[i].0@ == k,
            self.entries@[i].1 == value,
        ensures
            self.wf(),
            self.contains_name(k),
            self.value_of(k) == value,
            forall|q: Seq<char>| q != k ==> self.contains_name(q) == pre.contains_name(q),
            forall|q: Seq<char>|
                q != k && pre.contains_name(q) ==> self.value_of(q) == pre.value_of(q),
            self.spec_len() == pre.spec_len() + 1,
    {
        assert forall|j: int| 0 <= j < self.spec_len() implies self.names()[j] == (if j < i {
            pre.names()[j]
        } else if j == i {
            k
        } else {
            pre.names()[j - 1]
        }) by {
            if j < i {
                assert(self.entries@[j] == pre.entries@[j]);
            } else if j > i {
                assert(self.entries@[j] == pre.entries@[j - 1]);
            }
        }
        assert forall|p: int, q: int| 0 <= p < q < self.spec_len()
            implies lex_lt(#[trigger] self.names()[p], #[trigger] self.names()[q]) by {
            if p < i && q < i {
            } else if p < i && q == i {
            } else if p < i && q > i {
                if q - 1 > p {
                } else {
                }
            } else if p == i && q > i {
                if q - 1 == i {
                    if i < pre.spec_len() {
                        assert(lex_lt(k, pre.names()[i]));
                    }
                } else {
                    assert(lex_lt(k, pre.names()[i]));
                    assert(lex_lt(pre.names()[i], pre.names()[q - 1]));
                    lemma_lex_trans(k, pre.names()[i], pre.names()[q - 1]);
                }
            } else {
            }
        }
        assert forall|p: int, q: int| 0 <= p < q < self.spec_len()
            implies lex_lt((#[trigger] self.entries@[p]).0@, (#[trigger] self.entries@[q]).0@) by {
            assert(self.names()[p] == self.entries@[p].0@);
            assert(self.names()[q] == self.entries@[q].0@);
            assert(lex_lt(self.names()[p], self.names()[q]));
        }
        self.lemma_index_unique(i, k);
        assert forall|q: Seq<char>| q != k && pre.contains_name(q)
            implies self.contains_name(q) && self.value_of(q) == pre.value_of(q) by {
            let j = choose|j: int| 0 <= j < pre.spec_len() && pre.names()[j] == q;
            pre.lemma_index_unique(j, q);
            if j < i {
                assert(self.names()[j] == q);
                self.lemma_index_unique(j, q);
                assert(self.entries@[j] == pre.entries@[j]);
            } else {
                assert(self.names()[j + 1] == q);
                self.lemma_index_unique(j + 1, q);
                assert(self.entries@[j + 1] == pre.entries@[j]);
            }
        }
        assert forall|q: Seq<char>| q != k && self.contains_name(q)
            implies pre.contains_name(q) by {
            let j = choose|j: int| 0 <= j < self.spec_len() && self.names()[j] == q;
            if j < i {
                assert(pre.names()[j] == q);
            } else {
                assert(j != i);
                assert(pre.names()[j - 1] == q);
            }
        }
    }

    /// Removes the entry under `name`, handing its value back; every other
    /// entry keeps its name and value, and the order stays sorted.
    pub fn unregister(&mut self, name: &str) -> (r: Option<T>)
        requires
            old(self).wf(),
        ensures
            final(self).wf(),
            !final(self).contains_name(name@),
            r.is_some() == old(self).contains_name(name@),
            r.is_some() ==> r.unwrap() == old(self).value_of(name@),
            forall|k: Seq<char>|
                k != name@ ==> final(self).contains_name(k) == old(self).contains_name(k),
            forall|k: Seq<char>|
                k != name@ && old(self).contains_name(k) ==> final(self).value_of(k) == old(self).value_of(k),
            final(self).spec_len() == old(self).spec_len() - (if old(self).contains_name(name@) {
                1int
            } else {
                0int
            }),
            !old(self).contains_name(name@) ==> final(self).entries@ == old(self).entries@,
    {
        match self.find(name) {
            Some(i) => {
                proof {
                    self.lemma_index_unique(i as int, name@);
                }
                let pair = self.entries.remove(i);
                proof {
                    self.lemma_unregister(*old(self), i as int, name@);
                }
                Some(pair.1)
            },
            None => None,
        }
    }

    /// Removing one entry shifts, but does not change, the others.
    proof fn lemma_unregister(&self, pre: NameMap<T>, i: int, k: Seq<char>)
        requires
            pre.wf(),
            0 <= i < pre.spec_len(),
            pre.names()[i] == k,
            self.entries@ == pre.entries@.remove(i),
        ensures
            self.wf(),
            !self.contains_name(k),
            forall|q: Seq<char>| q != k ==> self.contains_name(q) == pre.contains_name(q),
            forall|q: Seq<char>|
                q != k && pre.contains_name(q) ==> self.value_of(q) == pre.value_of(q),
            self.spec_len() == pre.spec_len() - 1,
    {
        assert forall|j: int| 0 <= j < self.spec_len() implies self.names()[j] == (if j < i {
            pre.names()[j]
        } else {
            pre.names()[j + 1]
        }) by {
            if j < i {
                assert(self.entries@[j] == pre.entries@[j]);
            } else {
                assert(self.entries@[j] == pre.entries@[j + 1]);
            }
        }
        assert forall|p: int, q: int| 0 <= p < q < self.spec_len()
            implies lex_lt(#[trigger] self.names()[p], #[trigger] self.names()[q]) by {
            if p < i {
                assert(lex_lt(pre.entries@[p].0@, pre.entries@[if q < i { q } else { q + 1 }].0@));
            } else {
                assert(lex_lt(pre.entries@[p + 1].0@, pre.entries@[q + 1].0@));
            }
        }
        assert forall|p: int, q: int| 0 <= p < q < self.spec_len()
            implies lex_lt((#[trigger] self.entries@[p]).0@, (#[trigger] self.entries@[q]).0@) by {
            assert(self.names()[p] == self.entries@[p].0@);
            assert(self.names()[q] == self.entries@[q].0@);
            assert(lex_lt(self.names()[p], self.names()[q]));
        }
        assert forall|j: int| 0 <= j < self.spec_len() implies self.names()[j] != k by {
            if j < i {
                pre.lemma_names_distinct(j, i);
            } else {
                pre.lemma_names_distinct(j + 1, i);
            }
        }
        assert forall|q: Seq<char>| q != k && pre.contains_name(q)
            implies self.contains_name(q) && self.value_of(q) == pre.value_of(q) by {
            let j = choose|j: int| 0 <= j < pre.spec_len() && pre.names()[j] == q;
            pre.lemma_index_unique(j, q);
            if j < i {
                assert(self.names()[j] == q);
                self.lemma_index_unique(j, q);
                assert(self.entries@[j] == pre.entries@[j]);
            } else {
                assert(j != i);
                assert(self.names()[j - 1] == q);
                self.lemma_index_unique(j - 1, q);
                assert(self.entries@[j - 1] == pre.entries@[j]);
            }
        }
        assert forall|q: Seq<char>| q != k && self.contains_name(q)
            implies pre.contains_name(q) by {
            let j = choose|j: int| 0 <= j < self.spec_len() && self.names()[j] == q;
            if j < i {
                assert(pre.names()[j] == q);
            } else {
                assert(pre.names()[j + 1] == q);
            }
        }
    }

    /// Drops every entry.
    pub fn clear(&mut self)
        ensures
            final(self).wf(),
            final(self).spec_len() == 0,
            forall|k: Seq<char>| !final(self).contains_name(k),
    {
        self.entries.clear();
    }
}

} // verus!
