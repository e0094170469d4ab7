//! A small label-to-slot index: the lookup table behind the Hash perspective.
use vstd::prelude::*;

verus! {

/// Maps labels to slot positions. Each label appears at most once.
pub struct KeyIndex {
    entries: Vec<(String, usize)>,
}

impl KeyIndex {
    /// No label appears twice among the entries.
    pub closed spec fn wf(&self) -> bool {
        forall|i: int, j: int|
            0 <= i < j < self.entries@.len() ==> self.entries@[i].0@ != self.entries@[j].0@
    }

    /// The position of `k` among the entries, if any.
    closed spec fn has_at(&self, k: Seq<char>, i: int) -> bool {
        0 <= i < self.entries@.len() && self.entries@[i].0@ == k
    }

    /// The labels and the slots they map to.
    pub closed spec fn view(&self) -> Map<Seq<char>, usize> {
        Map::new(
            |k: Seq<char>| exists|i: int| self.has_at(k, i),
            |k: Seq<char>| self.entries@[choose|i: int| self.has_at(k, i)].1,
        )
    }

    proof fn lemma_entry(&self, i: int)
        requires
            self.wf(),
            0 <= i < self.entries@.len(),
        ensures
            self@.contains_key(self.entries@[i].0@),
            self@[self.entries@[i].0@] == self.entries@[i].1,
    {
        let k = self.entries@[i].0@;
        assert(self.has_at(k, i));
        let j = choose|j: int| self.has_at(k, j);
        assert(self.has_at(k, j));
        assert(i == j);
    }

    pub fn new() -> (r: KeyIndex)
        ensures
            r.wf(),
            r@ == Map::<Seq<char>, usize>::empty(),
    {
        let r = KeyIndex { entries: Vec::new() };
        assert(r@ =~= Map::<Seq<char>, usize>::empty());
        r
    }

    /// Position in `entries` of the label `k`, if present.
    fn find(&self, k: &str) -> (r: Option<usize>)
        requires
            self.wf(),
        ensures
            match r {
                Some(i) => self.has_at(k@, i as int),
                None => !self@.contains_key(k@),
            },
    {
        let mut i: usize = 0;
        while i < self.entries.len()
            invariant
                0 <= i <= self.entries@.len(),
                forall|j: int| 0 <= j < i ==> self.entries@[j].0@ != k@,
            decreases self.entries@.len() - i,
        {
            if str_eq(self.entries[i].0.as_str(), k) {
                return Some(i);
            }
            i = i + 1;
        }
        proof {
            if self@.contains_key(k@) {
                let j = choose|j: int| self.has_at(k@, j);
                assert(self.entries@[j].0@ != k@);
            }
        }
        None
    }

    /// The slot that `k` maps to.
    pub fn get(&self, k: &str) -> (r: Option<usize>)
        requires
            self.wf(),
        ensures
            r == (if self@.contains_key(k@) {
                Some(self@[k@])
            } else {
                None::<usize>
            }),
    {
        match self.find(k) {
            Some(i) => {
                proof {
                    self.lemma_entry(i as int);
                }
                Some(self.entries[i].1)
            },
            None => None,
        }
    }

    /// Maps `k` to `slot`, replacing an earlier mapping of `k`.
    pub fn insert(&mut self, k: &str, slot: usize)
        requires
            old(self).wf(),
        ensures
            final(self).wf(),
            final(self)@ == old(self)@.insert(k@, slot),
    {
        let label = k.to_owned();
        match self.find(k) {
            Some(i) => {
                self.entries.set(i, (label, slot));
                proof {
                    let n = self.entries@.len();
                    assert forall|a: int, b: int| 0 <= a < b < n implies
                        self.entries@[a].0@ != self.entries@[b].0@ by {
                        assert(old(self).entries@[i as int].0@ == k@);
                    }
                    assert forall|q: Seq<char>| #[trigger] self@.contains_key(q)
                        == old(self)@.insert(k@, slot).contains_key(q) by {
                        if q != k@ {
                            if old(self)@.contains_key(q) {
                                let j = choose|j: int| old(self).has_at(q, j);
                                assert(self.has_at(q, j));
                            }
                            if self@.contains_key(q) {
                                let j = choose|j: int| self.has_at(q, j);
                                assert(old(self).has_at(q, j));
                            }
                        } else {
                            assert(self.has_at(q, i as int));
                        }
                    }
                    assert forall|q: Seq<char>| #[trigger] self@.contains_key(q) implies
                        self@[q] == old(self)@.insert(k@, slot)[q] by {
                        let j = choose|j: int| self.has_at(q, j);
                        self.lemma_entry(j);
                        if q != k@ {
                            assert(old(self).has_at(q, j));
                            old(self).lemma_entry(j);
                        }
                    }
                    assert(self@ =~= old(self)@.insert(k@, slot));
                }
            },
            None => {
                self.entries.push((label, slot));
                proof {
                    let n = old(self).entries@.len() as int;
                    assert forall|a: int, b: int| 0 <= a < b < n + 1 implies
                        self.entries@[a].0@ != self.entries@[b].0@ by {
                        if b == n && self.entries@[a].0@ == k@ {
                            assert(old(self).has_at(k@, a));
                        }
                    }
                    assert forall|q: Seq<char>| #[trigger] self@.contains_key(q)
                        == old(self)@.insert(k@, slot).contains_key(q) by {
                        if q != k@ {
                            if old(self)@.contains_key(q) {
                                let j = choose|j: int| old(self).has_at(q, j);
                                assert(self.has_at(q, j));
                            }
                            if self@.contains_key(q) {
                                let j = choose|j: int| self.has_at(q, j);
                                assert(old(self).has_at(q, j));
                            }
                        } else {
                            assert(self.has_at(q, n));
                        }
                    }
                    assert forall|q: Seq<char>| #[trigger] self@.contains_key(q) implies
                        self@[q] == old(self)@.insert(k@, slot)[q] by {
                        let j = choose|j: int| self.has_at(q, j);
                        self.lemma_entry(j);
                        if q != k@ {
                            assert(old(self).has_at(q, j));
                            old(self).lemma_entry(j);
                        }
                    }
                    assert(self@ =~= old(self)@.insert(k@, slot));
                }
            },
        }
    }

    /// Drops the mapping of `k`, if any.
    pub fn remove(&mut self, k: &str)
        requires
            old(self).wf(),
        ensures
            final(self).wf(),
            final(self)@ == old(self)@.remove(k@),
    {
        match self.find(k) {
            Some(i) => {
                self.entries.remove(i);
                proof {
                    let o = old(self).entries@;
                    assert forall|j: int| 0 <= j < self.entries@.len() implies
                        #[trigger] self.entries@[j] == (if j < i { o[j] } else { o[j + 1] }) by {}
                    assert forall|q: Seq<char>| #[trigger] self@.contains_key(q)
                        == old(self)@.remove(k@).contains_key(q) by {
                        if old(self)@.contains_key(q) && q != k@ {
                            let j = choose|j: int| old(self).has_at(q, j);
                            if j < i {
                                assert(self.has_at(q, j));
                            } else {
                                assert(self.has_at(q, j - 1));
                            }
                        }
                        if self@.contains_key(q) {
                            let j = choose|j: int| self.has_at(q, j);
                            if j < i {
                                assert(old(self).has_at(q, j));
                            } else {
                                assert(old(self).has_at(q, j + 1));
                            }
                        }
                    }
                    assert forall|q: Seq<char>| #[trigger] self@.contains_key(q) implies
                        self@[q] == old(self)@.remove(k@)[q] by {
                        let j = choose|j: int| self.has_at(q, j);
                        self.lemma_entry(j);
                        if j < i {
                            assert(old(self).has_at(q, j));
                            old(self).lemma_entry(j);
                        } else {
                            assert(old(self).has_at(q, j + 1));
                            old(self).lemma_entry(j + 1);
                        }
                    }
                    assert(self@ =~= old(self)@.remove(k@));
                }
            },
            None => {
                assert(self@ =~= old(self)@.remove(k@));
            },
        }
    }

    /// Drops every mapping.
    pub fn clear(&mut self)
        ensures
            final(self).wf(),
            final(self)@ == Map::<Seq<char>, usize>::empty(),
    {
        self.entries.clear();
        assert(self@ =~= Map::<Seq<char>, usize>::empty());
    }
}

/// Whether two strings hold the same characters.
pub fn str_eq(a: &str, b: &str) -> (r: bool)
    ensures
        r == (a@ == b@),
{
    let x = a.to_owned();
    let y = b.to_owned();
    x == y
}

} // verus!
