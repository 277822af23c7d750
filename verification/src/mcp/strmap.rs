//! A small map keyed by strings, with distinct keys, whose model is a
//! `Map<Seq<char>, V>`: inserting under a present key replaces its value.
//! vstd's specification of `std::collections::HashMap` proves nothing for
//! `String` keys (not even the length after one insert), so the entries are
//! kept in a vector whose keys are distinct.

use vstd::prelude::*;

use crate::text::str_eq;

verus! {

pub struct StrMap<V> {
    entries: Vec<(String, V)>,
}

impl<V> StrMap<V> {
    pub closed spec fn wf(&self) -> bool {
        forall|i: int, j: int|
            0 <= i < j < self.entries@.len() ==> #[trigger] self.entries@[i].0@ != #[trigger] self.entries@[j].0@
    }

    closed spec fn has(&self, k: Seq<char>) -> bool {
        exists|i: int| 0 <= i < self.entries@.len() && #[trigger] self.entries@[i].0@ == k
    }

    closed spec fn index_of_key(&self, k: Seq<char>) -> int {
        choose|i: int| 0 <= i < self.entries@.len() && #[trigger] self.entries@[i].0@ == k
    }

    /// The map this holds.
    pub closed spec fn map(&self) -> Map<Seq<char>, V> {
        Map::new(|k: Seq<char>| self.has(k), |k: Seq<char>| self.entries@[self.index_of_key(k)].1)
    }

    proof fn lemma_at(&self, i: int)
        requires
            self.wf(),
            0 <= i < self.entries@.len(),
        ensures
            self.map().contains_key(self.entries@[i].0@),
            self.map()[self.entries@[i].0@] == self.entries@[i].1,
    {
        let k = self.entries@[i].0@;
        assert(self.has(k));
        let c = self.index_of_key(k);
        if c != i {
            if c < i {
                assert(self.entries@[c].0@ != self.entries@[i].0@);
            } else {
                assert(self.entries@[i].0@ != self.entries@[c].0@);
            }
        }
    }

    proof fn lemma_map_from(&self, m: Map<Seq<char>, V>)
        requires
            self.wf(),
            forall|k: Seq<char>| #[trigger] m.contains_key(k) <==> self.has(k),
            forall|i: int| 0 <= i < self.entries@.len() ==> m[#[trigger] self.entries@[i].0@] == self.entries@[i].1,
        ensures
            self.map() == m,
    {
        assert forall|k: Seq<char>| #[trigger] self.map().contains_key(k) implies self.map()[k] == m[k] by {
            let c = self.index_of_key(k);
            self.lemma_at(c);
        }
        assert(self.map() =~= m);
    }

    pub fn new() -> (r: Self)
        ensures
            r.wf(),
            r.map() == Map::<Seq<char>, V>::empty(),
    {
        let r = StrMap { entries: Vec::new() };
        assert(r.map() =~= Map::<Seq<char>, V>::empty());
        r
    }

    fn find(&self, k: &str) -> (r: Option<usize>)
        ensures
            match r {
                Some(i) => i < self.entries@.len() && self.entries@[i as int].0@ == k@,
                None => !self.has(k@),
            },
    {
        let mut i: usize = 0;
        while i < self.entries.len()
            invariant
                i <= self.entries@.len(),
                forall|j: int| 0 <= j < i ==> self.entries@[j].0@ != k@,
            decreases self.entries.len() - i,
        {
            if str_eq(self.entries[i].0.as_str(), k) {
                return Some(i);
            }
            i = i + 1;
        }
        None
    }

    /// Inserts `v` under `k`, replacing a value already there.
    pub fn insert(&mut self, k: String, v: V)
        requires
            old(self).wf(),
        ensures
            final(self).wf(),
            final(self).map() == old(self).map().insert(k@, v),
    {
        let ghost before = *self;
        let ghost kv = k@;
        let ghost m = before.map().insert(kv, v);
        match self.find(k.as_str()) {
            Some(i) => {
                self.entries.remove(i);
                self.entries.insert(i, (k, v));
                proof {
                    assert forall|a: int, b: int| 0 <= a < b < self.entries@.len() implies #[trigger] self.entries@[a].0@
                        != #[trigger] self.entries@[b].0@ by {
                        assert(self.entries@[a].0@ == before.entries@[a].0@);
                        assert(self.entries@[b].0@ == before.entries@[b].0@);
                    }
                    assert forall|q: Seq<char>| #[trigger] m.contains_key(q) <==> self.has(q) by {
                        if self.has(q) {
                            let j = self.index_of_key(q);
                            assert(before.entries@[j].0@ == q);
                            assert(before.has(q));
                        }
                        if before.has(q) {
                            let j = before.index_of_key(q);
                            assert(self.entries@[j].0@ == q);
                        }
                        if q == kv {
                            assert(self.entries@[i as int].0@ == q);
                        }
                    }
                    assert forall|j: int| 0 <= j < self.entries@.len() implies m[#[trigger] self.entries@[j].0@] == self.entries@[j].1 by {
                        if j != i {
                            assert(self.entries@[j] == before.entries@[j]);
                            before.lemma_at(j);
                            assert(before.entries@[j].0@ != before.entries@[i as int].0@);
                        }
                    }
                    self.lemma_map_from(m);
                }
            },
            None => {
                self.entries.push((k, v));
                proof {
                    let n = self.entries@.len() - 1;
                    assert forall|a: int, b: int| 0 <= a < b < self.entries@.len() implies #[trigger] self.entries@[a].0@
                        != #[trigger] self.entries@[b].0@ by {
                        if b == n {
                            assert(before.entries@[a].0@ != kv);
                        } else {
                            assert(before.entries@[a].0@ != before.entries@[b].0@);
                        }
                    }
                    assert forall|q: Seq<char>| #[trigger] m.contains_key(q) <==> self.has(q) by {
                        if self.has(q) {
                            let j = self.index_of_key(q);
                            if j < n {
                                assert(before.entries@[j].0@ == q);
                                assert(before.has(q));
                            }
                        }
                        if before.has(q) {
                            let j = before.index_of_key(q);
                            assert(self.entries@[j].0@ == q);
                        }
                        if q == kv {
                            assert(self.entries@[n].0@ == q);
                        }
                    }
                    assert forall|j: int| 0 <= j < self.entries@.len() implies m[#[trigger] self.entries@[j].0@] == self.entries@[j].1 by {
                        if j != n {
                            assert(self.entries@[j] == before.entries@[j]);
                            before.lemma_at(j);
                        }
                    }
                    self.lemma_map_from(m);
                }
            },
        }
    }

    /// Removes and returns the value under `k`, if any.
    pub fn remove(&mut self, k: &str) -> (r: Option<V>)
        requires
            old(self).wf(),
        ensures
            final(self).wf(),
            final(self).map() == old(self).map().remove(k@),
            match r {
                Some(v) => old(self).map().contains_key(k@) && old(self).map()[k@] == v,
                None => !old(self).map().contains_key(k@),
            },
    {
        let ghost before = *self;
        let ghost m = before.map().remove(k@);
        match self.find(k) {
            Some(i) => {
                proof {
                    before.lemma_at(i as int);
                }
                let (_key, v) = self.entries.remove(i);
                proof {
                    assert forall|a: int, b: int| 0 <= a < b < self.entries@.len() implies #[trigger] self.entries@[a].0@
                        != #[trigger] self.entries@[b].0@ by {
                        let a0 = if a < i { a } else { a + 1 };
                        let b0 = if b < i { b } else { b + 1 };
                        assert(before.entries@[a0].0@ != before.entries@[b0].0@);
                    }
                    assert forall|q: Seq<char>| #[trigger] m.contains_key(q) <==> self.has(q) by {
                        if self.has(q) {
                            let j = self.index_of_key(q);
                            let j0 = if j < i { j } else { j + 1 };
                            assert(before.entries@[j0].0@ == q);
                            assert(before.has(q));
                            if j0 < i {
                                assert(before.entries@[j0].0@ != before.entries@[i as int].0@);
                            } else {
                                assert(before.entries@[i as int].0@ != before.entries@[j0].0@);
                            }
                        }
                        if before.has(q) && q != k@ {
                            let j = before.index_of_key(q);
                            assert(j != i);
                            let j1 = if j < i { j } else { j - 1 };
                            assert(self.entries@[j1].0@ == q);
                        }
                    }
                    assert forall|j: int| 0 <= j < self.entries@.len() implies m[#[trigger] self.entries@[j].0@] == self.entries@[j].1 by {
                        let j0 = if j < i { j } else { j + 1 };
                        assert(self.entries@[j] == before.entries@[j0]);
                        before.lemma_at(j0);
                        if j0 < i {
                            assert(before.entries@[j0].0@ != before.entries@[i as int].0@);
                        } else {
                            assert(before.entries@[i as int].0@ != before.entries@[j0].0@);
                        }
                    }
                    self.lemma_map_from(m);
                }
                Some(v)
            },
            None => {
                proof {
                    assert(self.map() =~= m);
                }
                None
            },
        }
    }

    pub fn len(&self) -> (n: usize)
        requires
            self.wf(),
        ensures
            n == self.map().len(),
    {
        proof {
            self.lemma_len();
        }
        self.entries.len()
    }

    proof fn lemma_len(&self)
        requires
            self.wf(),
        ensures
            self.map().dom().finite(),
            self.map().len() == self.entries@.len(),
    {
        let keys = self.entries@.map_values(|e: (String, V)| e.0@);
        assert(keys.no_duplicates()) by {
            assert forall|a: int, b: int| 0 <= a < keys.len() && 0 <= b < keys.len() && a != b implies keys[a] != keys[b] by {
                if a < b {
                    assert(self.entries@[a].0@ != self.entries@[b].0@);
                } else {
                    assert(self.entries@[b].0@ != self.entries@[a].0@);
                }
            }
        }
        assert(self.map().dom() =~= keys.to_set()) by {
            assert forall|q: Seq<char>| self.map().dom().contains(q) <==> keys.to_set().contains(q) by {
                if self.has(q) {
                    let j = self.index_of_key(q);
                    assert(keys[j] == q);
                }
                if keys.to_set().contains(q) {
                    let j = choose|j: int| 0 <= j < keys.len() && keys[j] == q;
                    assert(self.entries@[j].0@ == q);
                }
            }
        }
        keys.unique_seq_to_set();
    }
}

} // verus!
