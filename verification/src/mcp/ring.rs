//! Bounded per-key ring buffers: the storage behind the per-server log and
//! action buffers. Each key (a server id) owns a queue that drops its oldest
//! entry when a push finds it full. The keys are strings, for which vstd's
//! specification of `std::collections::HashMap` proves nothing (not even
//! the length after one insert), so the queues are kept in a vector with
//! distinct keys.

use std::collections::VecDeque;

use vstd::prelude::*;

use crate::text::{owned, str_eq};

verus! {

/// `q` after pushing `v` into a ring of capacity `cap`: the oldest entry is
/// dropped first when `q` already holds `cap` or more entries.
pub open spec fn ring_push<T>(q: Seq<T>, v: T, cap: int) -> Seq<T> {
    (if q.len() >= cap && q.len() > 0 {
        q.drop_first()
    } else {
        q
    }).push(v)
}

/// The last `limit` entries of `q`, oldest first.
pub open spec fn last_n<T>(q: Seq<T>, limit: int) -> Seq<T> {
    if limit >= q.len() {
        q
    } else {
        q.skip(q.len() - limit)
    }
}

pub struct KeyedRing<T> {
    pub key: String,
    pub ring: VecDeque<T>,
}

/// A map from keys to bounded queues.
pub struct RingMap<T> {
    buffers: Vec<KeyedRing<T>>,
    capacity: usize,
}

impl<T> RingMap<T> {
    /// Keys are distinct and no queue holds more than `max(capacity, 1)`
    /// entries.
    pub closed spec fn wf(&self) -> bool {
        &&& forall|i: int, j: int|
            0 <= i < j < self.buffers@.len() ==> #[trigger] self.buffers@[i].key@
                != #[trigger] self.buffers@[j].key@
        &&& forall|i: int|
            0 <= i < self.buffers@.len() ==> (#[trigger] self.buffers@[i]).ring@.len() <= if self.capacity
                > 0 {
                self.capacity as int
            } else {
                1
            }
    }

    pub closed spec fn cap(&self) -> int {
        self.capacity as int
    }

    closed spec fn has_key(&self, k: Seq<char>) -> bool {
        exists|i: int| 0 <= i < self.buffers@.len() && #[trigger] self.buffers@[i].key@ == k
    }

    closed spec fn key_index(&self, k: Seq<char>) -> int {
        choose|i: int| 0 <= i < self.buffers@.len() && #[trigger] self.buffers@[i].key@ == k
    }

    /// The queue held for key `k` (empty when there is none).
    pub closed spec fn entries(&self, k: Seq<char>) -> Seq<T> {
        if self.has_key(k) {
            self.buffers@[self.key_index(k)].ring@
        } else {
            Seq::empty()
        }
    }

    proof fn lemma_entries_at(&self, i: int)
        requires
            self.wf(),
            0 <= i < self.buffers@.len(),
        ensures
            self.entries(self.buffers@[i].key@) == self.buffers@[i].ring@,
    {
        let k = self.buffers@[i].key@;
        assert(self.has_key(k));
        let c = self.key_index(k);
        if c != i {
            if c < i {
                assert(self.buffers@[c].key@ != self.buffers@[i].key@);
            } else {
                assert(self.buffers@[i].key@ != self.buffers@[c].key@);
            }
        }
    }

    /// After replacing the queue at index `i` (keeping its key), every other
    /// key keeps its entries.
    proof fn lemma_frame(old: &Self, new: &Self, i: int)
        requires
            old.wf(),
            0 <= i < old.buffers@.len(),
            new.buffers@.len() == old.buffers@.len(),
            forall|j: int| 0 <= j < old.buffers@.len() ==> #[trigger] new.buffers@[j].key@ == old.buffers@[j].key@,
            forall|j: int| 0 <= j < old.buffers@.len() && j != i ==> #[trigger] new.buffers@[j] == old.buffers@[j],
        ensures
            forall|k: Seq<char>| k != old.buffers@[i].key@ ==> #[trigger] new.entries(k) == old.entries(k),
    {
        assert forall|k: Seq<char>| k != old.buffers@[i].key@ implies #[trigger] new.entries(k) == old.entries(k) by {
            if old.has_key(k) {
                let c = old.key_index(k);
                assert(new.buffers@[c].key@ == k);
                assert(new.has_key(k));
                let d = new.key_index(k);
                if d != c {
                    assert(new.buffers@[d].key@ == old.buffers@[d].key@);
                    if d < c {
                        assert(old.buffers@[d].key@ != old.buffers@[c].key@);
                    } else {
                        assert(old.buffers@[c].key@ != old.buffers@[d].key@);
                    }
                }
            } else {
                if new.has_key(k) {
                    let d = new.key_index(k);
                    assert(old.buffers@[d].key@ == k);
                }
            }
        }
    }

    pub fn new(capacity: usize) -> (r: Self)
        ensures
            r.wf(),
            r.cap() == capacity,
            forall|k: Seq<char>| #[trigger] r.entries(k) == Seq::<T>::empty(),
    {
        RingMap { buffers: Vec::new(), capacity }
    }

    /// Index of the queue for key `k`.
    fn find(&self, k: &str) -> (r: Option<usize>)
        requires
            self.wf(),
        ensures
            match r {
                Some(i) => i < self.buffers@.len() && self.buffers@[i as int].key@ == k@,
                None => !self.has_key(k@),
            },
    {
        let mut i: usize = 0;
        while i < self.buffers.len()
            invariant
                i <= self.buffers@.len(),
                forall|j: int| 0 <= j < i ==> self.buffers@[j].key@ != k@,
            decreases self.buffers.len() - i,
        {
            if str_eq(self.buffers[i].key.as_str(), k) {
                return Some(i);
            }
            i = i + 1;
        }
        None
    }

    /// The queue for key `k`, if one exists.
    pub fn get(&self, k: &str) -> (r: Option<&VecDeque<T>>)
        requires
            self.wf(),
        ensures
            match r {
                Some(q) => q@ == self.entries(k@),
                None => self.entries(k@) == Seq::<T>::empty(),
            },
    {
        match self.find(k) {
            Some(i) => {
                proof {
                    self.lemma_entries_at(i as int);
                }
                Some(&self.buffers[i].ring)
            },
            None => None,
        }
    }

    /// Pushes `v` into the queue of `k`, dropping the oldest entry when full.
    pub fn push(&mut self, k: &str, v: T)
        requires
            old(self).wf(),
        ensures
            final(self).wf(),
            final(self).cap() == old(self).cap(),
            final(self).entries(k@) == ring_push(old(self).entries(k@), v, old(self).cap()),
            forall|o: Seq<char>| o != k@ ==> #[trigger] final(self).entries(o) == old(self).entries(o),
    {
        let ghost before = *self;
        match self.find(k) {
            Some(i) => {
                proof {
                    self.lemma_entries_at(i as int);
                }
                let mut b = self.buffers.remove(i);
                if b.ring.len() >= self.capacity {
                    b.ring.pop_front();
                }
                b.ring.push_back(v);
                self.buffers.insert(i, b);
                proof {
                    assert(self.buffers@[i as int].key@ == k@);
                    Self::lemma_frame(&before, self, i as int);
                    self.lemma_entries_at(i as int);
                    assert(self.buffers@[i as int].ring@ =~= ring_push(before.entries(k@), v, before.cap()));
                }
            },
            None => {
                let mut ring: VecDeque<T> = VecDeque::with_capacity(self.capacity);
                ring.push_back(v);
                self.buffers.push(KeyedRing { key: owned(k), ring });
                proof {
                    let n = self.buffers@.len() - 1;
                    assert forall|a: int, b: int| 0 <= a < b < self.buffers@.len() implies #[trigger] self.buffers@[a].key@
                        != #[trigger] self.buffers@[b].key@ by {
                        if b == n {
                            assert(before.buffers@[a].key@ != k@);
                        } else {
                            assert(before.buffers@[a].key@ != before.buffers@[b].key@);
                        }
                    }
                    self.lemma_entries_at(n);
                    assert(self.entries(k@) =~= ring_push(Seq::<T>::empty(), v, before.cap()));
                    assert forall|o: Seq<char>| o != k@ implies #[trigger] self.entries(o) == before.entries(o) by {
                        if before.has_key(o) {
                            let c = before.key_index(o);
                            assert(self.buffers@[c] == before.buffers@[c]);
                            self.lemma_entries_at(c);
                            before.lemma_entries_at(c);
                        } else if self.has_key(o) {
                            let d = self.key_index(o);
                            assert(d != n);
                            assert(before.buffers@[d].key@ == o);
                        }
                    }
                }
            },
        }
    }

    /// Replaces the entry at `pos` in the queue of `k`.
    pub fn set_at(&mut self, k: &str, pos: usize, v: T)
        requires
            old(self).wf(),
            pos < old(self).entries(k@).len(),
        ensures
            final(self).wf(),
            final(self).cap() == old(self).cap(),
            final(self).entries(k@) == old(self).entries(k@).update(pos as int, v),
            forall|o: Seq<char>| o != k@ ==> #[trigger] final(self).entries(o) == old(self).entries(o),
    {
        let ghost before = *self;
        match self.find(k) {
            Some(i) => {
                proof {
                    self.lemma_entries_at(i as int);
                }
                let mut b = self.buffers.remove(i);
                b.ring.remove(pos);
                b.ring.insert(pos, v);
                self.buffers.insert(i, b);
                proof {
                    Self::lemma_frame(&before, self, i as int);
                    self.lemma_entries_at(i as int);
                    assert(self.buffers@[i as int].ring@ =~= before.entries(k@).update(pos as int, v));
                }
            },
            None => {},
        }
    }

    /// Drops the queue of `k`.
    pub fn remove_key(&mut self, k: &str)
        requires
            old(self).wf(),
        ensures
            final(self).wf(),
            final(self).cap() == old(self).cap(),
            final(self).entries(k@) == Seq::<T>::empty(),
            forall|o: Seq<char>| o != k@ ==> #[trigger] final(self).entries(o) == old(self).entries(o),
    {
        let ghost before = *self;
        match self.find(k) {
            Some(i) => {
                self.buffers.remove(i);
                proof {
                    assert forall|a: int, b: int| 0 <= a < b < self.buffers@.len() implies #[trigger] self.buffers@[a].key@
                        != #[trigger] self.buffers@[b].key@ by {
                        let a0 = if a < i { a } else { a + 1 };
                        let b0 = if b < i { b } else { b + 1 };
                        assert(self.buffers@[a] == before.buffers@[a0]);
                        assert(self.buffers@[b] == before.buffers@[b0]);
                        assert(before.buffers@[a0].key@ != before.buffers@[b0].key@);
                    }
                    assert forall|j: int| 0 <= j < self.buffers@.len() implies (#[trigger] self.buffers@[j]).ring@.len() <= if self.capacity > 0 {
                        self.capacity as int
                    } else {
                        1
                    } by {
                        let j0 = if j < i { j } else { j + 1 };
                        assert(self.buffers@[j] == before.buffers@[j0]);
                    }
                    if self.has_key(k@) {
                        let d = self.key_index(k@);
                        let d0 = if d < i { d } else { d + 1 };
                        assert(self.buffers@[d] == before.buffers@[d0]);
                        if d0 < i {
                            assert(before.buffers@[d0].key@ != before.buffers@[i as int].key@);
                        } else {
                            assert(before.buffers@[i as int].key@ != before.buffers@[d0].key@);
                        }
                    }
                    assert forall|o: Seq<char>| o != k@ implies #[trigger] self.entries(o) == before.entries(o) by {
                        if before.has_key(o) {
                            let c = before.key_index(o);
                            assert(c != i);
                            let c1 = if c < i { c } else { c - 1 };
                            assert(self.buffers@[c1] == before.buffers@[c]);
                            self.lemma_entries_at(c1);
                            before.lemma_entries_at(c);
                        } else if self.has_key(o) {
                            let d = self.key_index(o);
                            let d0 = if d < i { d } else { d + 1 };
                            assert(self.buffers@[d] == before.buffers@[d0]);
                        }
                    }
                }
            },
            None => {},
        }
    }
}

} // verus!
