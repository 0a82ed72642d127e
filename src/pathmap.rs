//! A finite map from paths to values, kept as parallel vectors of keys and
//! values with no key repeated.

use vstd::prelude::*;

use crate::path::{FsPath, PathKey};

verus! {

/// A map from paths to values. Iterating by position visits every key once.
pub struct PathMap<V> {
    keys: Vec<FsPath>,
    vals: Vec<V>,
    model: Ghost<Map<PathKey, V>>,
}

impl<V> View for PathMap<V> {
    type V = Map<PathKey, V>;

    closed spec fn view(&self) -> Map<PathKey, V> {
        self.model@
    }
}

impl<V> PathMap<V> {
    /// The entries in the order in which positions visit them.
    pub closed spec fn entries(&self) -> Seq<(PathKey, V)> {
        Seq::new(self.keys@.len(), |i: int| (self.keys@[i]@, self.vals@[i]))
    }

    /// Well-formedness: the entries hold each key once, and are exactly
    /// the pairs of the map.
    pub closed spec fn wf(&self) -> bool {
        &&& self.keys@.len() == self.vals@.len()
        &&& forall|i: int, j: int|
            0 <= i < j < self.keys@.len() ==> self.keys@[i]@ != self.keys@[j]@
        &&& forall|i: int|
            0 <= i < self.keys@.len() ==> #[trigger] self.model@.contains_key(self.keys@[i]@)
                && self.model@[self.keys@[i]@] == self.vals@[i]
        &&& forall|k: PathKey|
            #[trigger] self.model@.contains_key(k) ==> exists|i: int|
                0 <= i < self.keys@.len() && self.keys@[i]@ == k
        &&& self.model@.dom().finite()
        &&& self.model@.len() == self.keys@.len()
    }

    /// What the entries say of the map.
    pub proof fn lemma_entries(&self)
        requires
            self.wf(),
        ensures
            self.entries().len() == self@.len(),
            entries_unique(self.entries()),
            forall|i: int|
                0 <= i < self.entries().len() ==> #[trigger] self@.contains_key(
                    self.entries()[i].0,
                ) && self@[self.entries()[i].0] == self.entries()[i].1,
            forall|k: PathKey| #[trigger]
                self@.contains_key(k) ==> exists|i: int|
                    0 <= i < self.entries().len() && self.entries()[i].0 == k,
            self@.dom().finite(),
    {
        assert forall|k: PathKey| #[trigger] self@.contains_key(k) implies exists|i: int|
            0 <= i < self.entries().len() && self.entries()[i].0 == k by {
            let i = choose|i: int| 0 <= i < self.keys@.len() && self.keys@[i]@ == k;
            assert(self.entries()[i].0 == k);
        }
    }

    /// An empty map.
    pub fn new() -> (r: PathMap<V>)
        ensures
            r.wf(),
            r@ == Map::<PathKey, V>::empty(),
    {
        PathMap { keys: Vec::new(), vals: Vec::new(), model: Ghost(Map::empty()) }
    }

    /// The number of keys.
    pub fn len(&self) -> (r: usize)
        requires
            self.wf(),
        ensures
            r == self@.len(),
            r == self.entries().len(),
    {
        self.keys.len()
    }

    /// Whether the map holds no key.
    pub fn is_empty(&self) -> (r: bool)
        requires
            self.wf(),
        ensures
            r == (self@.len() == 0),
            r == (self@ == Map::<PathKey, V>::empty()),
    {
        proof {
            if self@.len() == 0 {
                assert(self@.dom() =~= Set::<PathKey>::empty());
                assert(self@ =~= Map::<PathKey, V>::empty());
            }
        }
        self.keys.len() == 0
    }

    /// The key at position `i`.
    pub fn key_at(&self, i: usize) -> (r: &FsPath)
        requires
            self.wf(),
            i < self.entries().len(),
        ensures
            r@ == self.entries()[i as int].0,
    {
        &self.keys[i]
    }

    /// The value at position `i`.
    pub fn value_at(&self, i: usize) -> (r: &V)
        requires
            self.wf(),
            i < self.entries().len(),
        ensures
            *r == self.entries()[i as int].1,
    {
        &self.vals[i]
    }

    /// The position of `k`, if it is a key.
    fn find(&self, k: &FsPath) -> (r: Option<usize>)
        requires
            self.wf(),
        ensures
            match r {
                Some(i) => i < self.keys@.len() && self.keys@[i as int]@ == k@,
                None => !self@.contains_key(k@),
            },
    {
        let mut i: usize = 0;
        while i < self.keys.len()
            invariant
                self.wf(),
                i <= self.keys@.len(),
                forall|j: int| 0 <= j < i ==> self.keys@[j]@ != k@,
            decreases self.keys@.len() - i,
        {
            if self.keys[i].same_as(k) {
                return Some(i);
            }
            i = i + 1;
        }
        None
    }

    /// The value at key `k`, if any.
    pub fn get(&self, k: &FsPath) -> (r: Option<&V>)
        requires
            self.wf(),
        ensures
            r == (if self@.contains_key(k@) {
                Some(&self@[k@])
            } else {
                None
            }),
    {
        match self.find(k) {
            Some(i) => Some(&self.vals[i]),
            None => None,
        }
    }

    /// Maps `k` to `v`, replacing any earlier value at `k`.
    pub fn insert(&mut self, k: FsPath, v: V)
        requires
            old(self).wf(),
        ensures
            final(self).wf(),
            final(self)@ == old(self)@.insert(k@, v),
    {
        match self.find(&k) {
            Some(i) => {
                self.vals.set(i, v);
                self.model = Ghost(self.model@.insert(k@, v));
                assert(self.model@.dom() =~= old(self).model@.dom());
                assert forall|k2: PathKey| #[trigger] self.model@.contains_key(k2) implies exists|j: int|
                    0 <= j < self.keys@.len() && self.keys@[j]@ == k2 by {
                    if k2 != k@ {
                        assert(old(self).model@.contains_key(k2));
                        let j = choose|j: int| 0 <= j < old(self).keys@.len() && old(self).keys@[j]@ == k2;
                        assert(self.keys@[j]@ == k2);
                    } else {
                        assert(self.keys@[i as int]@ == k2);
                    }
                }
                assert forall|j: int| 0 <= j < self.keys@.len() implies #[trigger] self.model@.contains_key(
                    self.keys@[j]@,
                ) && self.model@[self.keys@[j]@] == self.vals@[j] by {
                    if j != i {
                        if j < i {
                            assert(self.keys@[j]@ != self.keys@[i as int]@);
                        } else {
                            assert(self.keys@[i as int]@ != self.keys@[j]@);
                        }
                        assert(old(self).model@.contains_key(self.keys@[j]@));
                    }
                }
            },
            None => {
                let ghost kv = k@;
                self.keys.push(k);
                self.vals.push(v);
                self.model = Ghost(self.model@.insert(kv, v));
                let ghost n = self.keys@.len() - 1;
                assert(self.keys@[n]@ == kv);
                assert forall|k2: PathKey| #[trigger] self.model@.contains_key(k2) implies exists|j: int|
                    0 <= j < self.keys@.len() && self.keys@[j]@ == k2 by {
                    if k2 != kv {
                        assert(old(self).model@.contains_key(k2));
                        let j = choose|j: int| 0 <= j < old(self).keys@.len() && old(self).keys@[j]@ == k2;
                        assert(self.keys@[j]@ == k2);
                    }
                }
            },
        }
    }

    /// Removes key `k`, if present.
    pub fn remove(&mut self, k: &FsPath)
        requires
            old(self).wf(),
        ensures
            final(self).wf(),
            final(self)@ == old(self)@.remove(k@),
    {
        match self.find(k) {
            Some(i) => {
                self.keys.remove(i);
                self.vals.remove(i);
                self.model = Ghost(self.model@.remove(k@));
                assert forall|a: int, b: int| 0 <= a < b < self.keys@.len() implies self.keys@[a]@
                    != self.keys@[b]@ by {
                    let a0 = if a < i { a } else { a + 1 };
                    let b0 = if b < i { b } else { b + 1 };
                    assert(self.keys@[a] == old(self).keys@[a0]);
                    assert(self.keys@[b] == old(self).keys@[b0]);
                }
                assert forall|j: int| 0 <= j < self.keys@.len() implies #[trigger] self.model@.contains_key(
                    self.keys@[j]@,
                ) && self.model@[self.keys@[j]@] == self.vals@[j] by {
                    let j0 = if j < i { j } else { j + 1 };
                    assert(self.keys@[j] == old(self).keys@[j0]);
                    assert(self.vals@[j] == old(self).vals@[j0]);
                    if j0 < i {
                        assert(old(self).keys@[j0]@ != old(self).keys@[i as int]@);
                    } else {
                        assert(old(self).keys@[i as int]@ != old(self).keys@[j0]@);
                    }
                    assert(old(self).model@.contains_key(old(self).keys@[j0]@));
                }
                assert forall|k2: PathKey| #[trigger] self.model@.contains_key(k2) implies exists|j: int|
                    0 <= j < self.keys@.len() && self.keys@[j]@ == k2 by {
                    assert(old(self).model@.contains_key(k2));
                    let j0 = choose|j: int| 0 <= j < old(self).keys@.len() && old(self).keys@[j]@ == k2;
                    assert(j0 != i);
                    let j = if j0 < i { j0 } else { j0 - 1 };
                    assert(self.keys@[j] == old(self).keys@[j0]);
                }
            },
            None => {
                assert(self.model@ =~= old(self).model@.remove(k@));
            },
        }
    }
}

/// No key occurs twice among the entries.
pub open spec fn entries_unique<V>(s: Seq<(PathKey, V)>) -> bool {
    forall|i: int, j: int| 0 <= i < j < s.len() ==> s[i].0 != s[j].0
}

} // verus!
