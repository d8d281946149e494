//! A keyed store over 32-byte keys.
//!
//! An [`Index`] keeps its entries in the order in which their keys first
//! arrived and never holds a key twice. What it holds is described by
//! [`Index::contents`], a map from the bytes of a key to the value stored
//! under it.

use vstd::prelude::*;
use crate::crypto::bytes_equal;

verus! {

/// A store of values under 32-byte keys.
pub struct Index<V> {
    pub keys: Vec<[u8; 32]>,
    pub values: Vec<V>,
}

impl<V> Index<V> {
    /// Keys and values run in parallel, and no key occurs twice.
    pub open spec fn wf(&self) -> bool {
        &&& self.keys.len() == self.values.len()
        &&& forall|i: int, j: int|
            0 <= i < j < self.keys.len() ==> (#[trigger] self.keys[i])@ != (#[trigger] self.keys[j])@
    }

    /// Whether some entry has the key `key`.
    pub open spec fn holds(&self, key: Seq<u8>) -> bool {
        exists|i: int| 0 <= i < self.keys.len() && (#[trigger] self.keys[i])@ == key
    }

    /// The place of the entry with the key `key`, where there is one.
    pub open spec fn position(&self, key: Seq<u8>) -> int {
        choose|i: int| 0 <= i < self.keys.len() && (#[trigger] self.keys[i])@ == key
    }

    /// The stored values by the bytes of their keys.
    pub open spec fn contents(&self) -> Map<Seq<u8>, V> {
        Map::new(|k: Seq<u8>| self.holds(k), |k: Seq<u8>| self.values[self.position(k)])
    }

    /// In a well-formed index the entry at place `i` is the one that
    /// `contents` gives for its key.
    pub proof fn lemma_entry(&self, i: int)
        requires
            self.wf(),
            0 <= i < self.keys.len(),
        ensures
            self.holds(self.keys[i]@),
            self.position(self.keys[i]@) == i,
            self.contents().contains_key(self.keys[i]@),
            self.contents()[self.keys[i]@] == self.values[i],
    {
        let k = self.keys[i]@;
        assert(self.holds(k));
        let p = self.position(k);
        assert(0 <= p < self.keys.len() && self.keys[p]@ == k);
        if p < i {
            assert(self.keys[p]@ != self.keys[i]@);
        } else if i < p {
            assert(self.keys[i]@ != self.keys[p]@);
        }
    }

    /// An index without entries.
    pub fn new() -> (index: Index<V>)
        ensures
            index.wf(),
            index.contents() == Map::<Seq<u8>, V>::empty(),
    {
        let index = Index { keys: Vec::new(), values: Vec::new() };
        assert(index.contents() =~= Map::<Seq<u8>, V>::empty());
        index
    }

    /// The number of entries.
    pub fn len(&self) -> (n: usize)
        ensures
            n == self.keys.len(),
    {
        self.keys.len()
    }

    /// The place of `key` among the entries.
    pub fn find(&self, key: &[u8; 32]) -> (place: Option<usize>)
        ensures
            match place {
                Some(i) => i < self.keys.len() && self.keys[i as int]@ == key@,
                None => !self.holds(key@),
            },
    {
        let mut i: usize = 0;
        while i < self.keys.len()
            invariant
                i <= self.keys.len(),
                forall|j: int| 0 <= j < i ==> (#[trigger] self.keys[j])@ != key@,
            decreases self.keys.len() - i,
        {
            if bytes_equal(&self.keys[i], key) {
                return Some(i);
            }
            i = i + 1;
        }
        None
    }

    /// Whether a value is stored under `key`.
    pub fn contains(&self, key: &[u8; 32]) -> (found: bool)
        ensures
            found == self.contents().contains_key(key@),
    {
        self.find(key).is_some()
    }

    /// The value stored under `key`.
    pub fn get(&self, key: &[u8; 32]) -> (value: Option<&V>)
        requires
            self.wf(),
        ensures
            match value {
                Some(v) => self.contents().contains_key(key@) && *v == self.contents()[key@],
                None => !self.contents().contains_key(key@),
            },
    {
        match self.find(key) {
            Some(i) => {
                proof {
                    self.lemma_entry(i as int);
                }
                Some(&self.values[i])
            },
            None => None,
        }
    }

    /// Stores `value` under `key`, in place of what was stored there.
    pub fn put(&mut self, key: [u8; 32], value: V)
        requires
            old(self).wf(),
        ensures
            final(self).wf(),
            final(self).contents() == old(self).contents().insert(key@, value),
    {
        let ghost before = *self;
        match self.find(&key) {
            Some(i) => {
                self.values.remove(i);
                self.values.insert(i, value);
                proof {
                    before.lemma_entry(i as int);
                    assert(self.keys == before.keys);
                    assert forall|k: Seq<u8>| #[trigger] self.contents().contains_key(k) implies
                        self.contents()[k] == before.contents().insert(key@, value)[k] by {
                        let p = self.position(k);
                        assert(p == before.position(k));
                        if k != key@ {
                            assert(self.keys[p]@ == k);
                            assert(p != i);
                        }
                    }
                    assert(self.contents() =~= before.contents().insert(key@, value));
                }
            },
            None => {
                self.keys.push(key);
                self.values.push(value);
                proof {
                    let last = before.keys.len() as int;
                    assert forall|i: int, j: int| 0 <= i < j < self.keys.len() implies (
                    #[trigger] self.keys[i])@ != (#[trigger] self.keys[j])@ by {
                        assert(self.keys[i] == before.keys[i]);
                        if j < last {
                            assert(self.keys[j] == before.keys[j]);
                        }
                    }
                    self.lemma_entry(last);
                    assert forall|k: Seq<u8>|
                        before.contents().insert(key@, value).contains_key(k) implies (
                    #[trigger] self.contents().contains_key(k)) && self.contents()[k]
                        == before.contents().insert(key@, value)[k] by {
                        if k != key@ {
                            let p = before.position(k);
                            assert(self.keys[p] == before.keys[p]);
                            self.lemma_entry(p);
                        }
                    }
                    assert forall|k: Seq<u8>| #[trigger] self.contents().contains_key(k) implies
                        before.contents().insert(key@, value).contains_key(k) by {
                        let p = self.position(k);
                        if p < last {
                            assert(before.keys[p]@ == k);
                        }
                    }
                    assert(self.contents() =~= before.contents().insert(key@, value));
                }
            },
        }
    }

    /// Removes what is stored under `key`, if anything.
    pub fn remove(&mut self, key: &[u8; 32])
        requires
            old(self).wf(),
        ensures
            final(self).wf(),
            final(self).contents() == old(self).contents().remove(key@),
    {
        let ghost before = *self;
        match self.find(key) {
            Some(i) => {
                self.keys.remove(i);
                self.values.remove(i);
                proof {
                    before.lemma_entry(i as int);
                    assert forall|a: int| 0 <= a < self.keys.len() implies #[trigger] self.keys[a]
                        == before.keys[if a < i { a } else { a + 1 }] && self.values[a]
                        == before.values[if a < i { a } else { a + 1 }] by {}
                    assert forall|a: int, b: int| 0 <= a < b < self.keys.len() implies (
                    #[trigger] self.keys[a])@ != (#[trigger] self.keys[b])@ by {
                        let sa = if a < i { a } else { a + 1 };
                        let sb = if b < i { b } else { b + 1 };
                        assert(before.keys[sa]@ != before.keys[sb]@);
                    }
                    assert forall|k: Seq<u8>|
                        before.contents().remove(key@).contains_key(k) implies (
                    #[trigger] self.contents().contains_key(k)) && self.contents()[k]
                        == before.contents()[k] by {
                        let p = before.position(k);
                        before.lemma_entry(p);
                        assert(p != i);
                        let q = if p < i { p } else { p - 1 };
                        assert(self.keys[q] == before.keys[p]);
                        self.lemma_entry(q);
                    }
                    assert forall|k: Seq<u8>| #[trigger] self.contents().contains_key(k) implies
                        before.contents().remove(key@).contains_key(k) by {
                        let q = self.position(k);
                        let p = if q < i { q } else { q + 1 };
                        assert(self.keys[q] == before.keys[p]);
                        assert(before.keys[p]@ == k);
                        if p < i {
                            assert(before.keys[p]@ != before.keys[i as int]@);
                        } else {
                            assert(before.keys[i as int]@ != before.keys[p]@);
                        }
                    }
                    assert(self.contents() =~= before.contents().remove(key@));
                }
            },
            None => {
                proof {
                    assert(self.contents() =~= before.contents().remove(key@));
                }
            },
        }
    }
}

} // verus!
