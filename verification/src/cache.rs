//! An insertion-ordered, append-only cache: values are appended to a vector
//! and found again through their key.  Indices handed out are permanent.

use vstd::prelude::*;

use crate::ids::{bytes_eq, ModuleId};

verus! {

/// A key usable in a [`BinaryCache`]: it has a mathematical view and an
/// executable equality that decides view equality.
pub trait EqKey: View + Sized {
    /// Equality of two keys.
    fn eq_key(&self, other: &Self) -> (r: bool)
        ensures
            r <==> self@ == other@,
    ;
}

impl EqKey for ModuleId {
    fn eq_key(&self, other: &Self) -> (r: bool)
        ensures
            r <==> self@ == other@,
    {
        self.id_eq(other)
    }
}

impl EqKey for Vec<u8> {
    fn eq_key(&self, other: &Self) -> (r: bool)
        ensures
            r <==> self@ == other@,
    {
        bytes_eq(self, other)
    }
}

/// An append-only mapping from keys to values.  Each inserted value sits at a
/// permanent index; keys are unique.
pub struct BinaryCache<K, V> {
    pub keys: Vec<K>,
    pub binaries: Vec<V>,
}

impl<K: EqKey, V> BinaryCache<K, V> {
    /// The cache is a pair of parallel vectors with no repeated key.
    pub open spec fn wf(self) -> bool {
        &&& self.keys@.len() == self.binaries@.len()
        &&& forall|i: int, j: int|
            0 <= i < j < self.keys@.len() ==> self.keys@[i]@ != self.keys@[j]@
    }

    /// Whether some key with the view `k` is present.
    pub open spec fn spec_contains_key(self, k: K::V) -> bool {
        exists|i: int| 0 <= i < self.keys@.len() && self.keys@[i]@ == k
    }

    /// The index at which the key with view `k` sits.
    pub open spec fn spec_index_of(self, k: K::V) -> int {
        choose|i: int| 0 <= i < self.keys@.len() && self.keys@[i]@ == k
    }

    /// The value stored under the key with view `k`.
    pub open spec fn spec_value_of(self, k: K::V) -> V {
        self.binaries@[self.spec_index_of(k)]
    }

    /// An empty cache.
    pub fn new() -> (r: BinaryCache<K, V>)
        ensures
            r.wf(),
            r.keys@.len() == 0,
            r.binaries@.len() == 0,
    {
        BinaryCache { keys: Vec::new(), binaries: Vec::new() }
    }

    /// The index of the entry whose key equals `key`, if any.
    pub fn index_of(&self, key: &K) -> (r: Option<usize>)
        requires
            self.wf(),
        ensures
            match r {
                Some(i) => i < self.keys@.len() && self.keys@[i as int]@ == key@
                    && i == self.spec_index_of(key@),
                None => !self.spec_contains_key(key@),
            },
    {
        let mut i: usize = 0;
        while i < self.keys.len()
            invariant
                self.wf(),
                0 <= i <= self.keys@.len(),
                forall|j: int| 0 <= j < i ==> self.keys@[j]@ != key@,
            decreases self.keys@.len() - i,
        {
            if self.keys[i].eq_key(key) {
                return Some(i);
            }
            i = i + 1;
        }
        None
    }

    /// Appends `binary` under `key` and returns its permanent index.  The
    /// caller must have checked that the key is absent.
    pub fn insert(&mut self, key: K, binary: V) -> (idx: usize)
        requires
            old(self).wf(),
            !old(self).spec_contains_key(key@),
        ensures
            final(self).wf(),
            idx == old(self).binaries@.len(),
            final(self).keys@ == old(self).keys@.push(key),
            final(self).binaries@ == old(self).binaries@.push(binary),
            final(self).spec_contains_key(key@),
            final(self).spec_index_of(key@) == idx,
    {
        let ghost keyv = key@;
        self.binaries.push(binary);
        self.keys.push(key);
        let idx = self.binaries.len() - 1;
        proof {
            assert(self.keys@[idx as int]@ == keyv);
            let i = self.spec_index_of(keyv);
            if i != idx {
                assert(self.keys@[i]@ == self.keys@[idx as int]@);
            }
        }
        idx
    }

    /// The value stored under `key`, if any.
    pub fn get(&self, key: &K) -> (r: Option<&V>)
        requires
            self.wf(),
        ensures
            match r {
                Some(v) => self.spec_contains_key(key@) && *v == self.spec_value_of(key@),
                None => !self.spec_contains_key(key@),
            },
    {
        match self.index_of(key) {
            Some(i) => Some(&self.binaries[i]),
            None => None,
        }
    }

    /// The value at a permanent index.
    pub fn value_at(&self, idx: usize) -> (r: &V)
        requires
            self.wf(),
            idx < self.binaries@.len(),
        ensures
            *r == self.binaries@[idx as int],
    {
        &self.binaries[idx]
    }

    /// The number of entries.
    pub fn len(&self) -> (r: usize)
        ensures
            r == self.binaries@.len(),
    {
        self.binaries.len()
    }
}

} // verus!
