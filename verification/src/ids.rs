//! Identifiers and module identities, with executable equality proved
//! against view equality, and a small set of module identities used by the
//! dependency traversal.

use vstd::prelude::*;

verus! {

/// Equality of two byte strings.
pub fn bytes_eq(a: &Vec<u8>, b: &Vec<u8>) -> (r: bool)
    ensures
        r <==> a@ == b@,
{
    if a.len() != b.len() {
        assert(a@.len() != b@.len());
        return false;
    }
    let mut i: usize = 0;
    while i < a.len()
        invariant
            0 <= i <= a@.len(),
            a@.len() == b@.len(),
            forall|j: int| 0 <= j < i ==> a@[j] == b@[j],
        decreases a@.len() - i,
    {
        if a[i] != b[i] {
            return false;
        }
        i = i + 1;
    }
    proof {
        assert(a@ =~= b@);
    }
    true
}

/// A globally unique module name: an account address together with the
/// module's name inside that account.  Addresses and names are byte strings.
#[derive(Debug)]
pub struct ModuleId {
    pub address: Vec<u8>,
    pub name: Vec<u8>,
}

/// The mathematical value of a `ModuleId`.
pub struct ModuleIdV {
    pub address: Seq<u8>,
    pub name: Seq<u8>,
}

impl View for ModuleId {
    type V = ModuleIdV;

    open spec fn view(&self) -> ModuleIdV {
        ModuleIdV { address: self.address@, name: self.name@ }
    }
}

impl ModuleId {
    /// Equality of two module identities.
    pub fn id_eq(&self, other: &ModuleId) -> (r: bool)
        ensures
            r <==> self@ == other@,
    {
        let r = bytes_eq(&self.address, &other.address) && bytes_eq(&self.name, &other.name);
        if r {
            assert(self@ =~= other@);
        }
        r
    }

    /// An owned copy of this module identity.
    pub fn duplicate(&self) -> (r: ModuleId)
        ensures
            r@ == self@,
    {
        let address = clone_bytes(&self.address);
        let name = clone_bytes(&self.name);
        let r = ModuleId { address, name };
        assert(r@ =~= self@);
        r
    }
}

/// An owned copy of a byte string.
pub fn clone_bytes(a: &Vec<u8>) -> (r: Vec<u8>)
    ensures
        r@ == a@,
{
    let mut r: Vec<u8> = Vec::new();
    let mut i: usize = 0;
    while i < a.len()
        invariant
            0 <= i <= a@.len(),
            r@ == a@.subrange(0, i as int),
        decreases a@.len() - i,
    {
        r.push(a[i]);
        assert(r@ =~= a@.subrange(0, i + 1 as int));
        i = i + 1;
    }
    assert(r@ =~= a@);
    r
}

/// A set of module identities, kept as a vector without duplicates.
pub struct IdSet {
    pub items: Vec<ModuleId>,
}

impl View for IdSet {
    type V = Set<ModuleIdV>;

    open spec fn view(&self) -> Set<ModuleIdV> {
        Set::new(|v: ModuleIdV| exists|i: int| 0 <= i < self.items@.len() && self.items@[i]@ == v)
    }
}

impl IdSet {
    /// The empty set.
    pub fn new() -> (r: IdSet)
        ensures
            r@ == Set::<ModuleIdV>::empty(),
    {
        let r = IdSet { items: Vec::new() };
        proof {
            assert(r@ =~= Set::<ModuleIdV>::empty());
        }
        r
    }

    /// Whether `id` is in the set.
    pub fn contains(&self, id: &ModuleId) -> (r: bool)
        ensures
            r <==> self@.contains(id@),
    {
        let mut i: usize = 0;
        while i < self.items.len()
            invariant
                0 <= i <= self.items@.len(),
                forall|j: int| 0 <= j < i ==> self.items@[j]@ != id@,
            decreases self.items@.len() - i,
        {
            if self.items[i].id_eq(id) {
                return true;
            }
            i = i + 1;
        }
        false
    }

    /// Inserts `id`; a duplicate insert leaves the set unchanged.
    pub fn insert(&mut self, id: ModuleId)
        ensures
            final(self)@ == old(self)@.insert(id@),
    {
        if !self.contains(&id) {
            let ghost before = *self;
            let ghost idv = id@;
            self.items.push(id);
            proof {
                assert forall|v: ModuleIdV| self@.contains(v) implies before@.insert(
                    idv,
                ).contains(v) by {
                    let i = choose|i: int| 0 <= i < self.items@.len() && self.items@[i]@ == v;
                    if i < self.items@.len() - 1 {
                        assert(before.items@[i]@ == v);
                    }
                }
                assert forall|v: ModuleIdV| before@.insert(idv).contains(v) implies self@.contains(
                    v,
                ) by {
                    if v == idv {
                        assert(self.items@[self.items@.len() - 1]@ == v);
                    } else {
                        let i = choose|i: int|
                            0 <= i < before.items@.len() && before.items@[i]@ == v;
                        assert(self.items@[i]@ == v);
                    }
                }
                assert(self@ =~= before@.insert(idv));
            }
        } else {
            proof {
                assert(self@ =~= self@.insert(id@));
            }
        }
    }

    /// The identities in the set, in insertion order.
    pub fn as_vec(&self) -> (r: &Vec<ModuleId>)
        ensures
            *r == self.items,
    {
        &self.items
    }
}

} // verus!
