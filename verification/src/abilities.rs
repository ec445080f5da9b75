//! Ability sets: the capability sets (`copy`, `drop`, `store`, `key`) that
//! govern what operations are legal on a runtime value, together with the
//! rule that computes the abilities of an instantiated generic.

use vstd::prelude::*;

verus! {

/// A set of abilities, one flag per ability.
#[derive(Clone, Copy, PartialEq, Eq, Structural, Debug)]
pub struct AbilitySet {
    pub has_copy: bool,
    pub has_drop: bool,
    pub has_store: bool,
    pub has_key: bool,
}

impl AbilitySet {
    /// The abilities of the primitive value types.
    pub fn primitives() -> (r: AbilitySet)
        ensures
            r == (AbilitySet { has_copy: true, has_drop: true, has_store: true, has_key: false }),
    {
        AbilitySet { has_copy: true, has_drop: true, has_store: true, has_key: false }
    }

    /// The abilities of references.
    pub fn references() -> (r: AbilitySet)
        ensures
            r == (AbilitySet { has_copy: true, has_drop: true, has_store: false, has_key: false }),
    {
        AbilitySet { has_copy: true, has_drop: true, has_store: false, has_key: false }
    }

    /// The abilities of the signer type.
    pub fn signer() -> (r: AbilitySet)
        ensures
            r == (AbilitySet { has_copy: false, has_drop: true, has_store: false, has_key: false }),
    {
        AbilitySet { has_copy: false, has_drop: true, has_store: false, has_key: false }
    }

    /// The declared abilities of the vector type constructor.
    pub fn vector() -> (r: AbilitySet)
        ensures
            r == (AbilitySet { has_copy: true, has_drop: true, has_store: true, has_key: false }),
    {
        AbilitySet { has_copy: true, has_drop: true, has_store: true, has_key: false }
    }

    /// The empty ability set.
    pub fn empty() -> (r: AbilitySet)
        ensures
            r == (AbilitySet { has_copy: false, has_drop: false, has_store: false, has_key: false }),
    {
        AbilitySet { has_copy: false, has_drop: false, has_store: false, has_key: false }
    }

    /// Whether every ability in `self` is also in `other`.
    pub open spec fn spec_is_subset(self, other: AbilitySet) -> bool {
        &&& (self.has_copy ==> other.has_copy)
        &&& (self.has_drop ==> other.has_drop)
        &&& (self.has_store ==> other.has_store)
        &&& (self.has_key ==> other.has_key)
    }

    /// Whether every ability in `self` is also in `other`.
    pub fn is_subset(self, other: AbilitySet) -> (r: bool)
        ensures
            r == self.spec_is_subset(other),
    {
        (!self.has_copy || other.has_copy) && (!self.has_drop || other.has_drop)
            && (!self.has_store || other.has_store) && (!self.has_key || other.has_key)
    }

    /// The intersection of two ability sets.
    pub open spec fn spec_intersect(self, other: AbilitySet) -> AbilitySet {
        AbilitySet {
            has_copy: self.has_copy && other.has_copy,
            has_drop: self.has_drop && other.has_drop,
            has_store: self.has_store && other.has_store,
            has_key: self.has_key && other.has_key,
        }
    }

    /// The intersection of two ability sets.
    pub fn intersect(self, other: AbilitySet) -> (r: AbilitySet)
        ensures
            r == self.spec_intersect(other),
    {
        AbilitySet {
            has_copy: self.has_copy && other.has_copy,
            has_drop: self.has_drop && other.has_drop,
            has_store: self.has_store && other.has_store,
            has_key: self.has_key && other.has_key,
        }
    }

    /// The ability set of an instantiated generic: the declared set of the
    /// generic, intersected with the abilities of every non-phantom type
    /// argument.  Expressed as a fold over a prefix of the argument list.
    pub open spec fn spec_polymorphic(
        declared: AbilitySet,
        phantoms: Seq<bool>,
        args: Seq<AbilitySet>,
        n: int,
    ) -> AbilitySet
        decreases n,
    {
        if n <= 0 {
            declared
        } else if phantoms[n - 1] {
            Self::spec_polymorphic(declared, phantoms, args, n - 1)
        } else {
            Self::spec_polymorphic(declared, phantoms, args, n - 1).spec_intersect(args[n - 1])
        }
    }

    /// An instantiated generic has an ability exactly when the generic
    /// declares it and every non-phantom type argument has it.
    pub proof fn lemma_polymorphic_pointwise(
        declared: AbilitySet,
        phantoms: Seq<bool>,
        args: Seq<AbilitySet>,
        n: int,
    )
        requires
            0 <= n <= phantoms.len(),
            n <= args.len(),
        ensures
            Self::spec_polymorphic(declared, phantoms, args, n).has_copy <==> (declared.has_copy
                && forall|i: int| 0 <= i < n && !phantoms[i] ==> (#[trigger] args[i]).has_copy),
            Self::spec_polymorphic(declared, phantoms, args, n).has_drop <==> (declared.has_drop
                && forall|i: int| 0 <= i < n && !phantoms[i] ==> (#[trigger] args[i]).has_drop),
            Self::spec_polymorphic(declared, phantoms, args, n).has_store <==> (declared.has_store
                && forall|i: int| 0 <= i < n && !phantoms[i] ==> (#[trigger] args[i]).has_store),
            Self::spec_polymorphic(declared, phantoms, args, n).has_key <==> (declared.has_key
                && forall|i: int| 0 <= i < n && !phantoms[i] ==> (#[trigger] args[i]).has_key),
        decreases n,
    {
        if n > 0 {
            Self::lemma_polymorphic_pointwise(declared, phantoms, args, n - 1);
        }
    }

    /// Computes the ability set of an instantiated generic under the rule
    /// above.  Fails when the phantom mask and the argument list disagree in
    /// length.
    pub fn polymorphic_abilities(
        declared: AbilitySet,
        phantoms: &Vec<bool>,
        args: &Vec<AbilitySet>,
    ) -> (r: Result<AbilitySet, ()>)
        ensures
            phantoms@.len() == args@.len() ==> r == Ok::<AbilitySet, ()>(
                Self::spec_polymorphic(declared, phantoms@, args@, args@.len() as int),
            ),
            phantoms@.len() != args@.len() ==> r == Err::<AbilitySet, ()>(()),
    {
        if phantoms.len() != args.len() {
            return Err(());
        }
        let mut acc = declared;
        let mut i: usize = 0;
        while i < args.len()
            invariant
                0 <= i <= args@.len(),
                phantoms@.len() == args@.len(),
                acc == Self::spec_polymorphic(declared, phantoms@, args@, i as int),
            decreases args@.len() - i,
        {
            if !phantoms[i] {
                acc = acc.intersect(args[i]);
            }
            i = i + 1;
        }
        Ok(acc)
    }
}

} // verus!
