//! Runtime types: the translated form of signature tokens that the
//! interpreter works with, together with substitution of type arguments.
//!
//! Struct references are indices into the loader's global struct table, so a
//! runtime type is meaningful relative to a module cache.

use vstd::prelude::*;

verus! {

broadcast use vstd::std_specs::vec::group_vec_axioms;

/// A runtime type.  `Struct` and `StructInstantiation` carry an index into
/// the global struct table; `TyParam` is a depth-indexed type parameter that
/// must be substituted away before the type describes a value.
#[derive(Debug)]
pub enum Type {
    Bool,
    U8,
    U64,
    U128,
    Address,
    Signer,
    Vector(Box<Type>),
    Reference(Box<Type>),
    MutableReference(Box<Type>),
    TyParam(usize),
    Struct(usize),
    StructInstantiation(usize, Vec<Type>),
}

/// The mathematical value of a [`Type`].
pub enum TypeV {
    Bool,
    U8,
    U64,
    U128,
    Address,
    Signer,
    Vector(Box<TypeV>),
    Reference(Box<TypeV>),
    MutableReference(Box<TypeV>),
    TyParam(int),
    Struct(int),
    StructInstantiation(int, Seq<TypeV>),
}

/// The mathematical value of a [`Type`].
pub open spec fn type_view(t: Type) -> TypeV
    decreases t,
{
    match t {
        Type::Bool => TypeV::Bool,
        Type::U8 => TypeV::U8,
        Type::U64 => TypeV::U64,
        Type::U128 => TypeV::U128,
        Type::Address => TypeV::Address,
        Type::Signer => TypeV::Signer,
        Type::Vector(t) => TypeV::Vector(Box::new(type_view(*t))),
        Type::Reference(t) => TypeV::Reference(Box::new(type_view(*t))),
        Type::MutableReference(t) => TypeV::MutableReference(Box::new(type_view(*t))),
        Type::TyParam(i) => TypeV::TyParam(i as int),
        Type::Struct(s) => TypeV::Struct(s as int),
        Type::StructInstantiation(s, ts) => TypeV::StructInstantiation(s as int, type_views(ts@)),
    }
}

/// The views of a sequence of types, element by element.
pub open spec fn type_views(ts: Seq<Type>) -> Seq<TypeV>
    decreases ts,
{
    if ts.len() == 0 {
        Seq::empty()
    } else {
        type_views(ts.drop_last()).push(type_view(ts.last()))
    }
}

impl View for Type {
    type V = TypeV;

    open spec fn view(&self) -> TypeV {
        type_view(*self)
    }
}

/// `type_views` maps the view over the sequence, element by element.
pub proof fn lemma_type_views(ts: Seq<Type>)
    ensures
        type_views(ts).len() == ts.len(),
        forall|i: int| 0 <= i < ts.len() ==> #[trigger] type_views(ts)[i] == ts[i]@,
    decreases ts,
{
    if ts.len() > 0 {
        lemma_type_views(ts.drop_last());
        assert forall|i: int| 0 <= i < ts.len() implies #[trigger] type_views(ts)[i]
            == ts[i]@ by {
            if i < ts.len() - 1 {
                assert(ts.drop_last()[i] == ts[i]);
                assert(type_views(ts)[i] == type_views(ts.drop_last())[i]);
            } else {
                assert(ts.last() == ts[i]);
            }
        }
    }
}

/// Two sequences of types with pointwise equal views have equal view
/// sequences.
pub proof fn lemma_type_views_pointwise(a: Seq<Type>, b: Seq<Type>)
    requires
        a.len() == b.len(),
        forall|i: int| 0 <= i < a.len() ==> (#[trigger] a[i])@ == b[i]@,
    ensures
        type_views(a) == type_views(b),
{
    lemma_type_views(a);
    lemma_type_views(b);
    assert(type_views(a) =~= type_views(b));
}

/// Every type parameter named in the type lies below `k`.
pub open spec fn params_wf(t: TypeV, k: int) -> bool
    decreases t,
{
    match t {
        TypeV::Vector(inner) => params_wf(*inner, k),
        TypeV::Reference(inner) => params_wf(*inner, k),
        TypeV::MutableReference(inner) => params_wf(*inner, k),
        TypeV::TyParam(i) => 0 <= i < k,
        TypeV::StructInstantiation(_, ts) => forall|i: int|
            0 <= i < ts.len() ==> params_wf(#[trigger] ts[i], k),
        _ => true,
    }
}

/// Substitution of type arguments: replaces `TyParam(i)` with `args[i]` and
/// maps over every other constructor.  Meaningful when `params_wf(t,
/// args.len())` holds.
pub open spec fn subst_v(t: TypeV, args: Seq<TypeV>) -> TypeV
    decreases t,
{
    match t {
        TypeV::Vector(inner) => TypeV::Vector(Box::new(subst_v(*inner, args))),
        TypeV::Reference(inner) => TypeV::Reference(Box::new(subst_v(*inner, args))),
        TypeV::MutableReference(inner) => TypeV::MutableReference(Box::new(subst_v(*inner, args))),
        TypeV::TyParam(i) => args[i],
        TypeV::StructInstantiation(s, ts) => TypeV::StructInstantiation(s, subst_seq_v(ts, args)),
        other => other,
    }
}

/// Substitution mapped over a sequence of types.
pub open spec fn subst_seq_v(ts: Seq<TypeV>, args: Seq<TypeV>) -> Seq<TypeV>
    decreases ts,
{
    if ts.len() == 0 {
        Seq::empty()
    } else {
        subst_seq_v(ts.drop_last(), args).push(subst_v(ts.last(), args))
    }
}

/// `subst_seq_v` maps the substitution over the sequence, element by
/// element.
pub proof fn lemma_subst_seq_v(ts: Seq<TypeV>, args: Seq<TypeV>)
    ensures
        subst_seq_v(ts, args).len() == ts.len(),
        forall|i: int| 0 <= i < ts.len() ==> #[trigger] subst_seq_v(ts, args)[i] == subst_v(
            ts[i],
            args,
        ),
    decreases ts,
{
    if ts.len() > 0 {
        lemma_subst_seq_v(ts.drop_last(), args);
        assert forall|i: int| 0 <= i < ts.len() implies #[trigger] subst_seq_v(ts, args)[i]
            == subst_v(ts[i], args) by {
            if i < ts.len() - 1 {
                assert(ts.drop_last()[i] == ts[i]);
                assert(subst_seq_v(ts, args)[i] == subst_seq_v(ts.drop_last(), args)[i]);
            } else {
                assert(ts.last() == ts[i]);
            }
        }
    }
}

impl Type {
    /// An owned copy.
    #[verifier::loop_isolation(false)]
    pub fn duplicate(&self) -> (r: Type)
        ensures
            r@ == self@,
        decreases *self,
    {
        match self {
            Type::Bool => Type::Bool,
            Type::U8 => Type::U8,
            Type::U64 => Type::U64,
            Type::U128 => Type::U128,
            Type::Address => Type::Address,
            Type::Signer => Type::Signer,
            Type::Vector(t) => Type::Vector(Box::new(t.duplicate())),
            Type::Reference(t) => Type::Reference(Box::new(t.duplicate())),
            Type::MutableReference(t) => Type::MutableReference(Box::new(t.duplicate())),
            Type::TyParam(i) => Type::TyParam(*i),
            Type::Struct(s) => Type::Struct(*s),
            Type::StructInstantiation(s, ts) => {
                let mut out: Vec<Type> = Vec::new();
                let mut i: usize = 0;
                while i < ts.len()
                    invariant
                        0 <= i <= ts@.len(),
                        out@.len() == i,
                        forall|j: int| 0 <= j < i ==> (#[trigger] out@[j])@ == ts@[j]@,
                    decreases ts@.len() - i,
                {
                    let c = ts[i].duplicate();
                    out.push(c);
                    i = i + 1;
                }
                proof {
                    lemma_type_views_pointwise(out@, ts@);
                }
                Type::StructInstantiation(*s, out)
            }
        }
    }

    /// Equality of two runtime types.
    #[verifier::loop_isolation(false)]
    pub fn ty_eq(&self, other: &Type) -> (r: bool)
        ensures
            r <==> self@ == other@,
        decreases *self,
    {
        match (self, other) {
            (Type::Bool, Type::Bool) => true,
            (Type::U8, Type::U8) => true,
            (Type::U64, Type::U64) => true,
            (Type::U128, Type::U128) => true,
            (Type::Address, Type::Address) => true,
            (Type::Signer, Type::Signer) => true,
            (Type::Vector(a), Type::Vector(b)) => a.ty_eq(b),
            (Type::Reference(a), Type::Reference(b)) => a.ty_eq(b),
            (Type::MutableReference(a), Type::MutableReference(b)) => a.ty_eq(b),
            (Type::TyParam(a), Type::TyParam(b)) => *a == *b,
            (Type::Struct(a), Type::Struct(b)) => *a == *b,
            (Type::StructInstantiation(a, ats), Type::StructInstantiation(b, bts)) => {
                proof {
                    lemma_type_views(ats@);
                    lemma_type_views(bts@);
                }
                if *a != *b {
                    return false;
                }
                if ats.len() != bts.len() {
                    return false;
                }
                let mut i: usize = 0;
                while i < ats.len()
                    invariant
                        0 <= i <= ats@.len(),
                        ats@.len() == bts@.len(),
                        forall|j: int| 0 <= j < i ==> (#[trigger] ats@[j])@ == bts@[j]@,
                    decreases ats@.len() - i,
                {
                    if !ats[i].ty_eq(&bts[i]) {
                        proof {
                            assert(type_views(ats@)[i as int] != type_views(bts@)[i as int]);
                        }
                        return false;
                    }
                    i = i + 1;
                }
                proof {
                    lemma_type_views_pointwise(ats@, bts@);
                }
                true
            }
            _ => false,
        }
    }

    /// Substitutes `args` for the type parameters of `self`.  Fails exactly
    /// when some type parameter is out of range, which the loader treats as
    /// an invariant violation.
    #[verifier::loop_isolation(false)]
    pub fn subst(&self, args: &Vec<Type>) -> (r: Result<Type, ()>)
        ensures
            params_wf(self@, args@.len() as int) ==> (r matches Ok(rt) && rt@ == subst_v(
                self@,
                type_views(args@),
            )),
            !params_wf(self@, args@.len() as int) ==> r is Err,
        decreases *self,
    {
        proof {
            lemma_type_views(args@);
        }
        match self {
            Type::Bool => Ok(Type::Bool),
            Type::U8 => Ok(Type::U8),
            Type::U64 => Ok(Type::U64),
            Type::U128 => Ok(Type::U128),
            Type::Address => Ok(Type::Address),
            Type::Signer => Ok(Type::Signer),
            Type::Vector(t) => match t.subst(args) {
                Ok(inner) => Ok(Type::Vector(Box::new(inner))),
                Err(e) => Err(e),
            },
            Type::Reference(t) => match t.subst(args) {
                Ok(inner) => Ok(Type::Reference(Box::new(inner))),
                Err(e) => Err(e),
            },
            Type::MutableReference(t) => match t.subst(args) {
                Ok(inner) => Ok(Type::MutableReference(Box::new(inner))),
                Err(e) => Err(e),
            },
            Type::TyParam(i) => {
                if *i < args.len() {
                    let c = args[*i].duplicate();
                    Ok(c)
                } else {
                    Err(())
                }
            }
            Type::Struct(s) => Ok(Type::Struct(*s)),
            Type::StructInstantiation(s, ts) => {
                proof {
                    lemma_type_views(ts@);
                    lemma_subst_seq_v(type_views(ts@), type_views(args@));
                }
                let mut out: Vec<Type> = Vec::new();
                let mut i: usize = 0;
                while i < ts.len()
                    invariant
                        0 <= i <= ts@.len(),
                        out@.len() == i,
                        forall|j: int|
                            0 <= j < i ==> params_wf((#[trigger] ts@[j])@, args@.len() as int),
                        forall|j: int|
                            0 <= j < i ==> (#[trigger] out@[j])@ == subst_v(
                                ts@[j]@,
                                type_views(args@),
                            ),
                    decreases ts@.len() - i,
                {
                    match ts[i].subst(args) {
                        Ok(rt) => {
                            out.push(rt);
                        }
                        Err(e) => {
                            proof {
                                assert(type_views(ts@)[i as int] == ts@[i as int]@);
                                assert(!params_wf(type_views(ts@)[i as int], args@.len() as int));
                            }
                            return Err(e);
                        }
                    }
                    i = i + 1;
                }
                proof {
                    lemma_type_views(out@);
                    assert forall|k: int| 0 <= k < type_views(ts@).len() implies params_wf(
                        #[trigger] type_views(ts@)[k],
                        args@.len() as int,
                    ) by {
                        assert(type_views(ts@)[k] == ts@[k]@);
                    }
                    assert(params_wf(self@, args@.len() as int));
                    assert forall|k: int| 0 <= k < out@.len() implies #[trigger] type_views(
                        out@,
                    )[k] == subst_seq_v(type_views(ts@), type_views(args@))[k] by {
                        assert(type_views(ts@)[k] == ts@[k]@);
                        assert(type_views(out@)[k] == out@[k]@);
                    }
                    assert(type_views(out@) =~= subst_seq_v(type_views(ts@), type_views(args@)));
                }
                Ok(Type::StructInstantiation(*s, out))
            }
        }
    }
}

/// An owned copy of a vector of types.
#[verifier::loop_isolation(false)]
pub fn duplicate_types(ts: &Vec<Type>) -> (r: Vec<Type>)
    ensures
        r@.len() == ts@.len(),
        forall|i: int| 0 <= i < ts@.len() ==> (#[trigger] r@[i])@ == ts@[i]@,
        type_views(r@) == type_views(ts@),
{
    let mut out: Vec<Type> = Vec::new();
    let mut i: usize = 0;
    while i < ts.len()
        invariant
            0 <= i <= ts@.len(),
            out@.len() == i,
            forall|j: int| 0 <= j < i ==> (#[trigger] out@[j])@ == ts@[j]@,
        decreases ts@.len() - i,
    {
        let c = ts[i].duplicate();
        out.push(c);
        i = i + 1;
    }
    proof {
        lemma_type_views_pointwise(out@, ts@);
    }
    out
}

/// Equality of two vectors of types, by view.
#[verifier::loop_isolation(false)]
pub fn types_eq(a: &Vec<Type>, b: &Vec<Type>) -> (r: bool)
    ensures
        r <==> type_views(a@) == type_views(b@),
{
    proof {
        lemma_type_views(a@);
        lemma_type_views(b@);
    }
    if a.len() != b.len() {
        return false;
    }
    let mut i: usize = 0;
    while i < a.len()
        invariant
            0 <= i <= a@.len(),
            a@.len() == b@.len(),
            forall|j: int| 0 <= j < i ==> (#[trigger] a@[j])@ == b@[j]@,
        decreases a@.len() - i,
    {
        if !a[i].ty_eq(&b[i]) {
            proof {
                assert(type_views(a@)[i as int] != type_views(b@)[i as int]);
            }
            return false;
        }
        i = i + 1;
    }
    proof {
        lemma_type_views_pointwise(a@, b@);
    }
    true
}

} // verus!
