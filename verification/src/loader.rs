//! The loader: orchestrates deserialization, verification, dependency and
//! friend traversal, cycle checking and atomic publication, and owns the
//! script, module and type caches.

use vstd::prelude::*;

use crate::abilities::AbilitySet;
use crate::cache::BinaryCache;
use crate::code::{ModuleCode, ScriptCode};
use crate::digest::{script_hash, sha3_256_of};
use crate::errors::{expect_no_verification_errors, StatusCode, VmError};
use crate::ids::{IdSet, ModuleId, ModuleIdV};
use crate::module::Module;
use crate::module_cache::{no_native_structs, ModuleCache};
use crate::oracle::{DataStore, FormatOracle, ModuleRelations, NativeFunctions};
use crate::runtime_types::{duplicate_types, type_views, Type, TypeV};
use crate::script::ScriptCache;
use crate::type_cache::{type_to_type_layout_impl, type_to_type_tag_impl, TypeCache, TypeLayout, TypeTag};

verus! {

broadcast use vstd::std_specs::vec::group_vec_axioms;

/// The deepest chain of modules the loader will follow while closing a
/// dependency or friend graph: a machine limit guarding the loader's own
/// recursion, far beyond any real module graph.
pub const LOAD_BUDGET: u64 = 1024;

/// A function together with the runtime types of its instantiation.
#[derive(Debug)]
pub struct LoadedFunctionInstantiation {
    pub type_arguments: Vec<Type>,
    pub parameters: Vec<Type>,
    pub return_: Vec<Type>,
}

/// One cache of published modules grew out of the other: every entry keeps
/// its index and its value.
pub open spec fn cache_grows(a: BinaryCache<ModuleId, Module>, b: BinaryCache<ModuleId, Module>) -> bool {
    &&& a.keys@.is_prefix_of(b.keys@)
    &&& a.binaries@.is_prefix_of(b.binaries@)
}

/// Growth keeps every key.
pub proof fn lemma_contains_stable(
    a: BinaryCache<ModuleId, Module>,
    b: BinaryCache<ModuleId, Module>,
    k: ModuleIdV,
)
    requires
        cache_grows(a, b),
        a.spec_contains_key(k),
    ensures
        b.spec_contains_key(k),
{
    let i = choose|i: int| 0 <= i < a.keys@.len() && (#[trigger] a.keys@[i])@ == k;
    assert(b.keys@[i]@ == k);
}

/// Growth keeps every key and its value.
pub proof fn lemma_cache_grows_stable(
    a: BinaryCache<ModuleId, Module>,
    b: BinaryCache<ModuleId, Module>,
    k: ModuleIdV,
)
    requires
        a.wf(),
        b.wf(),
        cache_grows(a, b),
        a.spec_contains_key(k),
    ensures
        b.spec_contains_key(k),
        b.spec_index_of(k) == a.spec_index_of(k),
        b.spec_value_of(k) == a.spec_value_of(k),
{
    let i = a.spec_index_of(k);
    assert(b.keys@[i]@ == k);
    let j = b.spec_index_of(k);
    if i != j {
        assert(b.keys@[i]@ == b.keys@[j]@);
    }
}

/// The runtime type a name-based tag loads to: primitives map one to one,
/// and a struct tag resolves, through the cache, to the global index of the
/// struct it names.  A generic struct with no arguments loads to the bare
/// form.
pub open spec fn tag_loaded_rel(
    modules: BinaryCache<ModuleId, Module>,
    tag: TypeTag,
    t: TypeV,
) -> bool
    decreases tag,
{
    match tag {
        TypeTag::Bool => t == TypeV::Bool,
        TypeTag::U8 => t == TypeV::U8,
        TypeTag::U64 => t == TypeV::U64,
        TypeTag::U128 => t == TypeV::U128,
        TypeTag::Address => t == TypeV::Address,
        TypeTag::Signer => t == TypeV::Signer,
        TypeTag::Vector(inner) => t matches TypeV::Vector(ti) && tag_loaded_rel(
            modules,
            *inner,
            *ti,
        ),
        TypeTag::Struct(st) => {
            let midv = ModuleIdV { address: st.address@, name: st.module@ };
            match t {
                TypeV::Struct(g) => crate::module_cache::spec_resolve_struct_in(
                    modules,
                    midv,
                    st.name@,
                ) matches Some(gu) && g == gu as int && st.type_params@.len() == 0,
                TypeV::StructInstantiation(g, args) => (
                crate::module_cache::spec_resolve_struct_in(modules, midv, st.name@) matches Some(
                    gu,
                ) && g == gu as int) && args.len() == st.type_params@.len() && forall|i: int|
                    0 <= i < args.len() ==> tag_loaded_rel(
                        modules,
                        #[trigger] st.type_params@[i],
                        args[i],
                    ),
                _ => false,
            }
        }
    }
}

/// A tag that names no struct: loading it needs neither the store nor the
/// cache.
pub open spec fn tag_struct_free(tag: TypeTag) -> bool
    decreases tag,
{
    match tag {
        TypeTag::Vector(inner) => tag_struct_free(*inner),
        TypeTag::Struct(_) => false,
        _ => true,
    }
}

/// A loaded type stays loaded when the cache grows.
pub proof fn lemma_tag_rel_grows(
    a: BinaryCache<ModuleId, Module>,
    b: BinaryCache<ModuleId, Module>,
    tag: TypeTag,
    t: TypeV,
)
    requires
        a.wf(),
        b.wf(),
        cache_grows(a, b),
        tag_loaded_rel(a, tag, t),
    ensures
        tag_loaded_rel(b, tag, t),
    decreases tag,
{
    match tag {
        TypeTag::Vector(inner) => {
            lemma_tag_rel_grows(a, b, *inner, *t->Vector_0);
        }
        TypeTag::Struct(st) => {
            let midv = ModuleIdV { address: st.address@, name: st.module@ };
            lemma_cache_grows_stable(a, b, midv);
            match t {
                TypeV::StructInstantiation(g, args) => {
                    assert forall|i: int| 0 <= i < args.len() implies tag_loaded_rel(
                        b,
                        #[trigger] st.type_params@[i],
                        args[i],
                    ) by {
                        lemma_tag_rel_grows(a, b, st.type_params@[i], args[i]);
                    }
                }
                _ => {}
            }
        }
        _ => {}
    }
}

/// The abilities of a runtime type relative to a struct table, or nothing
/// where the type has none (a type parameter, or a dangling struct index).
pub open spec fn spec_abilities(structs: Seq<crate::module_cache::StructType>, t: TypeV) -> Option<
    AbilitySet,
>
    decreases t,
{
    match t {
        TypeV::Bool => Some(AbilitySet { has_copy: true, has_drop: true, has_store: true, has_key: false }),
        TypeV::U8 => Some(AbilitySet { has_copy: true, has_drop: true, has_store: true, has_key: false }),
        TypeV::U64 => Some(AbilitySet { has_copy: true, has_drop: true, has_store: true, has_key: false }),
        TypeV::U128 => Some(AbilitySet { has_copy: true, has_drop: true, has_store: true, has_key: false }),
        TypeV::Address => Some(AbilitySet { has_copy: true, has_drop: true, has_store: true, has_key: false }),
        TypeV::Signer => Some(AbilitySet { has_copy: false, has_drop: true, has_store: false, has_key: false }),
        TypeV::Reference(_) => Some(AbilitySet { has_copy: true, has_drop: true, has_store: false, has_key: false }),
        TypeV::MutableReference(_) => Some(AbilitySet { has_copy: true, has_drop: true, has_store: false, has_key: false }),
        TypeV::TyParam(_) => None,
        TypeV::Vector(inner) => match spec_abilities(structs, *inner) {
            Some(a) => Some(
                AbilitySet::spec_polymorphic(
                    AbilitySet { has_copy: true, has_drop: true, has_store: true, has_key: false },
                    seq![false],
                    seq![a],
                    1,
                ),
            ),
            None => None,
        },
        TypeV::Struct(g) => if 0 <= g < structs.len() {
            Some(structs[g].abilities)
        } else {
            None
        },
        TypeV::StructInstantiation(g, args) => if 0 <= g < structs.len() {
            match spec_abilities_list(structs, args) {
                Some(arg_abs) => {
                    let st = structs[g];
                    if st.type_parameters@.len() == args.len() {
                        Some(
                            AbilitySet::spec_polymorphic(
                                st.abilities,
                                Seq::new(st.type_parameters@.len(), |i: int| st.type_parameters@[i].is_phantom),
                                arg_abs,
                                args.len() as int,
                            ),
                        )
                    } else {
                        None
                    }
                }
                None => None,
            }
        } else {
            None
        },
    }
}

/// The abilities of every type of a list, or nothing where some type has
/// none.
pub open spec fn spec_abilities_list(
    structs: Seq<crate::module_cache::StructType>,
    ts: Seq<TypeV>,
) -> Option<Seq<AbilitySet>>
    decreases ts,
{
    if ts.len() == 0 {
        Some(Seq::empty())
    } else {
        match (spec_abilities_list(structs, ts.drop_last()), spec_abilities(structs, ts.last())) {
            (Some(init), Some(a)) => Some(init.push(a)),
            _ => None,
        }
    }
}

/// `spec_abilities_list` is the pointwise map of `spec_abilities`.
pub proof fn lemma_spec_abilities_list(
    structs: Seq<crate::module_cache::StructType>,
    ts: Seq<TypeV>,
)
    ensures
        spec_abilities_list(structs, ts) is Some <==> (forall|i: int|
            0 <= i < ts.len() ==> spec_abilities(structs, #[trigger] ts[i]) is Some),
        spec_abilities_list(structs, ts) matches Some(abs) ==> abs.len() == ts.len() && forall|
            i: int,
        | 0 <= i < ts.len() ==> Some(#[trigger] abs[i]) == spec_abilities(structs, ts[i]),
    decreases ts,
{
    if ts.len() > 0 {
        lemma_spec_abilities_list(structs, ts.drop_last());
        assert forall|i: int| 0 <= i < ts.len() - 1 implies #[trigger] ts.drop_last()[i]
            == ts[i] by {}
        assert(ts.last() == ts[ts.len() - 1]);
        if forall|i: int| 0 <= i < ts.len() ==> spec_abilities(structs, #[trigger] ts[i]) is Some {
            assert forall|i: int|
                0 <= i < ts.drop_last().len() implies spec_abilities(
                structs,
                #[trigger] ts.drop_last()[i],
            ) is Some by {
                assert(ts.drop_last()[i] == ts[i]);
            }
            assert(spec_abilities_list(structs, ts.drop_last()) is Some);
            assert(spec_abilities(structs, ts.last()) is Some);
            assert(spec_abilities_list(structs, ts) is Some);
        }
        if spec_abilities_list(structs, ts) is Some {
            let abs = spec_abilities_list(structs, ts)->Some_0;
            let init = spec_abilities_list(structs, ts.drop_last())->Some_0;
            assert forall|i: int| 0 <= i < ts.len() implies Some(#[trigger] abs[i])
                == spec_abilities(structs, ts[i]) by {
                if i < ts.len() - 1 {
                    assert(abs[i] == init[i]);
                    assert(Some(init[i]) == spec_abilities(structs, ts.drop_last()[i]));
                }
            }
            assert forall|i: int| 0 <= i < ts.len() implies spec_abilities(
                structs,
                #[trigger] ts[i],
            ) is Some by {
                assert(Some(abs[i]) == spec_abilities(structs, ts[i]));
            }
        }
    }
}

/// The status reported when a type has no abilities: a type parameter is an
/// unreachable-code violation (arguments must be substituted away first), a
/// dangling struct index or an arity mismatch an unknown invariant
/// violation; the first failing constituent decides, in order.
pub open spec fn spec_ability_err(structs: Seq<crate::module_cache::StructType>, t: TypeV) -> StatusCode
    decreases t, 0int,
{
    match t {
        TypeV::TyParam(_) => StatusCode::Unreachable,
        TypeV::Vector(inner) => spec_ability_err(structs, *inner),
        TypeV::StructInstantiation(g, args) => if !(0 <= g < structs.len()) {
            StatusCode::UnknownInvariantViolation
        } else {
            spec_ability_err_list(structs, args, 0)
        },
        _ => StatusCode::UnknownInvariantViolation,
    }
}

/// The status of the first type of the list without abilities, or the
/// arity-mismatch status when all have them.
pub open spec fn spec_ability_err_list(
    structs: Seq<crate::module_cache::StructType>,
    ts: Seq<TypeV>,
    i: int,
) -> StatusCode
    decreases ts, ts.len() - i,
{
    if i < 0 || i >= ts.len() {
        StatusCode::UnknownInvariantViolation
    } else if spec_abilities(structs, ts[i]) is None {
        spec_ability_err(structs, ts[i])
    } else {
        spec_ability_err_list(structs, ts, i + 1)
    }
}

/// When every type of the list from `i` on has abilities, the list walk
/// reports the arity-mismatch status.
pub proof fn lemma_ability_err_list_all_some(
    structs: Seq<crate::module_cache::StructType>,
    ts: Seq<TypeV>,
    i: int,
)
    requires
        0 <= i <= ts.len(),
        forall|k: int| i <= k < ts.len() ==> spec_abilities(structs, #[trigger] ts[k]) is Some,
    ensures
        spec_ability_err_list(structs, ts, i) == StatusCode::UnknownInvariantViolation,
    decreases ts.len() - i,
{
    if i < ts.len() {
        lemma_ability_err_list_all_some(structs, ts, i + 1);
    }
}

/// The list walk reports the status of the first type without abilities.
pub proof fn lemma_ability_err_list_first(
    structs: Seq<crate::module_cache::StructType>,
    ts: Seq<TypeV>,
    i: int,
    j: int,
)
    requires
        0 <= i <= j < ts.len(),
        forall|k: int| i <= k < j ==> spec_abilities(structs, #[trigger] ts[k]) is Some,
        spec_abilities(structs, ts[j]) is None,
    ensures
        spec_ability_err_list(structs, ts, i) == spec_ability_err(structs, ts[j]),
    decreases j - i,
{
    if i < j {
        lemma_ability_err_list_first(structs, ts, i + 1, j);
    }
}

/// One relations entry's dependencies are exactly the module's non-self
/// handles.
pub open spec fn relation_deps_match(deps: Seq<ModuleId>, code: ModuleCode) -> bool {
    &&& forall|i: int|
        0 <= i < deps.len() ==> (#[trigger] deps[i])@ != code.spec_self_id() && exists|j: int|
            0 <= j < code.module_handles@.len() && code.module_handles@[j]@ == deps[i]@
    &&& forall|j: int|
        0 <= j < code.module_handles@.len() && (#[trigger] code.module_handles@[j])@
            != code.spec_self_id() ==> exists|i: int| 0 <= i < deps.len() && deps[i]@
            == code.module_handles@[j]@
}

/// One relations entry carries a module's identity, its immediate
/// dependencies, and its friends — none when the module's own bundle turn is
/// still to come.
pub open spec fn relation_entry_ok(
    e: ModuleRelations,
    code: ModuleCode,
    unverified: Set<ModuleIdV>,
) -> bool {
    &&& e.id@ == code.spec_self_id()
    &&& relation_deps_match(e.deps@, code)
    &&& (unverified.contains(code.spec_self_id()) ==> e.friends@.len() == 0)
    &&& (!unverified.contains(code.spec_self_id()) ==> e.friends@.len() == code.friends@.len()
        && forall|i: int|
        0 <= i < e.friends@.len() ==> (#[trigger] e.friends@[i])@ == code.friends@[i]@)
}

/// The loader: owns the caches and the native registry.  All operations are
/// sequential; publication is all or nothing.
pub struct Loader {
    pub scripts: ScriptCache,
    pub module_cache: ModuleCache,
    pub type_cache: TypeCache,
    pub natives: NativeFunctions,
}

impl Loader {
    /// The loader's invariant: each cache is well formed and the type
    /// cache's layouts agree with the module cache's struct table.
    pub open spec fn wf(self) -> bool {
        &&& self.scripts.wf()
        &&& self.module_cache.wf()
        &&& self.type_cache.wf(self.module_cache.structs@)
        &&& forall|i: int|
            0 <= i < self.scripts.scripts.binaries@.len() ==> (
            #[trigger] self.scripts.scripts.binaries@[i]).wf(
                self.module_cache.structs@.len() as int,
                self.module_cache.functions@.len() as int,
            )
        &&& forall|i: int|
            0 <= i < self.scripts.scripts.binaries@.len() ==> {
                let sc = #[trigger] self.scripts.scripts.binaries@[i];
                &&& sc.hash@ == self.scripts.scripts.keys@[i]@
                &&& (sc.main.scope matches crate::function::Scope::Script(h) && h@
                    == self.scripts.scripts.keys@[i]@)
                &&& sc.main.name@ == seq![109u8, 97u8, 105u8, 110u8]
            }
    }

    /// The caches of published code only grow, and scripts stay cached.
    pub open spec fn grows_to(self, post: Loader) -> bool {
        &&& cache_grows(self.module_cache.modules, post.module_cache.modules)
        &&& self.module_cache.structs@.is_prefix_of(post.module_cache.structs@)
        &&& self.module_cache.functions@.is_prefix_of(post.module_cache.functions@)
        &&& self.scripts.scripts.keys@.is_prefix_of(post.scripts.scripts.keys@)
        &&& self.scripts.scripts.binaries@.is_prefix_of(post.scripts.scripts.binaries@)
    }

    /// A fresh loader over a native registry.
    pub fn new(natives: NativeFunctions) -> (r: Loader)
        ensures
            r.wf(),
            r.module_cache.modules.binaries@.len() == 0,
            r.module_cache.structs@.len() == 0,
            r.module_cache.functions@.len() == 0,
            r.scripts.scripts.binaries@.len() == 0,
            r.natives == natives,
    {
        Loader {
            scripts: ScriptCache::new(),
            module_cache: ModuleCache::new(),
            type_cache: TypeCache::new(),
            natives,
        }
    }

    /// The abilities of a runtime type: primitives and references have fixed
    /// ability sets, a struct carries its declared set, and an instantiated
    /// generic combines the declared set with its non-phantom arguments'.  A
    /// type parameter must have been substituted away before this point.
    #[verifier::loop_isolation(false)]
    pub fn abilities(&self, ty: &Type) -> (r: Result<AbilitySet, StatusCode>)
        ensures
            spec_abilities(self.module_cache.structs@, ty@) matches Some(a) ==> r == Ok::<
                AbilitySet,
                StatusCode,
            >(a),
            spec_abilities(self.module_cache.structs@, ty@) is None <==> r is Err,
            r matches Err(e) ==> (e == StatusCode::Unreachable || e
                == StatusCode::UnknownInvariantViolation),
            r is Err ==> r == Err::<AbilitySet, StatusCode>(
                spec_ability_err(self.module_cache.structs@, ty@),
            ),
        decreases *ty,
    {
        match ty {
            Type::Bool => Ok(AbilitySet::primitives()),
            Type::U8 => Ok(AbilitySet::primitives()),
            Type::U64 => Ok(AbilitySet::primitives()),
            Type::U128 => Ok(AbilitySet::primitives()),
            Type::Address => Ok(AbilitySet::primitives()),
            Type::Signer => Ok(AbilitySet::signer()),
            Type::Reference(_) => Ok(AbilitySet::references()),
            Type::MutableReference(_) => Ok(AbilitySet::references()),
            Type::TyParam(_) => Err(StatusCode::Unreachable),
            Type::Vector(inner) => match self.abilities(inner) {
                Ok(a) => {
                    let mut phantoms: Vec<bool> = Vec::new();
                    phantoms.push(false);
                    let mut args: Vec<AbilitySet> = Vec::new();
                    args.push(a);
                    proof {
                        assert(phantoms@ =~= seq![false]);
                        assert(args@ =~= seq![a]);
                    }
                    match AbilitySet::polymorphic_abilities(AbilitySet::vector(), &phantoms, &args) {
                        Ok(out) => Ok(out),
                        Err(()) => Err(StatusCode::UnknownInvariantViolation),
                    }
                }
                Err(e) => Err(e),
            },
            Type::Struct(g) => {
                if *g < self.module_cache.structs.len() {
                    Ok(self.module_cache.struct_at(*g).abilities)
                } else {
                    Err(StatusCode::UnknownInvariantViolation)
                }
            }
            Type::StructInstantiation(g, ty_args) => {
                if *g >= self.module_cache.structs.len() {
                    return Err(StatusCode::UnknownInvariantViolation);
                }
                proof {
                    crate::runtime_types::lemma_type_views(ty_args@);
                    lemma_spec_abilities_list(self.module_cache.structs@, type_views(ty_args@));
                }
                let mut arg_abs: Vec<AbilitySet> = Vec::new();
                let mut i: usize = 0;
                while i < ty_args.len()
                    invariant
                        0 <= i <= ty_args@.len(),
                        arg_abs@.len() == i,
                        forall|j: int|
                            0 <= j < i ==> Some(#[trigger] arg_abs@[j]) == spec_abilities(
                                self.module_cache.structs@,
                                type_views(ty_args@)[j],
                            ),
                    decreases ty_args@.len() - i,
                {
                    match self.abilities(&ty_args[i]) {
                        Ok(a) => {
                            arg_abs.push(a);
                        }
                        Err(e) => {
                            proof {
                                let structs = self.module_cache.structs@;
                                let tv = type_views(ty_args@);
                                assert(tv[i as int] == ty_args@[i as int]@);
                                assert(spec_abilities(structs, tv[i as int]) is None);
                                assert(spec_abilities_list(structs, tv) is None);
                                assert forall|k: int| 0 <= k < i implies spec_abilities(
                                    structs,
                                    #[trigger] tv[k],
                                ) is Some by {
                                    assert(Some(arg_abs@[k]) == spec_abilities(structs, tv[k]));
                                }
                                lemma_ability_err_list_first(structs, tv, 0, i as int);
                            }
                            return Err(e);
                        }
                    }
                    i = i + 1;
                }
                let st = self.module_cache.struct_at(*g);
                let mut phantoms: Vec<bool> = Vec::new();
                let mut i: usize = 0;
                while i < st.type_parameters.len()
                    invariant
                        0 <= i <= st.type_parameters@.len(),
                        phantoms@.len() == i,
                        forall|j: int|
                            0 <= j < i ==> #[trigger] phantoms@[j]
                                == st.type_parameters@[j].is_phantom,
                    decreases st.type_parameters@.len() - i,
                {
                    phantoms.push(st.type_parameters[i].is_phantom);
                    i = i + 1;
                }
                proof {
                    let structs = self.module_cache.structs@;
                    let tv = type_views(ty_args@);
                    assert forall|j: int| 0 <= j < tv.len() implies spec_abilities(
                        structs,
                        #[trigger] tv[j],
                    ) is Some by {
                        assert(Some(arg_abs@[j]) == spec_abilities(structs, tv[j]));
                    }
                    assert(spec_abilities_list(structs, tv) is Some);
                    let abs = spec_abilities_list(structs, tv)->Some_0;
                    assert forall|j: int| 0 <= j < tv.len() implies #[trigger] abs[j]
                        == arg_abs@[j] by {
                        assert(Some(abs[j]) == spec_abilities(structs, tv[j]));
                        assert(Some(arg_abs@[j]) == spec_abilities(structs, tv[j]));
                    }
                    assert(abs =~= arg_abs@);
                    assert(phantoms@ =~= Seq::new(
                        st.type_parameters@.len(),
                        |j: int| st.type_parameters@[j].is_phantom,
                    ));
                }
                match AbilitySet::polymorphic_abilities(st.abilities, &phantoms, &arg_abs) {
                    Ok(out) => Ok(out),
                    Err(()) => {
                        proof {
                            let structs = self.module_cache.structs@;
                            let tv = type_views(ty_args@);
                            assert forall|k: int| 0 <= k < tv.len() implies spec_abilities(
                                structs,
                                #[trigger] tv[k],
                            ) is Some by {
                                assert(Some(arg_abs@[k]) == spec_abilities(structs, tv[k]));
                            }
                            lemma_ability_err_list_all_some(structs, tv, 0);
                        }
                        Err(StatusCode::UnknownInvariantViolation)
                    }
                }
            }
        }
    }

    /// Checks the supplied type arguments of an instantiation: their number
    /// must equal the declared count, and each must carry every ability its
    /// constraint demands.
    #[verifier::loop_isolation(false)]
    pub fn verify_ty_args(&self, constraints: &Vec<AbilitySet>, ty_args: &Vec<Type>) -> (r: Result<
        (),
        StatusCode,
    >)
        ensures
            constraints@.len() != ty_args@.len() ==> r == Err::<(), StatusCode>(
                StatusCode::NumberOfTypeArgumentsMismatch,
            ),
            r == Err::<(), StatusCode>(StatusCode::NumberOfTypeArgumentsMismatch)
                ==> constraints@.len() != ty_args@.len(),
            (constraints@.len() == ty_args@.len() && (forall|i: int|
                0 <= i < ty_args@.len() ==> spec_abilities(
                    self.module_cache.structs@,
                    (#[trigger] ty_args@[i])@,
                ) is Some)) ==> {
                ||| (r is Ok && forall|i: int|
                    0 <= i < ty_args@.len() ==> (#[trigger] constraints@[i]).spec_is_subset(
                        spec_abilities(self.module_cache.structs@, ty_args@[i]@)->Some_0,
                    ))
                ||| (r == Err::<(), StatusCode>(StatusCode::ConstraintNotSatisfied) && exists|
                    i: int,
                |
                    0 <= i < ty_args@.len() && !(#[trigger] constraints@[i]).spec_is_subset(
                        spec_abilities(self.module_cache.structs@, ty_args@[i]@)->Some_0,
                    ))
            },
            r is Ok ==> constraints@.len() == ty_args@.len() && forall|i: int|
                0 <= i < ty_args@.len() ==> (spec_abilities(
                    self.module_cache.structs@,
                    (#[trigger] ty_args@[i])@,
                ) matches Some(a) && constraints@[i].spec_is_subset(a)),
    {
        if constraints.len() != ty_args.len() {
            return Err(StatusCode::NumberOfTypeArgumentsMismatch);
        }
        let mut i: usize = 0;
        while i < ty_args.len()
            invariant
                0 <= i <= ty_args@.len(),
                constraints@.len() == ty_args@.len(),
                forall|j: int|
                    0 <= j < i ==> (spec_abilities(
                        self.module_cache.structs@,
                        (#[trigger] ty_args@[j])@,
                    ) matches Some(a) && constraints@[j].spec_is_subset(a)),
            decreases ty_args@.len() - i,
        {
            let a = match self.abilities(&ty_args[i]) {
                Ok(a) => a,
                Err(e) => {
                    return Err(e);
                }
            };
            if !constraints[i].is_subset(a) {
                return Err(StatusCode::ConstraintNotSatisfied);
            }
            i = i + 1;
        }
        Ok(())
    }

    /// Checks the module against the native registry: every function the
    /// module declares native must resolve, and no struct may be declared
    /// native.
    #[verifier::loop_isolation(false)]
    pub fn check_natives(&self, module: &ModuleCode) -> (r: Result<(), VmError>)
        requires
            module.wf(),
        ensures
            r is Ok <==> (no_native_structs(*module) && forall|k: int|
                0 <= k < module.function_defs@.len() && (
                #[trigger] module.function_defs@[k]).is_native ==> self.natives.spec_resolve(
                    module.spec_self_id(),
                    module.function_handles@[module.function_defs@[k].function as int].name@,
                ) is Some),
            r matches Err(e) ==> e.status == StatusCode::MissingDependency && (e.location
                matches crate::errors::Location::Module(mid) && mid@ == module.spec_self_id()),
    {
        let self_id = module.self_id();
        let mut k: usize = 0;
        while k < module.function_defs.len()
            invariant
                0 <= k <= module.function_defs@.len(),
                forall|i: int|
                    0 <= i < k && (#[trigger] module.function_defs@[i]).is_native
                        ==> self.natives.spec_resolve(
                        module.spec_self_id(),
                        module.function_handles@[module.function_defs@[i].function as int].name@,
                    ) is Some,
            decreases module.function_defs@.len() - k,
        {
            let d = &module.function_defs[k];
            if d.is_native {
                let handle = &module.function_handles[d.function];
                match self.natives.resolve(self_id, &handle.name) {
                    Some(_) => {}
                    None => {
                        return Err(
                            VmError::in_module(StatusCode::MissingDependency, self_id.duplicate()),
                        );
                    }
                }
            }
            k = k + 1;
        }
        let mut k: usize = 0;
        while k < module.struct_defs.len()
            invariant
                0 <= k <= module.struct_defs@.len(),
                forall|i: int|
                    0 <= i < k ==> (#[trigger] module.struct_defs@[i]).field_information
                        is Declared,
            decreases module.struct_defs@.len() - k,
        {
            match &module.struct_defs[k].field_information {
                crate::code::StructFieldInformation::Native => {
                    return Err(
                        VmError::in_module(StatusCode::MissingDependency, self_id.duplicate()),
                    );
                }
                crate::code::StructFieldInformation::Declared(_) => {}
            }
            k = k + 1;
        }
        Ok(())
    }

    /// Fetches, decodes and checks one module, without touching its
    /// dependencies: the store's bytes are decoded by the oracle, re-checked
    /// for well-formedness, run through the single-module verifier, and
    /// checked against the native registry.  When the module was already
    /// expected to be sound (`allow_loading_failure` is false), any failure
    /// is an invariant violation.
    pub fn load_and_verify_module(
        &self,
        id: &ModuleId,
        data_store: &impl DataStore,
        oracle: &impl FormatOracle,
        allow_loading_failure: bool,
    ) -> (r: Result<ModuleCode, VmError>)
        ensures
            r matches Ok(m) ==> m.wf() && no_native_structs(m) && m.spec_self_id() == id@,
            !allow_loading_failure ==> (r matches Err(e) ==> !e.status.is_verification()
                && !e.status.is_deserialization()),
    {
        let bytes = match data_store.load_module(id) {
            Ok(bytes) => bytes,
            Err(err) => {
                if allow_loading_failure {
                    return Err(err);
                }
                return Err(expect_no_verification_errors(err));
            }
        };
        let module = match oracle.deserialize_module(&bytes) {
            Ok(module) => module,
            Err(_) => {
                return Err(
                    expect_no_verification_errors(
                        VmError::in_module(
                            StatusCode::CodeDeserializationError,
                            id.duplicate(),
                        ),
                    ),
                );
            }
        };
        if !module.check() {
            return Err(
                expect_no_verification_errors(
                    VmError::in_module(StatusCode::CodeDeserializationError, id.duplicate()),
                ),
            );
        }
        match oracle.verify_module(&module) {
            Ok(()) => {}
            Err(e) => {
                return Err(expect_no_verification_errors(e));
            }
        }
        match self.check_natives(&module) {
            Ok(()) => {}
            Err(e) => {
                return Err(expect_no_verification_errors(e));
            }
        }
        if !module.self_id().id_eq(id) {
            return Err(
                expect_no_verification_errors(
                    VmError::in_module(StatusCode::CodeDeserializationError, id.duplicate()),
                ),
            );
        }
        Ok(module)
    }

    /// Publishes a verified module into the code cache, keeping the loader's
    /// invariant: memoized layouts stay valid because the struct table only
    /// grows.
    fn publish(&mut self, id: ModuleId, module: ModuleCode) -> (r: Result<usize, VmError>)
        requires
            old(self).wf(),
            module.wf(),
            no_native_structs(module),
            id@ == module.spec_self_id(),
        ensures
            final(self).wf(),
            old(self).grows_to(*final(self)),
            final(self).scripts == old(self).scripts,
            final(self).natives == old(self).natives,
            r matches Ok(idx) ==> final(self).module_cache.modules.spec_contains_key(id@) && idx
                == final(self).module_cache.modules.spec_index_of(id@),
            old(self).module_cache.modules.spec_contains_key(id@) ==> (r is Ok && *final(self)
                == *old(self)),
    {
        let ghost old_structs = self.module_cache.structs@;
        let r = self.module_cache.insert(&self.natives, id, module);
        proof {
            assert forall|i: int|
                0 <= i < self.type_cache.entries@.len() implies ((
            #[trigger] self.type_cache.entries@[i]).2.struct_layout matches Some(l)
                ==> crate::type_cache::struct_layout_rel(
                self.module_cache.structs@,
                self.type_cache.entries@[i].0 as int,
                type_views(self.type_cache.entries@[i].1@),
                l@,
            )) by {
                if self.type_cache.entries@[i].2.struct_layout is Some {
                    crate::type_cache::lemma_struct_layout_rel_grows(
                        old_structs,
                        self.module_cache.structs@,
                        self.type_cache.entries@[i].0 as int,
                        type_views(self.type_cache.entries@[i].1@),
                        self.type_cache.entries@[i].2.struct_layout->Some_0@,
                    );
                }
            }
            assert forall|i: int|
                0 <= i < self.type_cache.entries@.len() implies ((
            #[trigger] self.type_cache.entries@[i]).2.struct_tag matches Some(st)
                ==> crate::type_cache::struct_tag_rel(
                self.module_cache.structs@,
                self.type_cache.entries@[i].0 as int,
                type_views(self.type_cache.entries@[i].1@),
                st@,
            )) by {
                if self.type_cache.entries@[i].2.struct_tag is Some {
                    crate::type_cache::lemma_struct_tag_rel_grows_table(
                        old_structs,
                        self.module_cache.structs@,
                        self.type_cache.entries@[i].0 as int,
                        type_views(self.type_cache.entries@[i].1@),
                        self.type_cache.entries@[i].2.struct_tag->Some_0@,
                    );
                }
            }
        }
        match r {
            Ok(idx) => Ok(idx),
            Err(e) => Err(e),
        }
    }

    /// The position of the module with identity `id` among the first
    /// `count` modules of a bundle.
    #[verifier::loop_isolation(false)]
    fn find_in_bundle(bundle: &Vec<ModuleCode>, count: usize, id: &ModuleId) -> (r: Option<usize>)
        requires
            count <= bundle@.len(),
            forall|i: int| 0 <= i < bundle@.len() ==> (#[trigger] bundle@[i]).wf(),
        ensures
            r matches Some(i) ==> i < count && bundle@[i as int].spec_self_id() == id@,
    {
        let mut i: usize = 0;
        while i < count
            invariant
                0 <= i <= count,
            decreases count - i,
        {
            if bundle[i].self_id().id_eq(id) {
                return Some(i);
            }
            i = i + 1;
        }
        None
    }

    /// Loads and verifies one module together with its transitive
    /// dependencies, publishing each once its own dependencies link.  A
    /// module already on the `visited` path is a cyclic dependency.
    #[verifier::loop_isolation(false)]
    pub fn load_and_verify_module_and_dependencies(
        &mut self,
        id: &ModuleId,
        bundle_verified: &Vec<ModuleCode>,
        verified_count: usize,
        data_store: &impl DataStore,
        oracle: &impl FormatOracle,
        visited: &mut IdSet,
        friends_discovered: &mut IdSet,
        allow_module_loading_failure: bool,
        budget: u64,
    ) -> (r: Result<usize, VmError>)
        requires
            old(self).wf(),
            verified_count <= bundle_verified@.len(),
            forall|i: int| 0 <= i < bundle_verified@.len() ==> (#[trigger] bundle_verified@[i]).wf(),
        ensures
            final(self).wf(),
            old(self).grows_to(*final(self)),
            final(self).scripts == old(self).scripts,
            final(self).natives == old(self).natives,
            r matches Ok(idx) ==> final(self).module_cache.modules.spec_contains_key(id@) && idx
                == final(self).module_cache.modules.spec_index_of(id@),
            old(visited)@.contains(id@) ==> (r matches Err(e) && e.status
                == StatusCode::CyclicModuleDependency && *final(self) == *old(self)
                && *final(visited) == *old(visited) && *final(friends_discovered) == *old(friends_discovered)),
            forall|k: ModuleIdV|
                old(visited)@.contains(k) ==> #[trigger] final(visited)@.contains(k),
            forall|k: ModuleIdV|
                old(friends_discovered)@.contains(k) ==> #[trigger] final(friends_discovered)@.contains(k),
            r is Ok ==> final(visited)@.contains(id@),
        decreases budget, 1int,
    {
        if visited.contains(id) {
            return Err(VmError::undefined(StatusCode::CyclicModuleDependency));
        }
        if budget == 0 {
            return Err(VmError::undefined(StatusCode::DependencyLimitReached));
        }
        let module = match self.load_and_verify_module(
            id,
            data_store,
            oracle,
            allow_module_loading_failure,
        ) {
            Ok(m) => m,
            Err(e) => {
                return Err(e);
            }
        };
        visited.insert(id.duplicate());
        let mut fi: usize = 0;
        while fi < module.friends.len()
            invariant
                0 <= fi <= module.friends@.len(),
                visited@.contains(id@),
                forall|k: ModuleIdV|
                    old(visited)@.contains(k) ==> #[trigger] visited@.contains(k),
                forall|k: ModuleIdV|
                    old(friends_discovered)@.contains(k)
                        ==> #[trigger] friends_discovered@.contains(k),
            decreases module.friends@.len() - fi,
        {
            friends_discovered.insert(module.friends[fi].duplicate());
            fi = fi + 1;
        }
        let ghost prev = *visited;
        let ghost pref = *friends_discovered;
        let deps_result = self.load_and_verify_dependencies(
            &module,
            bundle_verified,
            verified_count,
            data_store,
            oracle,
            visited,
            friends_discovered,
            false,
            budget,
        );
        proof {
            assert forall|k: ModuleIdV|
                old(visited)@.contains(k) implies #[trigger] visited@.contains(k) by {
                assert(prev@.contains(k));
            }
            assert forall|k: ModuleIdV|
                old(friends_discovered)@.contains(k) implies #[trigger] friends_discovered@.contains(
                k,
            ) by {
                assert(pref@.contains(k));
            }
            assert(visited@.contains(id@)) by {
                assert(prev@.contains(id@));
            }
        }
        match deps_result {
            Ok(()) => {}
            Err(e) => {
                return Err(e);
            }
        }
        self.publish(id.duplicate(), module)
    }

    /// Loads and verifies every immediate dependency of `module` that is
    /// neither in the verified bundle prefix nor already cached, then runs
    /// the linking check against the full immediate-dependency set.
    #[verifier::loop_isolation(false)]
    pub fn load_and_verify_dependencies(
        &mut self,
        module: &ModuleCode,
        bundle_verified: &Vec<ModuleCode>,
        verified_count: usize,
        data_store: &impl DataStore,
        oracle: &impl FormatOracle,
        visited: &mut IdSet,
        friends_discovered: &mut IdSet,
        allow_dependency_loading_failure: bool,
        budget: u64,
    ) -> (r: Result<(), VmError>)
        requires
            old(self).wf(),
            module.wf(),
            verified_count <= bundle_verified@.len(),
            forall|i: int| 0 <= i < bundle_verified@.len() ==> (#[trigger] bundle_verified@[i]).wf(),
        ensures
            final(self).wf(),
            old(self).grows_to(*final(self)),
            final(self).scripts == old(self).scripts,
            final(self).natives == old(self).natives,
            forall|k: ModuleIdV|
                old(visited)@.contains(k) ==> #[trigger] final(visited)@.contains(k),
            forall|k: ModuleIdV|
                old(friends_discovered)@.contains(k) ==> #[trigger] final(friends_discovered)@.contains(k),
            r is Ok ==> forall|j: int|
                0 <= j < module.module_handles@.len() && (#[trigger] module.module_handles@[j])@
                    != module.spec_self_id() ==> (final(self).module_cache.modules.spec_contains_key(module.module_handles@[j]@) || exists|
                    b: int,
                |
                    0 <= b < verified_count && (#[trigger] bundle_verified@[b]).spec_self_id()
                        == module.module_handles@[j]@),
        decreases budget, 0int,
    {
        if budget == 0 {
            return Err(VmError::undefined(StatusCode::DependencyLimitReached));
        }
        let deps = module.immediate_dependencies();
        let mut i: usize = 0;
        while i < deps.len()
            invariant
                0 <= i <= deps@.len(),
                self.wf(),
                old(self).grows_to(*self),
                self.scripts == old(self).scripts,
                self.natives == old(self).natives,
                forall|k: int|
                    0 <= k < bundle_verified@.len() ==> (#[trigger] bundle_verified@[k]).wf(),
                forall|k: ModuleIdV|
                    old(visited)@.contains(k) ==> #[trigger] visited@.contains(k),
                forall|k: ModuleIdV|
                    old(friends_discovered)@.contains(k) ==> #[trigger] friends_discovered@.contains(
                        k,
                    ),
            decreases deps@.len() - i,
        {
            let dep_id = &deps[i];
            let in_bundle = match Self::find_in_bundle(bundle_verified, verified_count, dep_id) {
                Some(_) => true,
                None => false,
            };
            if !in_bundle {
                let cached = self.module_cache.has_module(dep_id);
                if !cached {
                    let ghost pre = *self;
                    let ghost prev = *visited;
                    let ghost pref = *friends_discovered;
                    match self.load_and_verify_module_and_dependencies(
                        dep_id,
                        bundle_verified,
                        verified_count,
                        data_store,
                        oracle,
                        visited,
                        friends_discovered,
                        allow_dependency_loading_failure,
                        budget - 1,
                    ) {
                        Ok(_) => {
                            proof {
                                lemma_grows_transitive(*old(self), pre, *self);
                                assert forall|k: ModuleIdV|
                                    old(visited)@.contains(k) implies #[trigger] visited@.contains(
                                    k,
                                ) by {
                                    assert(prev@.contains(k));
                                }
                                assert forall|k: ModuleIdV|
                                    old(friends_discovered)@.contains(
                                        k,
                                    ) implies #[trigger] friends_discovered@.contains(k) by {
                                    assert(pref@.contains(k));
                                }
                            }
                        }
                        Err(e) => {
                            proof {
                                assert forall|k: ModuleIdV|
                                    old(visited)@.contains(k) implies #[trigger] visited@.contains(
                                    k,
                                ) by {
                                    assert(prev@.contains(k));
                                }
                                assert forall|k: ModuleIdV|
                                    old(friends_discovered)@.contains(
                                        k,
                                    ) implies #[trigger] friends_discovered@.contains(k) by {
                                    assert(pref@.contains(k));
                                }
                            }
                            return Err(e);
                        }
                    }
                }
            }
            i = i + 1;
        }
        let mut dep_refs: Vec<&ModuleCode> = Vec::new();
        let mut i: usize = 0;
        while i < deps.len()
            invariant
                0 <= i <= deps@.len(),
                self.wf(),
                forall|j: int|
                    0 <= j < i ==> (self.module_cache.modules.spec_contains_key(
                        (#[trigger] deps@[j])@,
                    ) || exists|b: int|
                        0 <= b < verified_count && (#[trigger] bundle_verified@[b]).spec_self_id()
                            == deps@[j]@),
            decreases deps@.len() - i,
        {
            let dep_id = &deps[i];
            match Self::find_in_bundle(bundle_verified, verified_count, dep_id) {
                Some(b) => {
                    dep_refs.push(&bundle_verified[b]);
                }
                None => {
                    match self.module_cache.module_at(dep_id) {
                        Some(idx) => {
                            dep_refs.push(self.module_cache.module_value_at(idx).module());
                        }
                        None => {
                            return Err(VmError::undefined(StatusCode::UnknownInvariantViolation));
                        }
                    }
                }
            }
            i = i + 1;
        }
        let result = oracle.verify_module_dependencies(module, &dep_refs);
        proof {
            assert forall|j: int|
                0 <= j < module.module_handles@.len() && (#[trigger] module.module_handles@[j])@
                    != module.spec_self_id() implies (self.module_cache.modules.spec_contains_key(
                module.module_handles@[j]@,
            ) || exists|b: int|
                0 <= b < verified_count && (#[trigger] bundle_verified@[b]).spec_self_id()
                    == module.module_handles@[j]@) by {
                let di = choose|di: int|
                    0 <= di < deps@.len() && (#[trigger] deps@[di])@ == module.module_handles@[j]@;
                assert(self.module_cache.modules.spec_contains_key(deps@[di]@) || exists|b: int|
                    0 <= b < verified_count && (#[trigger] bundle_verified@[b]).spec_self_id()
                        == deps@[di]@);
            }
        }
        match result {
            Ok(()) => Ok(()),
            Err(e) => {
                if allow_dependency_loading_failure {
                    Err(e)
                } else {
                    Err(expect_no_verification_errors(e))
                }
            }
        }
    }

    /// Loads and verifies the module, its transitive dependencies, and then
    /// every friend the closure discovered, until the friendship frontier
    /// covers the whole closure.
    #[verifier::loop_isolation(false)]
    pub fn load_and_verify_module_and_dependencies_and_friends(
        &mut self,
        id: &ModuleId,
        bundle_verified: &Vec<ModuleCode>,
        verified_count: usize,
        bundle_unverified: &IdSet,
        data_store: &impl DataStore,
        oracle: &impl FormatOracle,
        allow_module_loading_failure: bool,
        budget: u64,
    ) -> (r: Result<usize, VmError>)
        requires
            old(self).wf(),
            verified_count <= bundle_verified@.len(),
            forall|i: int| 0 <= i < bundle_verified@.len() ==> (#[trigger] bundle_verified@[i]).wf(),
        ensures
            final(self).wf(),
            old(self).grows_to(*final(self)),
            final(self).scripts == old(self).scripts,
            final(self).natives == old(self).natives,
            r matches Ok(idx) ==> final(self).module_cache.modules.spec_contains_key(id@) && idx
                < final(self).module_cache.modules.binaries@.len(),
        decreases budget, 2int,
    {
        if budget == 0 {
            return Err(VmError::undefined(StatusCode::DependencyLimitReached));
        }
        let mut visited = IdSet::new();
        let mut friends_discovered = IdSet::new();
        let ghost pre = *self;
        let _loaded = match self.load_and_verify_module_and_dependencies(
            id,
            bundle_verified,
            verified_count,
            data_store,
            oracle,
            &mut visited,
            &mut friends_discovered,
            allow_module_loading_failure,
            budget - 1,
        ) {
            Ok(idx) => idx,
            Err(e) => {
                return Err(e);
            }
        };
        match self.load_and_verify_friends(
            friends_discovered,
            bundle_verified,
            verified_count,
            bundle_unverified,
            data_store,
            oracle,
            false,
            budget - 1,
        ) {
            Ok(()) => {}
            Err(e) => {
                proof {
                    lemma_grows_transitive(*old(self), pre, *self);
                }
                return Err(e);
            }
        }
        proof {
            lemma_grows_transitive(*old(self), pre, *self);
        }
        match self.module_cache.module_at(id) {
            Some(idx) => Ok(idx),
            None => Err(VmError::undefined(StatusCode::UnknownInvariantViolation)),
        }
    }

    /// Loads every friend module newly discovered by the closure, skipping
    /// the ones already cached, already verified in the bundle, or deferred
    /// to their own turn in the bundle.
    #[verifier::loop_isolation(false)]
    pub fn load_and_verify_friends(
        &mut self,
        friends_discovered: IdSet,
        bundle_verified: &Vec<ModuleCode>,
        verified_count: usize,
        bundle_unverified: &IdSet,
        data_store: &impl DataStore,
        oracle: &impl FormatOracle,
        allow_friend_loading_failure: bool,
        budget: u64,
    ) -> (r: Result<(), VmError>)
        requires
            old(self).wf(),
            verified_count <= bundle_verified@.len(),
            forall|i: int| 0 <= i < bundle_verified@.len() ==> (#[trigger] bundle_verified@[i]).wf(),
        ensures
            final(self).wf(),
            old(self).grows_to(*final(self)),
            final(self).scripts == old(self).scripts,
            final(self).natives == old(self).natives,
            r is Ok ==> forall|k: int|
                0 <= k < friends_discovered.items@.len()
                    ==> (final(self).module_cache.modules.spec_contains_key(
                    (#[trigger] friends_discovered.items@[k])@,
                ) || (exists|b: int|
                    0 <= b < verified_count && (#[trigger] bundle_verified@[b]).spec_self_id()
                        == friends_discovered.items@[k]@) || bundle_unverified@.contains(
                    friends_discovered.items@[k]@,
                )),
        decreases budget, 1int,
    {
        if budget == 0 {
            return Err(VmError::undefined(StatusCode::DependencyLimitReached));
        }
        let all = friends_discovered.as_vec();
        let mut pending: Vec<ModuleId> = Vec::new();
        let mut i: usize = 0;
        while i < all.len()
            invariant
                0 <= i <= all@.len(),
                self.wf(),
                forall|k: int|
                    0 <= k < i ==> (self.module_cache.modules.spec_contains_key(
                        (#[trigger] all@[k])@,
                    ) || (exists|b: int|
                        0 <= b < verified_count && (#[trigger] bundle_verified@[b]).spec_self_id()
                            == all@[k]@) || bundle_unverified@.contains(all@[k]@) || (exists|
                        p: int,
                    | 0 <= p < pending@.len() && (#[trigger] pending@[p])@ == all@[k]@)),
            decreases all@.len() - i,
        {
            let mid = &all[i];
            let skip = self.module_cache.has_module(mid) || {
                match Self::find_in_bundle(bundle_verified, verified_count, mid) {
                    Some(_) => true,
                    None => false,
                }
            } || bundle_unverified.contains(mid);
            if !skip {
                let ghost pre_pending = pending@;
                pending.push(mid.duplicate());
                proof {
                    assert(pending@.last()@ == all@[i as int]@);
                    assert forall|k: int|
                        0 <= k < i + 1 implies (self.module_cache.modules.spec_contains_key(
                        (#[trigger] all@[k])@,
                    ) || (exists|b: int|
                        0 <= b < verified_count && (#[trigger] bundle_verified@[b]).spec_self_id()
                            == all@[k]@) || bundle_unverified@.contains(all@[k]@) || (exists|
                        p: int,
                    | 0 <= p < pending@.len() && (#[trigger] pending@[p])@ == all@[k]@)) by {
                        if k < i {
                            if exists|p: int|
                                0 <= p < pre_pending.len() && (#[trigger] pre_pending[p])@
                                    == all@[k]@ {
                                let p0 = choose|p0: int|
                                    0 <= p0 < pre_pending.len() && (#[trigger] pre_pending[p0])@
                                        == all@[k]@;
                                assert(pending@[p0]@ == all@[k]@);
                            }
                        } else {
                            assert(pending@[pending@.len() - 1]@ == all@[k]@);
                        }
                    }
                }
            }
            i = i + 1;
        }
        let ghost handled = |slf: Loader, k: int|
            {
                ||| slf.module_cache.modules.spec_contains_key(all@[k]@)
                ||| (exists|b: int|
                    0 <= b < verified_count && (#[trigger] bundle_verified@[b]).spec_self_id()
                        == all@[k]@)
                ||| bundle_unverified@.contains(all@[k]@)
                ||| (exists|p: int| 0 <= p < pending@.len() && (#[trigger] pending@[p])@ == all@[k]@)
            };
        let mut i: usize = 0;
        while i < pending.len()
            invariant
                0 <= i <= pending@.len(),
                self.wf(),
                old(self).grows_to(*self),
                self.scripts == old(self).scripts,
                self.natives == old(self).natives,
                forall|k: int|
                    0 <= k < bundle_verified@.len() ==> (#[trigger] bundle_verified@[k]).wf(),
                forall|p: int|
                    0 <= p < i ==> self.module_cache.modules.spec_contains_key(
                        (#[trigger] pending@[p])@,
                    ),
                forall|k: int|
                    0 <= k < all@.len() ==> (self.module_cache.modules.spec_contains_key(
                        (#[trigger] all@[k])@,
                    ) || (exists|b: int|
                        0 <= b < verified_count && (#[trigger] bundle_verified@[b]).spec_self_id()
                            == all@[k]@) || bundle_unverified@.contains(all@[k]@) || (exists|
                        p: int,
                    | 0 <= p < pending@.len() && (#[trigger] pending@[p])@ == all@[k]@)),
            decreases pending@.len() - i,
        {
            let ghost pre = *self;
            match self.load_and_verify_module_and_dependencies_and_friends(
                &pending[i],
                bundle_verified,
                verified_count,
                bundle_unverified,
                data_store,
                oracle,
                allow_friend_loading_failure,
                budget - 1,
            ) {
                Ok(_) => {
                    proof {
                        lemma_grows_transitive(*old(self), pre, *self);
                        assert forall|p: int|
                            0 <= p < i + 1 implies self.module_cache.modules.spec_contains_key(
                            (#[trigger] pending@[p])@,
                        ) by {
                            if p < i {
                                lemma_contains_stable(
                                    pre.module_cache.modules,
                                    self.module_cache.modules,
                                    pending@[p]@,
                                );
                            }
                        }
                        assert forall|k: int|
                            0 <= k < all@.len() implies (
                        self.module_cache.modules.spec_contains_key((#[trigger] all@[k])@) || (
                        exists|b: int|
                            0 <= b < verified_count && (
                            #[trigger] bundle_verified@[b]).spec_self_id() == all@[k]@)
                            || bundle_unverified@.contains(all@[k]@) || (exists|p: int|
                            0 <= p < pending@.len() && (#[trigger] pending@[p])@ == all@[k]@)) by {
                            if pre.module_cache.modules.spec_contains_key(all@[k]@) {
                                lemma_contains_stable(
                                    pre.module_cache.modules,
                                    self.module_cache.modules,
                                    all@[k]@,
                                );
                            }
                        }
                    }
                }
                Err(e) => {
                    return Err(e);
                }
            }
            i = i + 1;
        }
        proof {
            assert forall|k: int|
                0 <= k < friends_discovered.items@.len() implies (
            self.module_cache.modules.spec_contains_key(
                (#[trigger] friends_discovered.items@[k])@,
            ) || (exists|b: int|
                0 <= b < verified_count && (#[trigger] bundle_verified@[b]).spec_self_id()
                    == friends_discovered.items@[k]@) || bundle_unverified@.contains(
                friends_discovered.items@[k]@,
            )) by {
                if exists|p: int|
                    0 <= p < pending@.len() && (#[trigger] pending@[p])@
                        == friends_discovered.items@[k]@ {
                    let p0 = choose|p0: int|
                        0 <= p0 < pending@.len() && (#[trigger] pending@[p0])@
                            == friends_discovered.items@[k]@;
                    assert(self.module_cache.modules.spec_contains_key(pending@[p0]@));
                }
            }
        }
        Ok(())
    }

    /// Materializes, for the cyclic-relation pass, the identity, immediate
    /// dependencies and friends of every module the loader knows: first the
    /// verified bundle prefix, then the cache, in order.  A module deferred
    /// to its own turn in the bundle contributes no friends.
    #[verifier::loop_isolation(false)]
    pub fn build_relations(
        &self,
        bundle_verified: &Vec<ModuleCode>,
        verified_count: usize,
        bundle_unverified: &IdSet,
    ) -> (r: Vec<ModuleRelations>)
        requires
            self.wf(),
            verified_count <= bundle_verified@.len(),
            forall|i: int| 0 <= i < bundle_verified@.len() ==> (#[trigger] bundle_verified@[i]).wf(),
        ensures
            r@.len() == verified_count + self.module_cache.modules.binaries@.len(),
            forall|i: int|
                0 <= i < verified_count ==> relation_entry_ok(
                    #[trigger] r@[i],
                    bundle_verified@[i],
                    bundle_unverified@,
                ),
            forall|i: int|
                0 <= i < self.module_cache.modules.binaries@.len() ==> relation_entry_ok(
                #[trigger] r@[verified_count + i],
                self.module_cache.modules.binaries@[i].code,
                bundle_unverified@,
            ),
    {
        let mut relations: Vec<ModuleRelations> = Vec::new();
        let mut i: usize = 0;
        while i < verified_count
            invariant
                0 <= i <= verified_count,
                relations@.len() == i,
                forall|k: int|
                    0 <= k < i ==> relation_entry_ok(
                        #[trigger] relations@[k],
                        bundle_verified@[k],
                        bundle_unverified@,
                    ),
            decreases verified_count - i,
        {
            let m = &bundle_verified[i];
            let id = m.self_id().duplicate();
            let deps = m.immediate_dependencies();
            let friends = if bundle_unverified.contains(m.self_id()) {
                Vec::new()
            } else {
                clone_ids(&m.friends)
            };
            relations.push(ModuleRelations { id, deps, friends });
            i = i + 1;
        }
        let n = self.module_cache.modules.len();
        let mut i: usize = 0;
        while i < n
            invariant
                0 <= i <= n,
                n == self.module_cache.modules.binaries@.len(),
                relations@.len() == verified_count + i,
                forall|k: int|
                    0 <= k < verified_count ==> relation_entry_ok(
                        #[trigger] relations@[k],
                        bundle_verified@[k],
                        bundle_unverified@,
                    ),
                forall|k: int|
                    0 <= k < i ==> relation_entry_ok(
                    #[trigger] relations@[verified_count + k],
                    self.module_cache.modules.binaries@[k].code,
                    bundle_unverified@,
                ),
            decreases n - i,
        {
            let m = self.module_cache.module_value_at(i);
            proof {
                assert(m.wf(
                    self.module_cache.structs@.len() as int,
                    self.module_cache.functions@.len() as int,
                ));
            }
            let id = m.code.self_id().duplicate();
            let deps = m.code.immediate_dependencies();
            let friends = if bundle_unverified.contains(m.code.self_id()) {
                Vec::new()
            } else {
                clone_ids(&m.code.friends)
            };
            relations.push(ModuleRelations { id, deps, friends });
            i = i + 1;
        }
        relations
    }

    /// Runs the cyclic-relation check for `module` against everything the
    /// loader knows: the verified bundle prefix and the cache, with the
    /// friends of still-unverified bundle members deferred to their own
    /// turn.
    #[verifier::loop_isolation(false)]
    pub fn verify_module_cyclic_relations(
        &self,
        module: &ModuleCode,
        bundle_verified: &Vec<ModuleCode>,
        verified_count: usize,
        bundle_unverified: &IdSet,
        oracle: &impl FormatOracle,
    ) -> (r: Result<(), VmError>)
        requires
            self.wf(),
            module.wf(),
            verified_count <= bundle_verified@.len(),
            forall|i: int| 0 <= i < bundle_verified@.len() ==> (#[trigger] bundle_verified@[i]).wf(),
    {
        let relations = self.build_relations(bundle_verified, verified_count, bundle_unverified);
        oracle.verify_cyclic(module, &relations)
    }

    /// Loads the transitive closure of the target module, then verifies that
    /// the closure has no cyclic relations.  A cycle surfaced by that final
    /// check is an invariant violation: modules already in the store must be
    /// cycle free.
    pub fn load_module_internal(
        &mut self,
        id: &ModuleId,
        bundle_verified: &Vec<ModuleCode>,
        verified_count: usize,
        bundle_unverified: &IdSet,
        data_store: &impl DataStore,
        oracle: &impl FormatOracle,
    ) -> (r: Result<usize, VmError>)
        requires
            old(self).wf(),
            verified_count <= bundle_verified@.len(),
            forall|i: int| 0 <= i < bundle_verified@.len() ==> (#[trigger] bundle_verified@[i]).wf(),
        ensures
            final(self).wf(),
            old(self).grows_to(*final(self)),
            final(self).scripts == old(self).scripts,
            final(self).natives == old(self).natives,
            old(self).module_cache.modules.spec_contains_key(id@) ==> (r matches Ok(idx) && idx
                == old(self).module_cache.modules.spec_index_of(id@) && *final(self) == *old(self)),
            r matches Ok(idx) ==> final(self).module_cache.modules.spec_contains_key(id@) && idx
                == final(self).module_cache.modules.spec_index_of(id@) && idx < final(self).module_cache.modules.binaries@.len(),
    {
        match self.module_cache.module_at(id) {
            Some(idx) => {
                return Ok(idx);
            }
            None => {}
        }
        let ghost pre = *self;
        let idx = match self.load_and_verify_module_and_dependencies_and_friends(
            id,
            bundle_verified,
            verified_count,
            bundle_unverified,
            data_store,
            oracle,
            true,
            LOAD_BUDGET,
        ) {
            Ok(idx) => idx,
            Err(e) => {
                return Err(e);
            }
        };
        let target = self.module_cache.module_value_at(idx);
        match self.verify_module_cyclic_relations(
            &target.code,
            bundle_verified,
            verified_count,
            bundle_unverified,
            oracle,
        ) {
            Ok(()) => {}
            Err(e) => {
                return Err(expect_no_verification_errors(e));
            }
        }
        match self.module_cache.module_at(id) {
            Some(idx2) => Ok(idx2),
            None => Err(VmError::undefined(StatusCode::UnknownInvariantViolation)),
        }
    }

    /// Loads a module: returns its permanent index in the code cache.  A
    /// module already cached is returned as it is and nothing changes; a
    /// fresh module is loaded together with its transitive dependency and
    /// friend closure, and checked cycle free.
    pub fn load_module(
        &mut self,
        id: &ModuleId,
        data_store: &impl DataStore,
        oracle: &impl FormatOracle,
    ) -> (r: Result<usize, VmError>)
        requires
            old(self).wf(),
        ensures
            final(self).wf(),
            old(self).grows_to(*final(self)),
            final(self).scripts == old(self).scripts,
            final(self).natives == old(self).natives,
            old(self).module_cache.modules.spec_contains_key(id@) ==> (r matches Ok(idx) && idx
                == old(self).module_cache.modules.spec_index_of(id@) && *final(self) == *old(self)),
            r matches Ok(idx) ==> final(self).module_cache.modules.spec_contains_key(id@) && idx
                == final(self).module_cache.modules.spec_index_of(id@) && idx < final(self).module_cache.modules.binaries@.len(),
    {
        let bundle_verified: Vec<ModuleCode> = Vec::new();
        let bundle_unverified = IdSet::new();
        self.load_module_internal(id, &bundle_verified, 0, &bundle_unverified, data_store, oracle)
    }

    /// Translates an externally supplied type tag into a runtime type,
    /// loading the module of every struct the tag names and checking the
    /// ability constraints of every instantiation.
    #[verifier::loop_isolation(false)]
    #[verifier::rlimit(60)]
    pub fn load_type(
        &mut self,
        tag: &TypeTag,
        data_store: &impl DataStore,
        oracle: &impl FormatOracle,
    ) -> (r: Result<Type, VmError>)
        requires
            old(self).wf(),
        ensures
            final(self).wf(),
            old(self).grows_to(*final(self)),
            final(self).scripts == old(self).scripts,
            final(self).natives == old(self).natives,
            r matches Ok(t) ==> tag_loaded_rel(final(self).module_cache.modules, *tag, t@),
            tag_struct_free(*tag) ==> r is Ok && *final(self) == *old(self),
        decreases *tag,
    {
        match tag {
            TypeTag::Bool => Ok(Type::Bool),
            TypeTag::U8 => Ok(Type::U8),
            TypeTag::U64 => Ok(Type::U64),
            TypeTag::U128 => Ok(Type::U128),
            TypeTag::Address => Ok(Type::Address),
            TypeTag::Signer => Ok(Type::Signer),
            TypeTag::Vector(inner) => match self.load_type(inner, data_store, oracle) {
                Ok(t) => Ok(Type::Vector(Box::new(t))),
                Err(e) => Err(e),
            },
            TypeTag::Struct(st) => {
                let module_id = ModuleId {
                    address: crate::ids::clone_bytes(&st.address),
                    name: crate::ids::clone_bytes(&st.module),
                };
                match self.load_module(&module_id, data_store, oracle) {
                    Ok(_) => {}
                    Err(e) => {
                        return Err(e);
                    }
                }
                let idx = match self.module_cache.resolve_struct_by_name(&st.name, &module_id) {
                    Ok(idx) => idx,
                    Err(e) => {
                        return Err(VmError::undefined(e));
                    }
                };
                let declared_empty = self.module_cache.struct_at(idx).type_parameters.len() == 0;
                if declared_empty && st.type_params.len() == 0 {
                    return Ok(Type::Struct(idx));
                }
                let ghost mid0 = self.module_cache.modules;
                let mut type_params: Vec<Type> = Vec::new();
                let mut i: usize = 0;
                while i < st.type_params.len()
                    invariant
                        0 <= i <= st.type_params@.len(),
                        type_params@.len() == i,
                        self.wf(),
                        old(self).grows_to(*self),
                        cache_grows(mid0, self.module_cache.modules),
                        self.scripts == old(self).scripts,
                        self.natives == old(self).natives,
                        forall|j: int|
                            0 <= j < i ==> tag_loaded_rel(
                                self.module_cache.modules,
                                st.type_params@[j],
                                (#[trigger] type_params@[j])@,
                            ),
                    decreases st.type_params@.len() - i,
                {
                    let ghost pre = *self;
                    match self.load_type(&st.type_params[i], data_store, oracle) {
                        Ok(t) => {
                            proof {
                                lemma_grows_transitive(*old(self), pre, *self);
                                assert forall|j: int|
                                    0 <= j < i implies tag_loaded_rel(
                                    self.module_cache.modules,
                                    st.type_params@[j],
                                    (#[trigger] type_params@[j])@,
                                ) by {
                                    lemma_tag_rel_grows(
                                        pre.module_cache.modules,
                                        self.module_cache.modules,
                                        st.type_params@[j],
                                        type_params@[j]@,
                                    );
                                }
                            }
                            type_params.push(t);
                        }
                        Err(e) => {
                            return Err(e);
                        }
                    }
                    i = i + 1;
                }
                let constraints = match self.struct_constraints(idx) {
                    Some(c) => c,
                    None => {
                        return Err(VmError::undefined(StatusCode::UnknownInvariantViolation));
                    }
                };
                match self.verify_ty_args(&constraints, &type_params) {
                    Ok(()) => {}
                    Err(e) => {
                        return Err(VmError::undefined(e));
                    }
                }
                proof {
                    lemma_cache_grows_stable(
                        mid0,
                        self.module_cache.modules,
                        ModuleIdV { address: st.address@, name: st.module@ },
                    );
                    crate::runtime_types::lemma_type_views(type_params@);
                }
                Ok(Type::StructInstantiation(idx, type_params))
            }
        }
    }

    /// The declared ability constraints of a cached struct's type
    /// parameters.
    #[verifier::loop_isolation(false)]
    fn struct_constraints(&self, idx: usize) -> (r: Option<Vec<AbilitySet>>)
        ensures
            idx < self.module_cache.structs@.len() <==> r is Some,
    {
        if idx >= self.module_cache.structs.len() {
            return None;
        }
        let st = self.module_cache.struct_at(idx);
        let mut out: Vec<AbilitySet> = Vec::new();
        let mut i: usize = 0;
        while i < st.type_parameters.len()
            invariant
                0 <= i <= st.type_parameters@.len(),
            decreases st.type_parameters@.len() - i,
        {
            out.push(st.type_parameters[i].constraints);
            i = i + 1;
        }
        Some(out)
    }

    /// The function at a permanent index in the global function table.
    pub fn function_at(&self, idx: usize) -> (r: &crate::function::Function)
        requires
            idx < self.module_cache.functions@.len(),
        ensures
            *r == self.module_cache.functions@[idx as int],
    {
        self.module_cache.function_at(idx)
    }

    /// The struct type at a permanent index, if issued.
    pub fn get_struct_type(&self, idx: usize) -> (r: Option<&crate::module_cache::StructType>)
        ensures
            idx < self.module_cache.structs@.len() <==> r is Some,
            r matches Some(st) ==> *st == self.module_cache.structs@[idx as int],
    {
        if idx < self.module_cache.structs.len() {
            Some(self.module_cache.struct_at(idx))
        } else {
            None
        }
    }

    /// Loads a function: loads its module's closure, resolves the function
    /// by name, translates the supplied type tags and checks them against
    /// the declared constraints, and translates the parameter and return
    /// types.
    #[verifier::loop_isolation(false)]
    pub fn load_function(
        &mut self,
        module_id: &ModuleId,
        function_name: &Vec<u8>,
        ty_args: &Vec<TypeTag>,
        data_store: &impl DataStore,
        oracle: &impl FormatOracle,
    ) -> (r: Result<(usize, usize, LoadedFunctionInstantiation), VmError>)
        requires
            old(self).wf(),
        ensures
            final(self).wf(),
            old(self).grows_to(*final(self)),
            final(self).scripts == old(self).scripts,
            final(self).natives == old(self).natives,
            r matches Ok((midx, fidx, inst)) ==> {
                let f = final(self).module_cache.functions@[fidx as int];
                let m = final(self).module_cache.modules.binaries@[midx as int];
                &&& final(self).module_cache.modules.spec_contains_key(module_id@)
                &&& midx == final(self).module_cache.modules.spec_index_of(module_id@)
                &&& fidx < final(self).module_cache.functions@.len()
                &&& f.name@ == function_name@
                &&& (f.scope matches crate::function::Scope::Module(mid) && mid@ == module_id@)
                &&& Some(fidx) == final(self).module_cache.spec_resolve_function(
                    module_id@,
                    function_name@,
                )
                &&& inst.type_arguments@.len() == ty_args@.len()
                &&& forall|i: int|
                    0 <= i < ty_args@.len() ==> tag_loaded_rel(
                        final(self).module_cache.modules,
                        ty_args@[i],
                        (#[trigger] inst.type_arguments@[i])@,
                    )
                &&& inst.type_arguments@.len() == f.type_parameters@.len()
                &&& forall|i: int|
                    0 <= i < inst.type_arguments@.len() ==> (spec_abilities(
                        final(self).module_cache.structs@,
                        (#[trigger] inst.type_arguments@[i])@,
                    ) matches Some(a) && f.type_parameters@[i].spec_is_subset(a))
                &&& f.parameters < m.code.signatures@.len()
                &&& f.return_ < m.code.signatures@.len()
                &&& inst.parameters@.len() == m.code.signatures@[f.parameters as int]@.len()
                &&& forall|j: int|
                    0 <= j < inst.parameters@.len() ==> crate::module_cache::spec_translated(
                        final(self).module_cache.modules,
                        final(self).module_cache.skeys(),
                        m.code.struct_handles@,
                        m.code.module_handles@,
                        None,
                        m.code.signatures@[f.parameters as int]@[j],
                        (#[trigger] inst.parameters@[j])@,
                    )
                &&& inst.return_@.len() == m.code.signatures@[f.return_ as int]@.len()
                &&& forall|j: int|
                    0 <= j < inst.return_@.len() ==> crate::module_cache::spec_translated(
                        final(self).module_cache.modules,
                        final(self).module_cache.skeys(),
                        m.code.struct_handles@,
                        m.code.module_handles@,
                        None,
                        m.code.signatures@[f.return_ as int]@[j],
                        (#[trigger] inst.return_@[j])@,
                    )
            },
    {
        let midx = match self.load_module(module_id, data_store, oracle) {
            Ok(midx) => midx,
            Err(e) => {
                return Err(e);
            }
        };
        let fidx = match self.module_cache.resolve_function_by_name(function_name, module_id) {
            Ok(fidx) => fidx,
            Err(e) => {
                return Err(VmError::undefined(e));
            }
        };
        let ghost s0 = *self;
        let mut type_arguments: Vec<Type> = Vec::new();
        let mut i: usize = 0;
        while i < ty_args.len()
            invariant
                0 <= i <= ty_args@.len(),
                type_arguments@.len() == i,
                self.wf(),
                old(self).grows_to(*self),
                s0.grows_to(*self),
                self.scripts == old(self).scripts,
                self.natives == old(self).natives,
                forall|j: int|
                    0 <= j < i ==> tag_loaded_rel(
                        self.module_cache.modules,
                        ty_args@[j],
                        (#[trigger] type_arguments@[j])@,
                    ),
            decreases ty_args@.len() - i,
        {
            let ghost pre = *self;
            match self.load_type(&ty_args[i], data_store, oracle) {
                Ok(t) => {
                    proof {
                        lemma_grows_transitive(*old(self), pre, *self);
                        lemma_grows_transitive(s0, pre, *self);
                        assert forall|j: int|
                            0 <= j < i implies tag_loaded_rel(
                            self.module_cache.modules,
                            ty_args@[j],
                            (#[trigger] type_arguments@[j])@,
                        ) by {
                            lemma_tag_rel_grows(
                                pre.module_cache.modules,
                                self.module_cache.modules,
                                ty_args@[j],
                                type_arguments@[j]@,
                            );
                        }
                    }
                    type_arguments.push(t);
                }
                Err(e) => {
                    return Err(e);
                }
            }
            i = i + 1;
        }
        if fidx >= self.module_cache.functions.len() {
            return Err(VmError::undefined(StatusCode::UnknownInvariantViolation));
        }
        let tps = clone_ability_sets(&self.module_cache.function_at(fidx).type_parameters);
        match self.verify_ty_args(&tps, &type_arguments) {
            Ok(()) => {}
            Err(e) => {
                return Err(VmError::in_module(e, module_id.duplicate()));
            }
        }
        let midx2 = match self.module_cache.module_at(module_id) {
            Some(m) => m,
            None => {
                return Err(VmError::undefined(StatusCode::UnknownInvariantViolation));
            }
        };
        let parameters = match self.translate_function_signature(midx2, fidx, true) {
            Ok(tys) => tys,
            Err(e) => {
                return Err(VmError::undefined(e));
            }
        };
        let return_ = match self.translate_function_signature(midx2, fidx, false) {
            Ok(tys) => tys,
            Err(e) => {
                return Err(VmError::undefined(e));
            }
        };
        proof {
            assert(self.module_cache.functions@[fidx as int] == s0.module_cache.functions@[
                fidx as int
            ]);
            lemma_cache_grows_stable(
                s0.module_cache.modules,
                self.module_cache.modules,
                module_id@,
            );
            assert(self.module_cache.modules.spec_value_of(module_id@)
                == s0.module_cache.modules.spec_value_of(module_id@));
            assert(Some(fidx) == self.module_cache.spec_resolve_function(
                module_id@,
                function_name@,
            ));
        }
        Ok((midx2, fidx, LoadedFunctionInstantiation { type_arguments, parameters, return_ }))
    }

    /// Translates the parameter or return signature of a cached function
    /// against the cache.
    #[verifier::loop_isolation(false)]
    fn translate_function_signature(&self, midx: usize, fidx: usize, params: bool) -> (r: Result<
        Vec<Type>,
        StatusCode,
    >)
        requires
            self.wf(),
            midx < self.module_cache.modules.binaries@.len(),
            fidx < self.module_cache.functions@.len(),
        ensures
            r matches Ok(tys) ==> {
                let m = self.module_cache.modules.binaries@[midx as int];
                let f = self.module_cache.functions@[fidx as int];
                let sig_idx = if params {
                    f.parameters as int
                } else {
                    f.return_ as int
                };
                &&& sig_idx < m.code.signatures@.len()
                &&& tys@.len() == m.code.signatures@[sig_idx]@.len()
                &&& forall|j: int|
                    0 <= j < tys@.len() ==> crate::module_cache::spec_translated(
                        self.module_cache.modules,
                        self.module_cache.skeys(),
                        m.code.struct_handles@,
                        m.code.module_handles@,
                        None,
                        m.code.signatures@[sig_idx]@[j],
                        (#[trigger] tys@[j])@,
                    )
            },
    {
        let m = self.module_cache.module_value_at(midx);
        let f = self.module_cache.function_at(fidx);
        let sig_idx = if params {
            f.parameters
        } else {
            f.return_
        };
        if sig_idx >= m.code.signatures.len() {
            return Err(StatusCode::UnknownInvariantViolation);
        }
        let sig = &m.code.signatures[sig_idx];
        let mut out: Vec<Type> = Vec::new();
        let mut j: usize = 0;
        while j < sig.len()
            invariant
                0 <= j <= sig@.len(),
                self.wf(),
                midx < self.module_cache.modules.binaries@.len(),
                sig_idx < m.code.signatures@.len(),
                m == self.module_cache.modules.binaries@[midx as int],
                sig == &m.code.signatures[sig_idx as int],
                out@.len() == j,
                forall|jj: int|
                    0 <= jj < j ==> crate::module_cache::spec_translated(
                        self.module_cache.modules,
                        self.module_cache.skeys(),
                        m.code.struct_handles@,
                        m.code.module_handles@,
                        None,
                        sig@[jj],
                        (#[trigger] out@[jj])@,
                    ),
            decreases sig@.len() - j,
        {
            proof {
                assert(m.wf(
                    self.module_cache.structs@.len() as int,
                    self.module_cache.functions@.len() as int,
                ));
            }
            match self.module_cache.make_type(
                &m.code.struct_handles,
                &m.code.module_handles,
                &sig[j],
            ) {
                Ok(t) => {
                    out.push(t);
                }
                Err(e) => {
                    return Err(e);
                }
            }
            j = j + 1;
        }
        Ok(out)
    }
}

impl Loader {
    /// Decodes and verifies a script, loading its dependency closure and
    /// running the script-level linking check.
    #[verifier::loop_isolation(false)]
    pub fn deserialize_and_verify_script(
        &mut self,
        script_blob: &Vec<u8>,
        data_store: &impl DataStore,
        oracle: &impl FormatOracle,
    ) -> (r: Result<ScriptCode, VmError>)
        requires
            old(self).wf(),
        ensures
            final(self).wf(),
            old(self).grows_to(*final(self)),
            final(self).scripts == old(self).scripts,
            final(self).natives == old(self).natives,
            r matches Ok(c) ==> c.wf(),
    {
        let code = match oracle.deserialize_script(script_blob) {
            Ok(code) => code,
            Err(_) => {
                return Err(VmError::in_script(StatusCode::CodeDeserializationError));
            }
        };
        if !code.check() {
            return Err(VmError::in_script(StatusCode::CodeDeserializationError));
        }
        match oracle.verify_script(&code) {
            Ok(()) => {}
            Err(e) => {
                return Err(e);
            }
        }
        let mut i: usize = 0;
        while i < code.module_handles.len()
            invariant
                0 <= i <= code.module_handles@.len(),
                self.wf(),
                old(self).grows_to(*self),
                self.scripts == old(self).scripts,
                self.natives == old(self).natives,
            decreases code.module_handles@.len() - i,
        {
            let ghost pre = *self;
            match self.load_module(&code.module_handles[i], data_store, oracle) {
                Ok(_) => {
                    proof {
                        lemma_grows_transitive(*old(self), pre, *self);
                    }
                }
                Err(e) => {
                    return Err(e);
                }
            }
            i = i + 1;
        }
        let mut dep_refs: Vec<&ModuleCode> = Vec::new();
        let mut i: usize = 0;
        while i < code.module_handles.len()
            invariant
                0 <= i <= code.module_handles@.len(),
                self.wf(),
            decreases code.module_handles@.len() - i,
        {
            match self.module_cache.module_at(&code.module_handles[i]) {
                Some(idx) => {
                    dep_refs.push(self.module_cache.module_value_at(idx).module());
                }
                None => {
                    return Err(VmError::undefined(StatusCode::UnknownInvariantViolation));
                }
            }
            i = i + 1;
        }
        match oracle.verify_script_dependencies(&code, &dep_refs) {
            Ok(()) => Ok(code),
            Err(e) => Err(e),
        }
    }

    /// Loads a script for execution: the script is found in the cache by the
    /// hash of its bytes, or decoded, verified and cached; then the supplied
    /// type tags are translated and checked against the entry point's
    /// declared constraints.  Returns the script's permanent cache index and
    /// the typed instantiation.
    #[verifier::loop_isolation(false)]
    pub fn load_script(
        &mut self,
        script_blob: &Vec<u8>,
        ty_args: &Vec<TypeTag>,
        data_store: &impl DataStore,
        oracle: &impl FormatOracle,
    ) -> (r: Result<(usize, LoadedFunctionInstantiation), VmError>)
        requires
            old(self).wf(),
        ensures
            final(self).wf(),
            old(self).grows_to(*final(self)),
            final(self).natives == old(self).natives,
            old(self).scripts.scripts.spec_contains_key(sha3_256_of(script_blob@)) ==> final(self).scripts == old(self).scripts,
            r matches Ok((sidx, inst)) ==> {
                let sc = final(self).scripts.scripts.binaries@[sidx as int];
                &&& final(self).scripts.scripts.spec_contains_key(sha3_256_of(script_blob@))
                &&& sidx == final(self).scripts.scripts.spec_index_of(sha3_256_of(script_blob@))
                &&& sidx < final(self).scripts.scripts.binaries@.len()
                &&& sc.hash@ == sha3_256_of(script_blob@)
                &&& (sc.main.scope matches crate::function::Scope::Script(h) && h@ == sha3_256_of(
                    script_blob@,
                ))
                &&& sc.main.name@ == seq![109u8, 97u8, 105u8, 110u8]
                &&& inst.return_@.len() == 0
                &&& inst.type_arguments@.len() == ty_args@.len()
                &&& forall|i: int|
                    0 <= i < ty_args@.len() ==> tag_loaded_rel(
                        final(self).module_cache.modules,
                        ty_args@[i],
                        (#[trigger] inst.type_arguments@[i])@,
                    )
                &&& inst.type_arguments@.len() == sc.main.type_parameters@.len()
                &&& forall|i: int|
                    0 <= i < inst.type_arguments@.len() ==> (spec_abilities(
                        final(self).module_cache.structs@,
                        (#[trigger] inst.type_arguments@[i])@,
                    ) matches Some(a) && sc.main.type_parameters@[i].spec_is_subset(a))
                &&& type_views(inst.parameters@) == type_views(
                    final(self).scripts.scripts.binaries@[sidx as int].parameter_tys@,
                )
            },
            (old(self).scripts.scripts.spec_contains_key(sha3_256_of(script_blob@)) && old(
                self,
            ).scripts.scripts.binaries@[old(self).scripts.scripts.spec_index_of(
                sha3_256_of(script_blob@),
            )].main.type_parameters@.len() == 0 && ty_args@.len() == 0) ==> r is Ok,
    {
        let hash_value = script_hash(script_blob);
        let sidx = match self.scripts.get(&hash_value) {
            Some(sidx) => sidx,
            None => {
                let ghost pre = *self;
                let code = match self.deserialize_and_verify_script(
                    script_blob,
                    data_store,
                    oracle,
                ) {
                    Ok(code) => code,
                    Err(e) => {
                        return Err(e);
                    }
                };
                let script = match crate::script::Script::new(
                    &self.module_cache,
                    code,
                    crate::ids::clone_bytes(&hash_value),
                ) {
                    Ok(script) => script,
                    Err(e) => {
                        return Err(e);
                    }
                };
                self.scripts.insert(hash_value, script)
            }
        };
        let script_params = duplicate_types(&self.scripts.script_at(sidx).parameter_tys);
        let main_tps = clone_ability_sets(&self.scripts.script_at(sidx).main.type_parameters);
        let ghost mid_loader = *self;
        let mut type_arguments: Vec<Type> = Vec::new();
        let mut i: usize = 0;
        while i < ty_args.len()
            invariant
                0 <= i <= ty_args@.len(),
                type_arguments@.len() == i,
                self.wf(),
                mid_loader.grows_to(*self),
                self.scripts == mid_loader.scripts,
                self.natives == mid_loader.natives,
                forall|j: int|
                    0 <= j < i ==> tag_loaded_rel(
                        self.module_cache.modules,
                        ty_args@[j],
                        (#[trigger] type_arguments@[j])@,
                    ),
            decreases ty_args@.len() - i,
        {
            let ghost pre = *self;
            match self.load_type(&ty_args[i], data_store, oracle) {
                Ok(t) => {
                    proof {
                        lemma_grows_transitive(mid_loader, pre, *self);
                        assert forall|j: int|
                            0 <= j < i implies tag_loaded_rel(
                            self.module_cache.modules,
                            ty_args@[j],
                            (#[trigger] type_arguments@[j])@,
                        ) by {
                            lemma_tag_rel_grows(
                                pre.module_cache.modules,
                                self.module_cache.modules,
                                ty_args@[j],
                                type_arguments@[j]@,
                            );
                        }
                    }
                    type_arguments.push(t);
                }
                Err(e) => {
                    return Err(e);
                }
            }
            i = i + 1;
        }
        match self.verify_ty_args(&main_tps, &type_arguments) {
            Ok(()) => {}
            Err(e) => {
                return Err(VmError::in_script(e));
            }
        }
        let return_: Vec<Type> = Vec::new();
        proof {
            assert(type_views(return_@) =~= Seq::<TypeV>::empty());
            lemma_grows_transitive(*old(self), mid_loader, *self);
        }
        Ok((sidx, LoadedFunctionInstantiation { type_arguments, parameters: script_params, return_ }))
    }

    /// Verifies a bundle of modules for publication, in order, without
    /// installing any of them in the code cache: each module is checked with
    /// the modules before it treated as published and the modules after it
    /// deferred to their own turn.
    #[verifier::loop_isolation(false)]
    pub fn verify_module_bundle_for_publication(
        &mut self,
        modules: &Vec<ModuleCode>,
        data_store: &impl DataStore,
        oracle: &impl FormatOracle,
    ) -> (r: Result<(), VmError>)
        requires
            old(self).wf(),
            forall|i: int| 0 <= i < modules@.len() ==> (#[trigger] modules@[i]).wf(),
        ensures
            final(self).wf(),
            old(self).grows_to(*final(self)),
            final(self).scripts == old(self).scripts,
            final(self).natives == old(self).natives,
    {
        let n = modules.len();
        let mut i: usize = 0;
        while i < n
            invariant
                0 <= i <= n,
                n == modules@.len(),
                self.wf(),
                old(self).grows_to(*self),
                self.scripts == old(self).scripts,
                self.natives == old(self).natives,
                forall|k: int| 0 <= k < modules@.len() ==> (#[trigger] modules@[k]).wf(),
            decreases n - i,
        {
            let mut bundle_unverified = IdSet::new();
            let mut j: usize = i + 1;
            while j < n
                invariant
                    i < j <= n,
                    n == modules@.len(),
                    forall|k: int| 0 <= k < modules@.len() ==> (#[trigger] modules@[k]).wf(),
                decreases n - j,
            {
                bundle_unverified.insert(modules[j].self_id().duplicate());
                j = j + 1;
            }
            let ghost pre = *self;
            match self.verify_module_for_publication(
                &modules[i],
                modules,
                i,
                &bundle_unverified,
                data_store,
                oracle,
            ) {
                Ok(()) => {
                    proof {
                        lemma_grows_transitive(*old(self), pre, *self);
                    }
                }
                Err(e) => {
                    return Err(e);
                }
            }
            i = i + 1;
        }
        Ok(())
    }

    /// Verifies one module for publication without installing it: the
    /// single-module pass, the native check, the downward dependency closure
    /// (allowed to fail: the module is new), the upward friend closure, and
    /// the cyclic-relation check.
    #[verifier::loop_isolation(false)]
    pub fn verify_module_for_publication(
        &mut self,
        module: &ModuleCode,
        bundle_verified: &Vec<ModuleCode>,
        verified_count: usize,
        bundle_unverified: &IdSet,
        data_store: &impl DataStore,
        oracle: &impl FormatOracle,
    ) -> (r: Result<(), VmError>)
        requires
            old(self).wf(),
            module.wf(),
            verified_count <= bundle_verified@.len(),
            forall|i: int| 0 <= i < bundle_verified@.len() ==> (#[trigger] bundle_verified@[i]).wf(),
        ensures
            final(self).wf(),
            old(self).grows_to(*final(self)),
            final(self).scripts == old(self).scripts,
            final(self).natives == old(self).natives,
    {
        match oracle.verify_module(module) {
            Ok(()) => {}
            Err(e) => {
                return Err(e);
            }
        }
        match self.check_natives(module) {
            Ok(()) => {}
            Err(e) => {
                return Err(e);
            }
        }
        let mut visited = IdSet::new();
        visited.insert(module.self_id().duplicate());
        let mut friends_discovered = IdSet::new();
        let mut fi: usize = 0;
        while fi < module.friends.len()
            invariant
                0 <= fi <= module.friends@.len(),
            decreases module.friends@.len() - fi,
        {
            friends_discovered.insert(module.friends[fi].duplicate());
            fi = fi + 1;
        }
        let ghost pre1 = *self;
        match self.load_and_verify_dependencies(
            module,
            bundle_verified,
            verified_count,
            data_store,
            oracle,
            &mut visited,
            &mut friends_discovered,
            true,
            LOAD_BUDGET,
        ) {
            Ok(()) => {}
            Err(e) => {
                return Err(e);
            }
        }
        let ghost pre2 = *self;
        match self.load_and_verify_friends(
            friends_discovered,
            bundle_verified,
            verified_count,
            bundle_unverified,
            data_store,
            oracle,
            true,
            LOAD_BUDGET,
        ) {
            Ok(()) => {
                proof {
                    lemma_grows_transitive(*old(self), pre2, *self);
                }
            }
            Err(e) => {
                return Err(e);
            }
        }
        self.verify_module_cyclic_relations(
            module,
            bundle_verified,
            verified_count,
            bundle_unverified,
            oracle,
        )
    }

    /// The externally visible tag of a runtime type: primitives map one to
    /// one, a vector wraps its element's tag, and a struct's tag carries its
    /// declaring module's address and name, its own name, and its type
    /// arguments' tags.  Fails exactly when the type has no tag: a
    /// reference, a type parameter, or a dangling struct index.
    pub fn type_to_type_tag(&mut self, ty: &Type) -> (r: Result<TypeTag, VmError>)
        requires
            old(self).wf(),
        ensures
            final(self).wf(),
            final(self).module_cache == old(self).module_cache,
            final(self).scripts == old(self).scripts,
            final(self).natives == old(self).natives,
            r is Ok <==> crate::type_cache::taggable(old(self).module_cache.structs@, ty@),
            r matches Ok(t) ==> crate::type_cache::tag_rel(
                old(self).module_cache.structs@,
                ty@,
                t@,
            ),
            r matches Err(e) ==> e.status == StatusCode::UnknownInvariantViolation && e.location
                is Undefined,
    {
        match type_to_type_tag_impl(&self.module_cache, &mut self.type_cache, ty) {
            Ok(t) => Ok(t),
            Err(e) => Err(VmError::undefined(e)),
        }
    }

    /// The serialization layout of a runtime type: any layout produced is
    /// the type's layout; a type whose memo-free computation succeeds within
    /// the depth bound is owed success; every layout produced for a struct
    /// instantiation is memoized, and a memoized request is served.
    pub fn type_to_type_layout(&mut self, ty: &Type) -> (r: Result<TypeLayout, VmError>)
        requires
            old(self).wf(),
        ensures
            final(self).wf(),
            final(self).module_cache == old(self).module_cache,
            final(self).scripts == old(self).scripts,
            final(self).natives == old(self).natives,
            r matches Ok(l) ==> crate::type_cache::layout_rel(
                final(self).module_cache.structs@,
                ty@,
                l@,
            ),
            r matches Err(e) ==> (e.status == StatusCode::VmMaxValueDepthReached || e.status
                == StatusCode::UnknownInvariantViolation) && e.location is Undefined,
            crate::type_cache::pure_layout(old(self).module_cache.structs@, ty@, 1) matches
                crate::type_cache::LRes::Found(lv) ==> (r matches Ok(l) && l@ == lv),
            crate::type_cache::layout_hits(old(self).type_cache.entries@, ty@, 1) ==> r is Ok,
            r is Ok ==> crate::type_cache::layout_hits(final(self).type_cache.entries@, ty@, 1),
            forall|g2: int, a2: Seq<TypeV>|
                crate::type_cache::tc_has_layout(old(self).type_cache.entries@, g2, a2)
                    ==> #[trigger] crate::type_cache::tc_has_layout(
                    final(self).type_cache.entries@,
                    g2,
                    a2,
                ),
    {
        match type_to_type_layout_impl(&self.module_cache, &mut self.type_cache, ty, 1) {
            Ok(l) => Ok(l),
            Err(e) => Err(VmError::undefined(e)),
        }
    }

    /// Loads the type a tag names and returns its serialization layout.
    pub fn get_type_layout(
        &mut self,
        tag: &TypeTag,
        data_store: &impl DataStore,
        oracle: &impl FormatOracle,
    ) -> (r: Result<TypeLayout, VmError>)
        requires
            old(self).wf(),
        ensures
            final(self).wf(),
            old(self).grows_to(*final(self)),
            r matches Ok(l) ==> exists|t: TypeV|
                #[trigger] tag_loaded_rel(final(self).module_cache.modules, *tag, t)
                    && crate::type_cache::layout_rel(final(self).module_cache.structs@, t, l@),
    {
        let ty = match self.load_type(tag, data_store, oracle) {
            Ok(ty) => ty,
            Err(e) => {
                return Err(e);
            }
        };
        let ghost mid = *self;
        let r = self.type_to_type_layout(&ty);
        proof {
            lemma_grows_transitive(*old(self), mid, *self);
            if r is Ok {
                assert(tag_loaded_rel(self.module_cache.modules, *tag, ty@));
            }
        }
        r
    }

    /// The cached module with identity `id`.
    pub fn get_module(&self, id: &ModuleId) -> (r: Option<&Module>)
        requires
            self.wf(),
        ensures
            r is Some <==> self.module_cache.modules.spec_contains_key(id@),
    {
        match self.module_cache.module_at(id) {
            Some(idx) => Some(self.module_cache.module_value_at(idx)),
            None => None,
        }
    }

    /// The cached script with the given hash.
    pub fn get_script(&self, hash: &Vec<u8>) -> (r: Option<&crate::script::Script>)
        requires
            self.wf(),
        ensures
            r is Some <==> self.scripts.scripts.spec_contains_key(hash@),
    {
        match self.scripts.get(hash) {
            Some(idx) => Some(self.scripts.script_at(idx)),
            None => None,
        }
    }
}

/// Owned copies of a list of ability sets.
#[verifier::loop_isolation(false)]
fn clone_ability_sets(sets: &Vec<AbilitySet>) -> (r: Vec<AbilitySet>)
    ensures
        r@ == sets@,
{
    let mut out: Vec<AbilitySet> = Vec::new();
    let mut i: usize = 0;
    while i < sets.len()
        invariant
            0 <= i <= sets@.len(),
            out@ == sets@.subrange(0, i as int),
        decreases sets@.len() - i,
    {
        out.push(sets[i]);
        assert(out@ =~= sets@.subrange(0, (i + 1) as int));
        i = i + 1;
    }
    proof {
        assert(out@ =~= sets@);
    }
    out
}

/// Owned copies of a list of module identities.
#[verifier::loop_isolation(false)]
fn clone_ids(ids: &Vec<ModuleId>) -> (r: Vec<ModuleId>)
    ensures
        r@.len() == ids@.len(),
        forall|i: int| 0 <= i < ids@.len() ==> (#[trigger] r@[i])@ == ids@[i]@,
{
    let mut out: Vec<ModuleId> = Vec::new();
    let mut i: usize = 0;
    while i < ids.len()
        invariant
            0 <= i <= ids@.len(),
            out@.len() == i,
            forall|j: int| 0 <= j < i ==> (#[trigger] out@[j])@ == ids@[j]@,
        decreases ids@.len() - i,
    {
        out.push(ids[i].duplicate());
        i = i + 1;
    }
    out
}

/// Loader growth composes.
pub proof fn lemma_grows_transitive(a: Loader, b: Loader, c: Loader)
    requires
        a.grows_to(b),
        b.grows_to(c),
    ensures
        a.grows_to(c),
{
}

} // verus!
