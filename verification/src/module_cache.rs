//! The global code cache: the tables of modules, struct types and functions,
//! with name resolution and the translation of signature tokens into runtime
//! types.
//!
//! Struct and function records are appended under publication and never move
//! afterwards, so their indices are permanent.

use vstd::prelude::*;

use crate::abilities::AbilitySet;
use crate::cache::BinaryCache;
use crate::code::{tokens_wf, ModuleCode, SignatureToken, StructFieldInformation, StructTypeParameter};
use crate::errors::StatusCode;
use crate::function::Function;
use crate::ids::{bytes_eq, clone_bytes, ModuleId, ModuleIdV};
use crate::runtime_types::{type_views, Type, TypeV};

verus! {

broadcast use vstd::std_specs::vec::group_vec_axioms;

/// A runtime struct type: one global record per module-declared struct.
/// `fields` is empty from the record's creation until the publishing pass
/// installs the translated field types.
#[derive(Debug)]
pub struct StructType {
    /// The translated field types.
    pub fields: Vec<Type>,
    /// The declared ability set.
    pub abilities: AbilitySet,
    /// The declared type parameters.
    pub type_parameters: Vec<StructTypeParameter>,
    /// The struct's name.
    pub name: Vec<u8>,
    /// The module that declares the struct.
    pub module: ModuleId,
    /// The struct definition index inside that module.
    pub struct_def: usize,
}

/// A lookup in a name-to-index table.
pub open spec fn spec_name_map_contains(m: Seq<(Vec<u8>, usize)>, name: Seq<u8>) -> bool {
    exists|i: int| 0 <= i < m.len() && (#[trigger] m[i]).0@ == name
}

/// The index bound to `name` in a name-to-index table.
pub open spec fn spec_name_map_get(m: Seq<(Vec<u8>, usize)>, name: Seq<u8>) -> usize {
    let i = choose|i: int| 0 <= i < m.len() && (#[trigger] m[i]).0@ == name;
    m[i].1
}

/// A name-to-index table has no repeated name.
pub open spec fn name_map_wf(m: Seq<(Vec<u8>, usize)>) -> bool {
    forall|i: int, j: int| 0 <= i < j < m.len() ==> (#[trigger] m[i]).0@ != (#[trigger] m[j]).0@
}

/// Looks `name` up in a name-to-index table.
#[verifier::loop_isolation(false)]
pub fn name_map_get(m: &Vec<(Vec<u8>, usize)>, name: &Vec<u8>) -> (r: Option<usize>)
    requires
        name_map_wf(m@),
    ensures
        r is Some <==> spec_name_map_contains(m@, name@),
        r matches Some(v) ==> v == spec_name_map_get(m@, name@),
    {
    let mut i: usize = 0;
    while i < m.len()
        invariant
            0 <= i <= m@.len(),
            forall|j: int| 0 <= j < i ==> (#[trigger] m@[j]).0@ != name@,
        decreases m@.len() - i,
    {
        if bytes_eq(&m[i].0, name) {
            proof {
                let k = choose|k: int| 0 <= k < m@.len() && (#[trigger] m@[k]).0@ == name@;
                assert(m@[k].0@ == m@[i as int].0@);
            }
            return Some(m[i].1);
        }
        i = i + 1;
    }
    None
}

/// The identity key of a struct record: its declaring module and its name.
pub type StructKey = (ModuleIdV, Seq<u8>);

/// The identity keys of a struct table, in order.
pub open spec fn struct_keys(structs: Seq<StructType>) -> Seq<StructKey> {
    Seq::new(structs.len(), |i: int| (structs[i].module@, structs[i].name@))
}

/// The result of the backward scan that resolves a struct of the module
/// being published: starting at `i` and walking down while the records still
/// belong to `module`, the first record named `name`.
pub open spec fn spec_scan(
    keys: Seq<StructKey>,
    module: ModuleIdV,
    name: Seq<u8>,
    i: int,
) -> Option<usize>
    decreases i + 1,
{
    if i < 0 || i >= keys.len() {
        None
    } else if keys[i].0 != module {
        None
    } else if keys[i].1 == name {
        Some(i as usize)
    } else {
        spec_scan(keys, module, name, i - 1)
    }
}

/// Every index a backward scan can return is inside the table.
pub proof fn lemma_scan_in_bounds(keys: Seq<StructKey>, module: ModuleIdV, name: Seq<u8>, i: int)
    ensures
        spec_scan(keys, module, name, i) matches Some(idx) ==> 0 <= idx < keys.len() && idx <= i,
    decreases i + 1,
{
    if 0 <= i < keys.len() && keys[i].0 == module && keys[i].1 != name {
        lemma_scan_in_bounds(keys, module, name, i - 1);
    }
}

/// The global code cache.
pub struct ModuleCache {
    /// The published modules, keyed by identity.
    pub modules: BinaryCache<ModuleId, crate::module::Module>,
    /// The global struct table.  Indices into it are permanent.
    pub structs: Vec<StructType>,
    /// The global function table.  Indices into it are permanent.
    pub functions: Vec<Function>,
}

impl ModuleCache {
    /// The cache's invariant: the key map is well formed, every key matches
    /// its module's identity, and every module's side tables point inside
    /// the global tables.
    pub open spec fn wf(self) -> bool {
        &&& self.modules.wf()
        &&& forall|i: int|
            0 <= i < self.modules.binaries@.len() ==> (#[trigger] self.modules.binaries@[i]).wf(
                self.structs@.len() as int,
                self.functions@.len() as int,
            )
        &&& forall|i: int|
            0 <= i < self.modules.binaries@.len() ==> (#[trigger] self.modules.binaries@[i]).id@
                == self.modules.keys@[i]@
        &&& forall|i: int|
            0 <= i < self.structs@.len() ==> (#[trigger] self.structs@[i]).fields@.len() <= 0xFFFF
        &&& forall|i: int, k: int|
            0 <= i < self.modules.binaries@.len() && 0 <= k < self.modules.binaries@[
                i
            ].struct_map@.len() ==> {
                let e = #[trigger] self.modules.binaries@[i].struct_map@[k];
                &&& e.1 < self.structs@.len()
                &&& self.structs@[e.1 as int].name@ == e.0@
                &&& self.structs@[e.1 as int].module@ == self.modules.binaries@[i].id@
            }
        &&& forall|i: int, k: int|
            0 <= i < self.modules.binaries@.len() && 0 <= k < self.modules.binaries@[
                i
            ].function_map@.len() ==> {
                let e = #[trigger] self.modules.binaries@[i].function_map@[k];
                &&& e.1 < self.functions@.len()
                &&& self.functions@[e.1 as int].name@ == e.0@
                &&& (self.functions@[e.1 as int].scope matches crate::function::Scope::Module(mid)
                    && mid@ == self.modules.binaries@[i].id@)
            }
    }

    /// An empty cache.
    pub fn new() -> (r: ModuleCache)
        ensures
            r.wf(),
            r.modules.binaries@.len() == 0,
            r.structs@.len() == 0,
            r.functions@.len() == 0,
    {
        ModuleCache { modules: BinaryCache::new(), structs: Vec::new(), functions: Vec::new() }
    }

    /// The index of the cached module with identity `id`, if any.
    pub fn module_at(&self, id: &ModuleId) -> (r: Option<usize>)
        requires
            self.wf(),
        ensures
            r is Some <==> self.modules.spec_contains_key(id@),
            r matches Some(i) ==> i == self.modules.spec_index_of(id@) && i
                < self.modules.binaries@.len(),
    {
        self.modules.index_of(id)
    }

    /// The cached module at a permanent index.
    pub fn module_value_at(&self, idx: usize) -> (r: &crate::module::Module)
        requires
            self.wf(),
            idx < self.modules.binaries@.len(),
        ensures
            *r == self.modules.binaries@[idx as int],
    {
        self.modules.value_at(idx)
    }

    /// The function at a permanent index.
    pub fn function_at(&self, idx: usize) -> (r: &Function)
        requires
            idx < self.functions@.len(),
        ensures
            *r == self.functions@[idx as int],
    {
        &self.functions[idx]
    }

    /// The struct type at a permanent index.
    pub fn struct_at(&self, idx: usize) -> (r: &StructType)
        requires
            idx < self.structs@.len(),
        ensures
            *r == self.structs@[idx as int],
    {
        &self.structs[idx]
    }

    /// Whether the cache holds a module with identity `id`.
    pub fn has_module(&self, id: &ModuleId) -> (r: bool)
        requires
            self.wf(),
        ensures
            r <==> self.modules.spec_contains_key(id@),
    {
        match self.modules.index_of(id) {
            Some(_) => true,
            None => false,
        }
    }

    /// The identity keys of the global struct table.
    pub open spec fn skeys(self) -> Seq<StructKey> {
        struct_keys(self.structs@)
    }

    /// Whether a cached module declares a struct named `name`, and at which
    /// global index.
    pub open spec fn spec_resolve_struct(self, module: ModuleIdV, name: Seq<u8>) -> Option<usize> {
        spec_resolve_struct_in(self.modules, module, name)
    }

    /// Whether a cached module declares a function named `name`, and at
    /// which global index.
    pub open spec fn spec_resolve_function(self, module: ModuleIdV, name: Seq<u8>) -> Option<
        usize,
    > {
        if self.modules.spec_contains_key(module) {
            let m = self.modules.spec_value_of(module);
            if spec_name_map_contains(m.function_map@, name) {
                Some(spec_name_map_get(m.function_map@, name))
            } else {
                None
            }
        } else {
            None
        }
    }

    /// Resolves a struct by name through the cache: the struct's global
    /// index.  Fails when the module is not cached or declares no struct of
    /// that name.
    pub fn resolve_struct_by_name(&self, name: &Vec<u8>, module_id: &ModuleId) -> (r: Result<
        usize,
        StatusCode,
    >)
        requires
            self.wf(),
        ensures
            self.spec_resolve_struct(module_id@, name@) matches Some(idx) ==> r == Ok::<
                usize,
                StatusCode,
            >(idx),
            self.spec_resolve_struct(module_id@, name@) is None ==> r == Err::<usize, StatusCode>(
                StatusCode::TypeResolutionFailure,
            ),
            r matches Ok(idx) ==> idx < self.structs@.len() && self.structs@[idx as int].name@
                == name@ && self.structs@[idx as int].module@ == module_id@,
    {
        match self.modules.index_of(module_id) {
            Some(midx) => {
                let m = self.modules.value_at(midx);
                match name_map_get(&m.struct_map, name) {
                    Some(idx) => Ok(idx),
                    None => Err(StatusCode::TypeResolutionFailure),
                }
            }
            None => Err(StatusCode::TypeResolutionFailure),
        }
    }

    /// Resolves a function by name through the cache: the function's global
    /// index.  Fails when the module is not cached or declares no function
    /// of that name.
    pub fn resolve_function_by_name(&self, name: &Vec<u8>, module_id: &ModuleId) -> (r: Result<
        usize,
        StatusCode,
    >)
        requires
            self.wf(),
        ensures
            self.spec_resolve_function(module_id@, name@) matches Some(idx) ==> r == Ok::<
                usize,
                StatusCode,
            >(idx),
            self.spec_resolve_function(module_id@, name@) is None ==> r == Err::<
                usize,
                StatusCode,
            >(StatusCode::FunctionResolutionFailure),
            r matches Ok(idx) ==> idx < self.functions@.len() && self.functions@[idx as int].name@
                == name@ && (self.functions@[idx as int].scope matches
                crate::function::Scope::Module(mid) && mid@ == module_id@),
    {
        match self.modules.index_of(module_id) {
            Some(midx) => {
                let m = self.modules.value_at(midx);
                match name_map_get(&m.function_map, name) {
                    Some(idx) => Ok(idx),
                    None => Err(StatusCode::FunctionResolutionFailure),
                }
            }
            None => Err(StatusCode::FunctionResolutionFailure),
        }
    }

    /// The backward scan over the global struct table that resolves a
    /// struct of the module being published, before that module is in the
    /// cache: the newest record of that module with the given name.
    #[verifier::loop_isolation(false)]
    pub fn find_struct_while_loading(&self, module_id: &ModuleId, name: &Vec<u8>) -> (r: Option<
        usize,
    >)
        ensures
            r == spec_scan(self.skeys(), module_id@, name@, self.skeys().len() - 1),
            r matches Some(idx) ==> idx < self.structs@.len(),
    {
        let mut i: usize = self.structs.len();
        while i > 0
            invariant
                0 <= i <= self.structs@.len(),
                spec_scan(self.skeys(), module_id@, name@, self.skeys().len() - 1) == spec_scan(
                    self.skeys(),
                    module_id@,
                    name@,
                    i - 1,
                ),
            decreases i,
        {
            i = i - 1;
            if !self.structs[i].module.id_eq(module_id) {
                return None;
            }
            if bytes_eq(&self.structs[i].name, name) {
                return Some(i);
            }
        }
        None
    }

    /// Resolves one struct handle during translation: a handle naming the
    /// module being published is found by the backward scan, every other
    /// handle through the cache.
    pub fn resolve_handle(
        &self,
        sh: &crate::code::StructHandle,
        mids: &Vec<ModuleId>,
        self_id: Option<&ModuleId>,
    ) -> (r: Result<usize, StatusCode>)
        requires
            self.wf(),
            sh.module < mids@.len(),
        ensures
            r matches Ok(g) ==> spec_resolve_handle(
                self.modules,
                self.skeys(),
                *sh,
                mids@,
                opt_id_view(self_id),
            ) == Some(g) && g < self.structs@.len(),
            r is Err <==> spec_resolve_handle(
                self.modules,
                self.skeys(),
                *sh,
                mids@,
                opt_id_view(self_id),
            ) is None,
            r matches Err(e) ==> e == StatusCode::TypeResolutionFailure,
    {
        let mid = &mids[sh.module];
        let use_scan = match self_id {
            Some(sid) => mid.id_eq(sid),
            None => false,
        };
        if use_scan {
            match self.find_struct_while_loading(mid, &sh.name) {
                Some(idx) => {
                    proof {
                        lemma_scan_in_bounds(
                            self.skeys(),
                            mid@,
                            sh.name@,
                            self.skeys().len() - 1,
                        );
                    }
                    Ok(idx)
                }
                None => Err(StatusCode::TypeResolutionFailure),
            }
        } else {
            match self.resolve_struct_by_name(&sh.name, mid) {
                Ok(idx) => Ok(idx),
                Err(e) => Err(e),
            }
        }
    }

    /// Translates a signature token into a runtime type.  A handle naming
    /// the module under publication (`self_id`) is resolved by the backward
    /// scan; every other handle must already be in the cache.  Fails exactly
    /// when some struct handle of the token does not resolve.
    #[verifier::loop_isolation(false)]
    pub fn make_type_internal(
        &self,
        shs: &Vec<crate::code::StructHandle>,
        mids: &Vec<ModuleId>,
        self_id: Option<&ModuleId>,
        tok: &SignatureToken,
    ) -> (r: Result<Type, StatusCode>)
        requires
            self.wf(),
            tok.wf(shs@.len() as int),
            forall|i: int| 0 <= i < shs@.len() ==> (#[trigger] shs@[i]).module < mids@.len(),
        ensures
            r is Ok <==> spec_translatable(
                self.modules,
                self.skeys(),
                shs@,
                mids@,
                opt_id_view(self_id),
                *tok,
            ),
            r matches Ok(t) ==> spec_translated(
                self.modules,
                self.skeys(),
                shs@,
                mids@,
                opt_id_view(self_id),
                *tok,
                t@,
            ),
            r matches Ok(t) ==> type_wf_indices(t@, self.structs@.len() as int),
            r matches Err(e) ==> e == StatusCode::TypeResolutionFailure,
        decreases *tok,
    {
        match tok {
            SignatureToken::Bool => Ok(Type::Bool),
            SignatureToken::U8 => Ok(Type::U8),
            SignatureToken::U64 => Ok(Type::U64),
            SignatureToken::U128 => Ok(Type::U128),
            SignatureToken::Address => Ok(Type::Address),
            SignatureToken::Signer => Ok(Type::Signer),
            SignatureToken::TypeParameter(i) => Ok(Type::TyParam(*i)),
            SignatureToken::Vector(t) => match self.make_type_internal(shs, mids, self_id, t) {
                Ok(inner) => Ok(Type::Vector(Box::new(inner))),
                Err(e) => Err(e),
            },
            SignatureToken::Reference(t) => match self.make_type_internal(shs, mids, self_id, t) {
                Ok(inner) => Ok(Type::Reference(Box::new(inner))),
                Err(e) => Err(e),
            },
            SignatureToken::MutableReference(t) => match self.make_type_internal(
                shs,
                mids,
                self_id,
                t,
            ) {
                Ok(inner) => Ok(Type::MutableReference(Box::new(inner))),
                Err(e) => Err(e),
            },
            SignatureToken::Struct(h) => match self.resolve_handle(&shs[*h], mids, self_id) {
                Ok(g) => Ok(Type::Struct(g)),
                Err(e) => Err(e),
            },
            SignatureToken::StructInstantiation(h, ts) => {
                let g = match self.resolve_handle(&shs[*h], mids, self_id) {
                    Ok(g) => g,
                    Err(e) => {
                        return Err(e);
                    }
                };
                let mut out: Vec<Type> = Vec::new();
                let mut i: usize = 0;
                while i < ts.len()
                    invariant
                        0 <= i <= ts@.len(),
                        out@.len() == i,
                        forall|j: int|
                            0 <= j < i ==> spec_translatable(
                                self.modules,
                                self.skeys(),
                                shs@,
                                mids@,
                                opt_id_view(self_id),
                                #[trigger] ts@[j],
                            ),
                        forall|j: int|
                            0 <= j < i ==> spec_translated(
                                self.modules,
                                self.skeys(),
                                shs@,
                                mids@,
                                opt_id_view(self_id),
                                ts@[j],
                                (#[trigger] out@[j])@,
                            ),
                        forall|j: int|
                            0 <= j < i ==> type_wf_indices(
                                (#[trigger] out@[j])@,
                                self.structs@.len() as int,
                            ),
                    decreases ts@.len() - i,
                {
                    match self.make_type_internal(shs, mids, self_id, &ts[i]) {
                        Ok(t) => {
                            out.push(t);
                        }
                        Err(e) => {
                            return Err(e);
                        }
                    }
                    i = i + 1;
                }
                proof {
                    crate::runtime_types::lemma_type_views(out@);
                }
                Ok(Type::StructInstantiation(g, out))
            }
        }
    }

    /// Translates a signature token against the cache alone: every struct
    /// handle must name a cached module.
    pub fn make_type(
        &self,
        shs: &Vec<crate::code::StructHandle>,
        mids: &Vec<ModuleId>,
        tok: &SignatureToken,
    ) -> (r: Result<Type, StatusCode>)
        requires
            self.wf(),
            tok.wf(shs@.len() as int),
            forall|i: int| 0 <= i < shs@.len() ==> (#[trigger] shs@[i]).module < mids@.len(),
        ensures
            r is Ok <==> spec_translatable(self.modules, self.skeys(), shs@, mids@, None, *tok),
            r matches Ok(t) ==> spec_translated(
                self.modules,
                self.skeys(),
                shs@,
                mids@,
                None,
                *tok,
                t@,
            ),
            r matches Ok(t) ==> type_wf_indices(t@, self.structs@.len() as int),
            r matches Err(e) ==> e == StatusCode::TypeResolutionFailure,
    {
        self.make_type_internal(shs, mids, None, tok)
    }

    /// Translates a signature token of the module being published: handles
    /// naming that module itself are resolved by the backward scan over the
    /// just-appended tail of the struct table.
    pub fn make_type_while_loading(&self, module: &ModuleCode, tok: &SignatureToken) -> (r: Result<
        Type,
        StatusCode,
    >)
        requires
            self.wf(),
            module.wf(),
            tok.wf(module.struct_handles@.len() as int),
        ensures
            r is Ok <==> spec_translatable(
                self.modules,
                self.skeys(),
                module.struct_handles@,
                module.module_handles@,
                Some(module.spec_self_id()),
                *tok,
            ),
            r matches Ok(t) ==> spec_translated(
                self.modules,
                self.skeys(),
                module.struct_handles@,
                module.module_handles@,
                Some(module.spec_self_id()),
                *tok,
                t@,
            ),
            r matches Ok(t) ==> type_wf_indices(t@, self.structs@.len() as int),
            r matches Err(e) ==> e == StatusCode::TypeResolutionFailure,
    {
        let self_id = self.find_self_id(module);
        self.make_type_internal(
            &module.struct_handles,
            &module.module_handles,
            Some(self_id),
            tok,
        )
    }

    /// The module's own identity handle.
    fn find_self_id<'a>(&self, module: &'a ModuleCode) -> (r: &'a ModuleId)
        requires
            module.wf(),
        ensures
            r@ == module.spec_self_id(),
    {
        module.self_id()
    }

    /// Builds the global record of one struct declaration, with empty
    /// fields: the fields are installed by the publishing pass once every
    /// struct record of the module has been appended.
    pub fn make_struct_type(&self, module: &ModuleCode, def_idx: usize) -> (r: StructType)
        requires
            module.wf(),
            def_idx < module.struct_defs@.len(),
        ensures
            struct_record_matches(r, *module, def_idx as int),
            r.fields@.len() == 0,
    {
        let def = &module.struct_defs[def_idx];
        let handle = &module.struct_handles[def.struct_handle];
        let name = clone_bytes(&handle.name);
        let mut type_parameters: Vec<StructTypeParameter> = Vec::new();
        let mut i: usize = 0;
        while i < handle.type_parameters.len()
            invariant
                0 <= i <= handle.type_parameters@.len(),
                type_parameters@ == handle.type_parameters@.subrange(0, i as int),
            decreases handle.type_parameters@.len() - i,
        {
            type_parameters.push(handle.type_parameters[i]);
            assert(type_parameters@ =~= handle.type_parameters@.subrange(0, i + 1 as int));
            i = i + 1;
        }
        proof {
            assert(type_parameters@ =~= handle.type_parameters@);
        }
        StructType {
            fields: Vec::new(),
            abilities: handle.abilities,
            type_parameters,
            name,
            module: module.self_id().duplicate(),
            struct_def: def_idx,
        }
    }

    /// Translates the declared field types of one struct of the module
    /// being published.  Fails exactly when some field type does not
    /// translate.
    #[verifier::loop_isolation(false)]
    fn translate_fields(&self, module: &ModuleCode, fs: &Vec<SignatureToken>) -> (r: Result<
        Vec<Type>,
        StatusCode,
    >)
        requires
            self.wf(),
            module.wf(),
            tokens_wf(fs@, module.struct_handles@.len() as int),
        ensures
            r is Ok <==> forall|j: int|
                0 <= j < fs@.len() ==> spec_translatable(
                    self.modules,
                    self.skeys(),
                    module.struct_handles@,
                    module.module_handles@,
                    Some(module.spec_self_id()),
                    #[trigger] fs@[j],
                ),
            r matches Ok(tys) ==> tys@.len() == fs@.len() && forall|j: int|
                0 <= j < fs@.len() ==> spec_translated(
                    self.modules,
                    self.skeys(),
                    module.struct_handles@,
                    module.module_handles@,
                    Some(module.spec_self_id()),
                    fs@[j],
                    (#[trigger] tys@[j])@,
                ),
            r matches Err(e) ==> e == StatusCode::TypeResolutionFailure,
    {
        let mut tys: Vec<Type> = Vec::new();
        let mut j: usize = 0;
        while j < fs.len()
            invariant
                0 <= j <= fs@.len(),
                tys@.len() == j,
                forall|jj: int|
                    0 <= jj < j ==> spec_translated(
                        self.modules,
                        self.skeys(),
                        module.struct_handles@,
                        module.module_handles@,
                        Some(module.spec_self_id()),
                        fs@[jj],
                        (#[trigger] tys@[jj])@,
                    ),
                forall|jj: int|
                    0 <= jj < j ==> spec_translatable(
                        self.modules,
                        self.skeys(),
                        module.struct_handles@,
                        module.module_handles@,
                        Some(module.spec_self_id()),
                        #[trigger] fs@[jj],
                    ),
            decreases fs@.len() - j,
        {
            match self.make_type_while_loading(module, &fs[j]) {
                Ok(t) => {
                    tys.push(t);
                }
                Err(e) => {
                    return Err(e);
                }
            }
            j = j + 1;
        }
        Ok(tys)
    }

    /// Appends the module's struct and function records to the global
    /// tables: first every struct record with empty fields, then the
    /// translated field types are installed, then the function records.  On
    /// a translation failure the struct table is truncated back: the cache
    /// is left exactly as it was.
    #[verifier::loop_isolation(false)]
    #[verifier::rlimit(100)]
    #[verifier::spinoff_prover]
    pub fn add_module(
        &mut self,
        natives: &crate::oracle::NativeFunctions,
        module: &ModuleCode,
    ) -> (r: Result<(), StatusCode>)
        requires
            old(self).wf(),
            module.wf(),
            no_native_structs(*module),
        ensures
            final(self).wf(),
            final(self).modules == old(self).modules,
            r is Err ==> final(self).structs@ == old(self).structs@ && final(self).functions@
                == old(self).functions@,
            r matches Err(e) ==> e == StatusCode::TypeResolutionFailure,
            r is Ok <==> fields_translatable(
                old(self).modules,
                old(self).skeys() + appended_struct_keys(*module),
                *module,
            ),
            r is Ok ==> final(self).structs@.len() == old(self).structs@.len()
                + module.struct_defs@.len(),
            r is Ok ==> old(self).structs@.is_prefix_of(final(self).structs@),
            r is Ok ==> final(self).skeys() == old(self).skeys() + appended_struct_keys(*module),
            r is Ok ==> forall|k: int|
                0 <= k < module.struct_defs@.len() ==> struct_record_matches(
                    #[trigger] final(self).structs@[old(self).structs@.len() + k],
                    *module,
                    k,
                ) && struct_fields_ok(
                    final(self).structs@[old(self).structs@.len() + k],
                    *module,
                    k,
                    old(self).modules,
                    final(self).skeys(),
                ),
            r is Ok ==> final(self).functions@.len() == old(self).functions@.len()
                + module.function_defs@.len(),
            r is Ok ==> old(self).functions@.is_prefix_of(final(self).functions@),
            r is Ok ==> forall|k: int|
                0 <= k < module.function_defs@.len() ==> function_record_ok(
                    #[trigger] final(self).functions@[old(self).functions@.len() + k],
                    *module,
                    k,
                    *natives,
                ),
    {
        let ghost old_self = *old(self);
        let ghost appended = appended_struct_keys(*module);
        let ghost midkeys = old(self).skeys() + appended;
        let starting = self.structs.len();
        let n_defs = module.struct_defs.len();

        let mut k: usize = 0;
        while k < n_defs
            invariant
                0 <= k <= module.struct_defs@.len(),
                self.modules == old_self.modules,
                self.functions == old_self.functions,
                self.structs@.len() == old_self.structs@.len() + k,
                old_self.structs@.is_prefix_of(self.structs@),
                starting == old_self.structs@.len(),
                n_defs == module.struct_defs@.len(),
                forall|i: int|
                    0 <= i < k ==> struct_record_matches(
                        #[trigger] self.structs@[starting + i],
                        *module,
                        i,
                    ) && self.structs@[starting + i].fields@.len() == 0,
                self.skeys() == old_self.skeys() + appended.subrange(0, k as int),
                self.wf(),
            decreases n_defs - k,
        {
            let st = self.make_struct_type(module, k);
            self.structs.push(st);
            proof {
                let rhs = old_self.skeys() + appended.subrange(0, (k + 1) as int);
                assert forall|i: int| 0 <= i < self.skeys().len() implies #[trigger] self.skeys()[i]
                    == rhs[i] by {
                    if i < starting {
                        assert(self.structs@[i] == old_self.structs@[i]);
                    } else {
                        let d = i - starting;
                        assert(struct_record_matches(self.structs@[starting + d], *module, d));
                        assert(appended[d] == (
                            module.spec_self_id(),
                            module.struct_handles@[module.struct_defs@[
                                d
                            ].struct_handle as int].name@,
                        ));
                    }
                }
                assert(self.skeys() =~= rhs);
            }
            k = k + 1;
        }
        proof {
            assert(self.skeys() =~= midkeys);
        }

        let mut field_types: Vec<Vec<Type>> = Vec::new();
        let mut k: usize = 0;
        while k < n_defs
            invariant
                0 <= k <= module.struct_defs@.len(),
                self.modules == old_self.modules,
                self.functions == old_self.functions,
                self.structs@.len() == old_self.structs@.len() + module.struct_defs@.len(),
                old_self.structs@.is_prefix_of(self.structs@),
                starting == old_self.structs@.len(),
                n_defs == module.struct_defs@.len(),
                forall|i: int|
                    0 <= i < module.struct_defs@.len() ==> struct_record_matches(
                        #[trigger] self.structs@[starting + i],
                        *module,
                        i,
                    ) && self.structs@[starting + i].fields@.len() == 0,
                self.skeys() == midkeys,
                self.wf(),
                field_types@.len() == k,
                forall|i: int|
                    0 <= i < k ==> (module.struct_defs@[i].field_information matches
                        StructFieldInformation::Declared(fs) && (#[trigger] field_types@[i])@.len()
                        == fs@.len()),
                forall|i: int, j: int|
                    0 <= i < k && 0 <= j < field_types@[i]@.len() ==> spec_translated(
                        old_self.modules,
                        midkeys,
                        module.struct_handles@,
                        module.module_handles@,
                        Some(module.spec_self_id()),
                        module.struct_defs@[i].field_information->Declared_0@[j],
                        (#[trigger] field_types@[i]@[j])@,
                    ),
                forall|i: int, j: int|
                    0 <= i < k && 0 <= j < field_types@[i]@.len() ==> spec_translatable(
                        old_self.modules,
                        midkeys,
                        module.struct_handles@,
                        module.module_handles@,
                        Some(module.spec_self_id()),
                        #[trigger] module.struct_defs@[i].field_information->Declared_0@[j],
                    ),
            decreases n_defs - k,
        {
            let fs = match &module.struct_defs[k].field_information {
                StructFieldInformation::Declared(fs) => fs,
                StructFieldInformation::Native => unreached(),
            };
            match self.translate_fields(module, fs) {
                Ok(tys) => {
                    field_types.push(tys);
                }
                Err(_) => {
                    proof {
                        let j0 = choose|j0: int|
                            0 <= j0 < fs@.len() && !spec_translatable(
                                self.modules,
                                self.skeys(),
                                module.struct_handles@,
                                module.module_handles@,
                                Some(module.spec_self_id()),
                                #[trigger] fs@[j0],
                            );
                        assert(!fields_translatable(old_self.modules, midkeys, *module));
                    }
                    self.structs.truncate(starting);
                    proof {
                        assert(self.structs@ =~= old_self.structs@);
                        assert(self.wf());
                    }
                    return Err(StatusCode::TypeResolutionFailure);
                }
            }
            k = k + 1;
        }

        let mut k: usize = n_defs;
        while k > 0
            invariant
                0 <= k <= module.struct_defs@.len(),
                self.modules == old_self.modules,
                self.functions == old_self.functions,
                self.structs@.len() == old_self.structs@.len() + module.struct_defs@.len(),
                old_self.structs@.is_prefix_of(self.structs@),
                starting == old_self.structs@.len(),
                n_defs == module.struct_defs@.len(),
                field_types@.len() == k,
                forall|i: int|
                    0 <= i < k ==> (module.struct_defs@[i].field_information matches
                        StructFieldInformation::Declared(fs) && (#[trigger] field_types@[i])@.len()
                        == fs@.len()),
                forall|i: int, j: int|
                    0 <= i < k && 0 <= j < field_types@[i]@.len() ==> spec_translated(
                        old_self.modules,
                        midkeys,
                        module.struct_handles@,
                        module.module_handles@,
                        Some(module.spec_self_id()),
                        module.struct_defs@[i].field_information->Declared_0@[j],
                        (#[trigger] field_types@[i]@[j])@,
                    ),
                forall|i: int|
                    0 <= i < k ==> struct_record_matches(
                        #[trigger] self.structs@[starting + i],
                        *module,
                        i,
                    ) && self.structs@[starting + i].fields@.len() == 0,
                forall|i: int|
                    k <= i < module.struct_defs@.len() ==> struct_record_matches(
                        #[trigger] self.structs@[starting + i],
                        *module,
                        i,
                    ) && struct_fields_ok(
                        self.structs@[starting + i],
                        *module,
                        i,
                        old_self.modules,
                        midkeys,
                    ),
                self.skeys() == midkeys,
                self.wf(),
            decreases k,
        {
            k = k - 1;
            let tys = match field_types.pop() {
                Some(tys) => tys,
                None => unreached(),
            };
            let total = self.structs.len();
            let ghost pre = *self;
            self.structs[starting + k].fields = tys;
            proof {
                assert(self.skeys() =~= pre.skeys());
                assert(struct_record_matches(self.structs@[starting + k], *module, k as int));
                assert(struct_fields_ok(
                    self.structs@[starting + k],
                    *module,
                    k as int,
                    old_self.modules,
                    midkeys,
                ));
                assert(self.wf());
            }
        }

        let ghost funcs_before = self.functions@;
        let mut k: usize = 0;
        let n_fdefs = module.function_defs.len();
        while k < n_fdefs
            invariant
                0 <= k <= module.function_defs@.len(),
                self.modules == old_self.modules,
                self.structs@.len() == old_self.structs@.len() + module.struct_defs@.len(),
                old_self.structs@.is_prefix_of(self.structs@),
                forall|i: int|
                    0 <= i < module.struct_defs@.len() ==> struct_record_matches(
                        #[trigger] self.structs@[starting + i],
                        *module,
                        i,
                    ) && struct_fields_ok(
                        self.structs@[starting + i],
                        *module,
                        i,
                        old_self.modules,
                        midkeys,
                    ),
                starting == old_self.structs@.len(),
                n_fdefs == module.function_defs@.len(),
                self.skeys() == midkeys,
                self.functions@.len() == old_self.functions@.len() + k,
                old_self.functions@.is_prefix_of(self.functions@),
                funcs_before == old_self.functions@,
                forall|i: int|
                    0 <= i < k ==> function_record_ok(
                        #[trigger] self.functions@[old_self.functions@.len() + i],
                        *module,
                        i,
                        *natives,
                    ),
                self.wf(),
            decreases n_fdefs - k,
        {
            let f = Function::new(natives, k, &module.function_defs[k], module);
            self.functions.push(f);
            proof {
                assert(self.wf());
            }
            k = k + 1;
        }
        Ok(())
    }

    /// Publishes a module: appends its struct and function records, builds
    /// its side tables, and installs it into the cache, all or nothing.
    ///
    /// Publication is idempotent: a module already in the cache is returned
    /// as it is and the cache does not change.  On failure the cache is left
    /// exactly as it was.  On success every global table only grows: indices
    /// issued earlier keep their entries forever.
    #[verifier::loop_isolation(false)]
    #[verifier::rlimit(100)]
    #[verifier::spinoff_prover]
    pub fn insert(
        &mut self,
        natives: &crate::oracle::NativeFunctions,
        id: ModuleId,
        module: ModuleCode,
    ) -> (r: Result<usize, crate::errors::VmError>)
        requires
            old(self).wf(),
            module.wf(),
            no_native_structs(module),
            id@ == module.spec_self_id(),
        ensures
            final(self).wf(),
            old(self).modules.spec_contains_key(id@) ==> (r matches Ok(idx) && idx == old(self).modules.spec_index_of(id@) && *final(self) == *old(self)),
            r is Err ==> final(self).structs@ == old(self).structs@ && final(self).functions@
                == old(self).functions@ && final(self).modules == old(self).modules,
            r matches Err(e) ==> (e.status == StatusCode::TypeResolutionFailure || e.status
                == StatusCode::FunctionResolutionFailure || e.status
                == StatusCode::VerifierInvariantViolation) && e.location is Undefined,
            !old(self).modules.spec_contains_key(id@) ==> (r is Ok <==> (fields_translatable(
                old(self).modules,
                old(self).skeys() + appended_struct_keys(module),
                module,
            ) && crate::module::module_buildable(
                old(self).modules,
                old(self).skeys() + appended_struct_keys(module),
                crate::module::function_keys(old(self).functions@) + appended_function_keys(
                    module,
                ),
                module,
            ))),
            r is Ok ==> old(self).structs@.is_prefix_of(final(self).structs@) && old(self).functions@.is_prefix_of(final(self).functions@) && old(self).modules.binaries@.is_prefix_of(final(self).modules.binaries@),
            r is Ok ==> old(self).modules.keys@.is_prefix_of(final(self).modules.keys@),
            r matches Ok(idx) ==> final(self).modules.spec_contains_key(id@) && idx == final(self).modules.spec_index_of(id@) && idx < final(self).modules.binaries@.len(),
            (!old(self).modules.spec_contains_key(id@) && r is Ok) ==> {
                let m = final(self).modules.binaries@.last();
                &&& final(self).modules.binaries@.len() == old(self).modules.binaries@.len() + 1
                &&& m.code == module
                &&& m.id@ == id@
                &&& crate::module::module_tables_match(
                    m,
                    old(self).modules,
                    final(self).skeys(),
                    crate::module::function_keys(final(self).functions@),
                    final(self).structs@,
                )
                &&& final(self).structs@.len() == old(self).structs@.len()
                    + module.struct_defs@.len()
                &&& forall|k: int|
                    0 <= k < module.struct_defs@.len() ==> struct_record_matches(
                        #[trigger] final(self).structs@[old(self).structs@.len() + k],
                        module,
                        k,
                    ) && struct_fields_ok(
                        final(self).structs@[old(self).structs@.len() + k],
                        module,
                        k,
                        old(self).modules,
                        final(self).skeys(),
                    )
                &&& final(self).functions@.len() == old(self).functions@.len()
                    + module.function_defs@.len()
                &&& forall|k: int|
                    0 <= k < module.function_defs@.len() ==> function_record_ok(
                        #[trigger] final(self).functions@[old(self).functions@.len() + k],
                        module,
                        k,
                        *natives,
                    )
            },
    {
        match self.modules.index_of(&id) {
            Some(idx) => {
                return Ok(idx);
            }
            None => {}
        }
        let ghost old_self = *old(self);
        let n_sd = module.struct_defs.len();
        let n_fd = module.function_defs.len();
        match self.add_module(natives, &module) {
            Ok(()) => {}
            Err(e) => {
                return Err(crate::errors::VmError::undefined(e));
            }
        }
        proof {
            let midfkeys = crate::module::function_keys(old_self.functions@)
                + appended_function_keys(module);
            assert forall|i: int|
                0 <= i < crate::module::function_keys(self.functions@).len() implies #[trigger]
            crate::module::function_keys(self.functions@)[i] == midfkeys[i] by {
                if i < old_self.functions@.len() {
                    assert(self.functions@[i] == old_self.functions@[i]);
                } else {
                    let d = i - old_self.functions@.len();
                    assert(function_record_ok(
                        self.functions@[old_self.functions@.len() + d],
                        module,
                        d,
                        *natives,
                    ));
                }
            }
            assert(crate::module::function_keys(self.functions@) =~= midfkeys);
        }
        match crate::module::Module::new(self, module) {
            Ok(m) => {
                proof {
                    assert(self.modules.spec_contains_key(id@) == old_self.modules.spec_contains_key(
                        id@,
                    ));
                }
                let ghost mval = m;
                let n_structs_now = self.structs.len();
                let n_functions_now = self.functions.len();
                let idx = self.modules.insert(id, m);
                proof {
                    assert(self.skeys().len() == n_structs_now as int);
                    assert(crate::module::function_keys(self.functions@).len()
                        == n_functions_now as int);
                    let n = self.modules.binaries@.len();
                    assert forall|i: int|
                        0 <= i < n implies (#[trigger] self.modules.binaries@[i]).wf(
                        self.structs@.len() as int,
                        self.functions@.len() as int,
                    ) by {
                        if i < n - 1 {
                            assert(old_self.modules.binaries@[i].wf(
                                old_self.structs@.len() as int,
                                old_self.functions@.len() as int,
                            ));
                        }
                    }
                    assert forall|i: int, k: int|
                        0 <= i < n && 0 <= k < self.modules.binaries@[i].struct_map@.len() implies {
                        let e = #[trigger] self.modules.binaries@[i].struct_map@[k];
                        &&& e.1 < self.structs@.len()
                        &&& self.structs@[e.1 as int].name@ == e.0@
                        &&& self.structs@[e.1 as int].module@ == self.modules.binaries@[i].id@
                    } by {
                        if i < n - 1 {
                            assert(self.modules.binaries@[i] == old_self.modules.binaries@[i]);
                            let e = old_self.modules.binaries@[i].struct_map@[k];
                            assert(e.1 < old_self.structs@.len() && old_self.structs@[
                                e.1 as int
                            ].name@ == e.0@ && old_self.structs@[e.1 as int].module@
                                == old_self.modules.binaries@[i].id@);
                            assert(self.structs@[e.1 as int] == old_self.structs@[e.1 as int]);
                        } else {
                            assert(self.modules.binaries@[i] == mval);
                            assert(crate::module::struct_map_entry_ok(mval, k));
                            let d = choose|d: int|
                                {
                                    &&& 0 <= d < mval.structs@.len()
                                    &&& (#[trigger] mval.struct_map@[k]).0@ == mval.code.struct_handles@[(
                                    #[trigger] mval.code.struct_defs@[d]).struct_handle as int].name@
                                    &&& mval.struct_map@[k].1 == mval.structs@[d].idx
                                };
                            let h = mval.code.struct_defs@[d].struct_handle as int;
                            assert(Some(mval.struct_refs@[h]) == spec_resolve_handle(
                                old_self.modules,
                                self.skeys(),
                                mval.code.struct_handles@[h],
                                mval.code.module_handles@,
                                Some(mval.code.spec_self_id()),
                            ));
                            assert(mval.code.module_handles@[mval.code.struct_handles@[
                                h
                            ].module as int]@ == mval.code.spec_self_id());
                            lemma_scan_found(
                                self.skeys(),
                                mval.code.spec_self_id(),
                                mval.code.struct_handles@[h].name@,
                                self.skeys().len() - 1,
                            );
                            assert(mval.structs@[d].idx == mval.struct_refs@[h]);
                        }
                    }
                    assert forall|i: int, k: int|
                        0 <= i < n && 0 <= k < self.modules.binaries@[i].function_map@.len() implies {
                        let e = #[trigger] self.modules.binaries@[i].function_map@[k];
                        &&& e.1 < self.functions@.len()
                        &&& self.functions@[e.1 as int].name@ == e.0@
                        &&& (self.functions@[e.1 as int].scope matches
                            crate::function::Scope::Module(mid) && mid@ == self.modules.binaries@[
                            i
                        ].id@)
                    } by {
                        if i < n - 1 {
                            assert(self.modules.binaries@[i] == old_self.modules.binaries@[i]);
                            let e = old_self.modules.binaries@[i].function_map@[k];
                            assert(e.1 < old_self.functions@.len() && old_self.functions@[
                                e.1 as int
                            ].name@ == e.0@ && (old_self.functions@[e.1 as int].scope matches
                                crate::function::Scope::Module(mid) && mid@
                                == old_self.modules.binaries@[i].id@));
                            assert(self.functions@[e.1 as int] == old_self.functions@[e.1 as int]);
                        } else {
                            assert(self.modules.binaries@[i] == mval);
                            assert(crate::module::function_map_entry_ok(mval, k));
                            let d = choose|d: int|
                                {
                                    &&& 0 <= d < mval.code.function_defs@.len()
                                    &&& (#[trigger] mval.function_map@[k]).0@ == mval.code.function_handles@[(
                                    #[trigger] mval.code.function_defs@[d]).function as int].name@
                                    &&& mval.function_map@[k].1 == mval.function_refs@[mval.code.function_defs@[
                                        d
                                    ].function as int]
                                };
                            let h = mval.code.function_defs@[d].function as int;
                            assert(Some(mval.function_refs@[h]) == crate::module::spec_resolve_fhandle(
                                old_self.modules,
                                crate::module::function_keys(self.functions@),
                                mval.code.function_handles@[h],
                                mval.code.module_handles@,
                                mval.code.spec_self_id(),
                            ));
                            assert(mval.code.module_handles@[mval.code.function_handles@[
                                h
                            ].module as int]@ == mval.code.spec_self_id());
                            crate::module::lemma_fscan_found(
                                crate::module::function_keys(self.functions@),
                                mval.code.spec_self_id(),
                                mval.code.function_handles@[h].name@,
                                crate::module::function_keys(self.functions@).len() - 1,
                            );
                        }
                    }
                    assert(self.wf());
                }
                Ok(idx)
            }
            Err(e) => {
                self.structs.truncate(self.structs.len() - n_sd);
                self.functions.truncate(self.functions.len() - n_fd);
                proof {
                    assert(self.structs@ =~= old_self.structs@);
                    assert(self.functions@ =~= old_self.functions@);
                    assert(self.wf());
                }
                Err(crate::errors::VmError::undefined(e))
            }
        }
    }
}

/// Whether the cache of published modules binds a struct named `name` in
/// module `module`, and to which global index.
pub open spec fn spec_resolve_struct_in(
    modules: BinaryCache<ModuleId, crate::module::Module>,
    module: ModuleIdV,
    name: Seq<u8>,
) -> Option<usize> {
    if modules.spec_contains_key(module) {
        let m = modules.spec_value_of(module);
        if spec_name_map_contains(m.struct_map@, name) {
            Some(spec_name_map_get(m.struct_map@, name))
        } else {
            None
        }
    } else {
        None
    }
}

/// The view of an optional module identity.
pub open spec fn opt_id_view(o: Option<&ModuleId>) -> Option<ModuleIdV> {
    match o {
        Some(m) => Some(m@),
        None => None,
    }
}

/// How one struct handle resolves during translation: against the module
/// under publication (`self_id`) by the backward scan, against everything
/// else through the cache.
pub open spec fn spec_resolve_handle(
    modules: BinaryCache<ModuleId, crate::module::Module>,
    skeys: Seq<StructKey>,
    sh: crate::code::StructHandle,
    mids: Seq<ModuleId>,
    self_id: Option<ModuleIdV>,
) -> Option<usize> {
    let midv = mids[sh.module as int]@;
    if self_id matches Some(sid) && midv == sid {
        spec_scan(skeys, midv, sh.name@, skeys.len() - 1)
    } else {
        spec_resolve_struct_in(modules, midv, sh.name@)
    }
}

/// Whether every struct handle named in the token resolves.
pub open spec fn spec_translatable(
    modules: BinaryCache<ModuleId, crate::module::Module>,
    skeys: Seq<StructKey>,
    shs: Seq<crate::code::StructHandle>,
    mids: Seq<ModuleId>,
    self_id: Option<ModuleIdV>,
    tok: SignatureToken,
) -> bool
    decreases tok,
{
    match tok {
        SignatureToken::Vector(t) => spec_translatable(modules, skeys, shs, mids, self_id, *t),
        SignatureToken::Reference(t) => spec_translatable(modules, skeys, shs, mids, self_id, *t),
        SignatureToken::MutableReference(t) => spec_translatable(
            modules,
            skeys,
            shs,
            mids,
            self_id,
            *t,
        ),
        SignatureToken::Struct(h) => spec_resolve_handle(
            modules,
            skeys,
            shs[h as int],
            mids,
            self_id,
        ) is Some,
        SignatureToken::StructInstantiation(h, ts) => spec_resolve_handle(
            modules,
            skeys,
            shs[h as int],
            mids,
            self_id,
        ) is Some && forall|i: int|
            0 <= i < ts@.len() ==> spec_translatable(
                modules,
                skeys,
                shs,
                mids,
                self_id,
                #[trigger] ts@[i],
            ),
        _ => true,
    }
}

/// The translation of a signature token into a runtime type, as a relation:
/// primitives map one to one, a type parameter keeps its number, and a
/// struct handle becomes the global index it resolves to.
pub open spec fn spec_translated(
    modules: BinaryCache<ModuleId, crate::module::Module>,
    skeys: Seq<StructKey>,
    shs: Seq<crate::code::StructHandle>,
    mids: Seq<ModuleId>,
    self_id: Option<ModuleIdV>,
    tok: SignatureToken,
    r: TypeV,
) -> bool
    decreases tok,
{
    match tok {
        SignatureToken::Bool => r == TypeV::Bool,
        SignatureToken::U8 => r == TypeV::U8,
        SignatureToken::U64 => r == TypeV::U64,
        SignatureToken::U128 => r == TypeV::U128,
        SignatureToken::Address => r == TypeV::Address,
        SignatureToken::Signer => r == TypeV::Signer,
        SignatureToken::TypeParameter(i) => r == TypeV::TyParam(i as int),
        SignatureToken::Vector(t) => r matches TypeV::Vector(rt) && spec_translated(
            modules,
            skeys,
            shs,
            mids,
            self_id,
            *t,
            *rt,
        ),
        SignatureToken::Reference(t) => r matches TypeV::Reference(rt) && spec_translated(
            modules,
            skeys,
            shs,
            mids,
            self_id,
            *t,
            *rt,
        ),
        SignatureToken::MutableReference(t) => r matches TypeV::MutableReference(rt)
            && spec_translated(modules, skeys, shs, mids, self_id, *t, *rt),
        SignatureToken::Struct(h) => r matches TypeV::Struct(g) && spec_resolve_handle(
            modules,
            skeys,
            shs[h as int],
            mids,
            self_id,
        ) matches Some(gu) && g == gu as int,
        SignatureToken::StructInstantiation(h, ts) => r matches TypeV::StructInstantiation(g, rs)
            && (spec_resolve_handle(modules, skeys, shs[h as int], mids, self_id) matches Some(gu)
            && g == gu as int) && rs.len() == ts@.len() && forall|i: int|
            0 <= i < ts@.len() ==> spec_translated(
                modules,
                skeys,
                shs,
                mids,
                self_id,
                #[trigger] ts@[i],
                rs[i],
            ),
    }
}

/// Every struct index named in the type lies below `n`.
pub open spec fn type_wf_indices(t: TypeV, n: int) -> bool
    decreases t,
{
    match t {
        TypeV::Vector(inner) => type_wf_indices(*inner, n),
        TypeV::Reference(inner) => type_wf_indices(*inner, n),
        TypeV::MutableReference(inner) => type_wf_indices(*inner, n),
        TypeV::Struct(g) => 0 <= g < n,
        TypeV::StructInstantiation(g, ts) => 0 <= g < n && forall|i: int|
            0 <= i < ts.len() ==> type_wf_indices(#[trigger] ts[i], n),
        _ => true,
    }
}

/// The global struct record of one struct declaration carries the declaring
/// module's identity, and the name, abilities and type parameters of the
/// declaration.
pub open spec fn struct_record_matches(st: StructType, module: ModuleCode, k: int) -> bool {
    let d = module.struct_defs@[k];
    let h = module.struct_handles@[d.struct_handle as int];
    &&& st.module@ == module.spec_self_id()
    &&& st.name@ == h.name@
    &&& st.abilities == h.abilities
    &&& st.type_parameters@ == h.type_parameters@
    &&& st.struct_def == k
}

/// The identity keys the publishing pass appends to the struct table: one
/// per struct declaration, in order.
pub open spec fn appended_struct_keys(module: ModuleCode) -> Seq<StructKey> {
    Seq::new(
        module.struct_defs@.len(),
        |k: int|
            (
                module.spec_self_id(),
                module.struct_handles@[module.struct_defs@[k].struct_handle as int].name@,
            ),
    )
}

/// The identity keys the publishing pass appends to the function table: one
/// per function declaration, in order.
pub open spec fn appended_function_keys(module: ModuleCode) -> Seq<crate::module::FunctionKey> {
    Seq::new(
        module.function_defs@.len(),
        |k: int|
            (
                Some(module.spec_self_id()),
                module.function_handles@[module.function_defs@[k].function as int].name@,
            ),
    )
}

/// No struct of the module is declared native; the loader's own checking
/// pass rejects such modules before publication.
pub open spec fn no_native_structs(module: ModuleCode) -> bool {
    forall|k: int|
        0 <= k < module.struct_defs@.len() ==> (
        #[trigger] module.struct_defs@[k]).field_information is Declared
}

/// Every field type of every struct declaration translates, against the
/// given cache state.
pub open spec fn fields_translatable(
    modules: BinaryCache<ModuleId, crate::module::Module>,
    skeys: Seq<StructKey>,
    module: ModuleCode,
) -> bool {
    forall|k: int|
        0 <= k < module.struct_defs@.len() ==> match (
        #[trigger] module.struct_defs@[k]).field_information {
            StructFieldInformation::Native => true,
            StructFieldInformation::Declared(fs) => forall|j: int|
                0 <= j < fs@.len() ==> spec_translatable(
                    modules,
                    skeys,
                    module.struct_handles@,
                    module.module_handles@,
                    Some(module.spec_self_id()),
                    #[trigger] fs@[j],
                ),
        }
}

/// The fields installed into one global struct record are the translations
/// of the declared field types, against the given cache state.
pub open spec fn struct_fields_ok(
    st: StructType,
    module: ModuleCode,
    k: int,
    modules: BinaryCache<ModuleId, crate::module::Module>,
    skeys: Seq<StructKey>,
) -> bool {
    &&& module.struct_defs@[k].field_information is Declared
    &&& (module.struct_defs@[k].field_information matches StructFieldInformation::Declared(fs) ==> {
        &&& st.fields@.len() == fs@.len()
        &&& forall|j: int|
            0 <= j < fs@.len() ==> spec_translated(
                modules,
                skeys,
                module.struct_handles@,
                module.module_handles@,
                Some(module.spec_self_id()),
                fs@[j],
                (#[trigger] st.fields@[j])@,
            )
    })
}

/// A struct-key table small enough to index.
pub open spec fn keys_fit(keys: Seq<StructKey>) -> bool {
    keys.len() <= usize::MAX
}

/// What the backward scan finds carries exactly the module and name it was
/// looking for.
pub proof fn lemma_scan_found(keys: Seq<StructKey>, module: ModuleIdV, name: Seq<u8>, i: int)
    requires
        keys.len() <= usize::MAX,
    ensures
        spec_scan(keys, module, name, i) matches Some(idx) ==> 0 <= idx < keys.len()
            && keys[idx as int].0 == module && keys[idx as int].1 == name,
    decreases i + 1,
{
    if i < 0 || i >= keys.len() {
    } else if keys[i].0 != module {
    } else if keys[i].1 == name {
        assert(spec_scan(keys, module, name, i) == Some(i as usize));
    } else {
        lemma_scan_found(keys, module, name, i - 1);
    }
}

/// Self-reference resolution: a token that names a struct of the module
/// being published translates to the global index of a record carrying that
/// very module identity and struct name.
pub proof fn lemma_self_reference_resolution(
    modules: BinaryCache<ModuleId, crate::module::Module>,
    skeys: Seq<StructKey>,
    shs: Seq<crate::code::StructHandle>,
    mids: Seq<ModuleId>,
    self_id: ModuleIdV,
    h: usize,
    t: TypeV,
)
    requires
        keys_fit(skeys),
        h < shs.len(),
        mids[shs[h as int].module as int]@ == self_id,
        spec_translated(modules, skeys, shs, mids, Some(self_id), SignatureToken::Struct(h), t),
    ensures
        t matches TypeV::Struct(g) && 0 <= g < skeys.len() && skeys[g].0 == self_id && skeys[g].1
            == shs[h as int].name@,
{
    lemma_scan_found(skeys, self_id, shs[h as int].name@, skeys.len() - 1);
}

/// Stability of indices: after the global tables grow, every record already
/// issued is still found, unchanged, at its old index.
pub proof fn lemma_index_stability(pre: ModuleCache, post: ModuleCache)
    requires
        pre.structs@.is_prefix_of(post.structs@),
        pre.functions@.is_prefix_of(post.functions@),
    ensures
        forall|i: int| 0 <= i < pre.structs@.len() ==> #[trigger] post.structs@[i]
            == pre.structs@[i],
        forall|i: int| 0 <= i < pre.functions@.len() ==> #[trigger] post.functions@[i]
            == pre.functions@[i],
{
}

/// One appended global function record carries what the declaration says.
pub open spec fn function_record_ok(
    f: Function,
    module: ModuleCode,
    k: int,
    natives: crate::oracle::NativeFunctions,
) -> bool {
    let d = module.function_defs@[k];
    let h = module.function_handles@[d.function as int];
    &&& f.index == k
    &&& (f.scope matches crate::function::Scope::Module(mid) && mid@ == module.spec_self_id())
    &&& f.name@ == h.name@
    &&& f.parameters == h.parameters
    &&& f.return_ == h.return_
    &&& f.type_parameters@ == h.type_parameters@
    &&& f.arg_count == module.signatures@[h.parameters as int]@.len()
    &&& (d.is_native ==> (f.native is Some <==> natives.spec_resolve(
        module.spec_self_id(),
        h.name@,
    ) is Some))
    &&& (!d.is_native ==> f.native is None)
}

} // verus!
