//! The runtime form of a script: its side tables, its synthetic `main`
//! function, and the hash-keyed cache of verified scripts.

use vstd::prelude::*;

use crate::cache::BinaryCache;
use crate::code::ScriptCode;
use crate::errors::{StatusCode, VmError};
use crate::function::{Function, Scope};
use crate::ids::clone_bytes;
use crate::module::{spec_resolve_function_in, FunctionInstRt};
use crate::module_cache::{spec_resolve_struct_in, spec_translatable, spec_translated, ModuleCache};
use crate::runtime_types::{duplicate_types, Type};

verus! {

broadcast use vstd::std_specs::vec::group_vec_axioms;

/// Whether a signature index is named by a vector instruction of the
/// script's body.
pub open spec fn script_sig_used(code: ScriptCode, si: int) -> bool {
    exists|k: int|
        0 <= k < code.code.code@.len() && (#[trigger] code.code.code@[k]).spec_vec_sig() == Some(
            si as usize,
        )
}

/// Every name a script's side tables need can be resolved through the
/// cache, and every signature a vector instruction names has its single
/// token.
pub open spec fn script_buildable(
    modules: crate::cache::BinaryCache<crate::ids::ModuleId, crate::module::Module>,
    code: ScriptCode,
) -> bool {
    &&& forall|h: int|
        0 <= h < code.struct_handles@.len() ==> spec_resolve_struct_in(
            modules,
            code.module_handles@[(#[trigger] code.struct_handles@[h]).module as int]@,
            code.struct_handles@[h].name@,
        ) is Some
    &&& forall|h: int|
        0 <= h < code.function_handles@.len() ==> spec_resolve_function_in(
            modules,
            code.module_handles@[(#[trigger] code.function_handles@[h]).module as int]@,
            code.function_handles@[h].name@,
        ) is Some
    &&& forall|si: int|
        0 <= si < code.signatures@.len() && script_sig_used(code, si) ==> (
        #[trigger] code.signatures@[si])@.len() >= 1
}

/// A loaded script: its deserialized form, its side tables, and its entry
/// point.
#[derive(Debug)]
pub struct Script {
    /// The deserialized script.
    pub code: ScriptCode,
    /// The SHA3-256 hash of the raw script bytes: the script's identity.
    pub hash: Vec<u8>,
    /// For each struct handle, the global index of the struct it names.
    pub struct_refs: Vec<usize>,
    /// For each function handle, the global index of the function it names.
    pub function_refs: Vec<usize>,
    /// For each function instantiation, its runtime record.
    pub function_instantiations: Vec<FunctionInstRt>,
    /// The synthetic entry point.  A script returns nothing, so its
    /// `return_` field points back at the parameter signature and is never
    /// read; `return_tys` below is the authoritative (empty) return list.
    pub main: Function,
    /// The translated parameter types of the entry point.
    pub parameter_tys: Vec<Type>,
    /// The translated return types of the entry point: always empty.
    pub return_tys: Vec<Type>,
    /// For each signature index used by a vector instruction, the
    /// pre-translated type of the single token of that signature.
    pub single_signature_token_map: Vec<Option<Type>>,
}

impl Script {
    /// The side tables are parallel to the script's tables and every global
    /// index lies inside the global tables.
    pub open spec fn wf(self, n_structs: int, n_functions: int) -> bool {
        &&& self.code.wf()
        &&& self.struct_refs@.len() == self.code.struct_handles@.len()
        &&& forall|i: int|
            0 <= i < self.struct_refs@.len() ==> (#[trigger] self.struct_refs@[i]) < n_structs
        &&& self.function_refs@.len() == self.code.function_handles@.len()
        &&& forall|i: int|
            0 <= i < self.function_refs@.len() ==> (#[trigger] self.function_refs@[i])
                < n_functions
        &&& self.function_instantiations@.len() == self.code.function_instantiations@.len()
        &&& forall|i: int|
            0 <= i < self.function_instantiations@.len()
                ==> (#[trigger] self.function_instantiations@[i]).handle < n_functions
        &&& self.single_signature_token_map@.len() == self.code.signatures@.len()
        &&& self.main.scope is Script
    }

    /// Builds the runtime form of a verified script against the cache: every
    /// struct and function handle must name a cached module's declaration.
    #[verifier::loop_isolation(false)]
    #[verifier::rlimit(100)]
    #[verifier::spinoff_prover]
    pub fn new(cache: &ModuleCache, code: ScriptCode, hash: Vec<u8>) -> (r: Result<Script, VmError>)
        requires
            cache.wf(),
            code.wf(),
        ensures
            r is Ok <==> script_buildable(cache.modules, code),
            r matches Ok(s) ==> {
                &&& s.code == code
                &&& s.hash@ == hash@
                &&& s.wf(cache.structs@.len() as int, cache.functions@.len() as int)
                &&& forall|h: int|
                    0 <= h < s.struct_refs@.len() ==> Some(#[trigger] s.struct_refs@[h])
                        == spec_resolve_struct_in(
                        cache.modules,
                        code.module_handles@[code.struct_handles@[h].module as int]@,
                        code.struct_handles@[h].name@,
                    )
                &&& forall|h: int|
                    0 <= h < s.function_refs@.len() ==> Some(#[trigger] s.function_refs@[h])
                        == spec_resolve_function_in(
                        cache.modules,
                        code.module_handles@[code.function_handles@[h].module as int]@,
                        code.function_handles@[h].name@,
                    )
                &&& forall|k: int|
                    0 <= k < s.function_instantiations@.len() ==> {
                        let fi = #[trigger] code.function_instantiations@[k];
                        let inst = s.function_instantiations@[k];
                        &&& inst.handle == s.function_refs@[fi.handle as int]
                        &&& inst.instantiation@.len() == code.signatures@[
                            fi.type_parameters as int
                        ]@.len()
                        &&& forall|j: int|
                            0 <= j < inst.instantiation@.len() ==> spec_translated(
                                cache.modules,
                                cache.skeys(),
                                code.struct_handles@,
                                code.module_handles@,
                                None,
                                code.signatures@[fi.type_parameters as int]@[j],
                                (#[trigger] inst.instantiation@[j])@,
                            )
                    }
                &&& (s.main.scope matches Scope::Script(h) && h@ == hash@)
                &&& s.main.name@ == seq![109u8, 97u8, 105u8, 110u8]
                &&& s.main.index == 0
                &&& s.main.parameters == code.parameters
                &&& s.main.arg_count == code.signatures@[code.parameters as int]@.len()
                &&& s.main.local_count == code.signatures@[code.parameters as int]@.len()
                    + code.signatures@[code.code.locals as int]@.len()
                &&& s.main.type_parameters@ == code.type_parameters@
                &&& s.main.native is None
                &&& s.main.return_ == code.parameters
                &&& s.main.file_format_version == code.version
                &&& s.parameter_tys@.len() == code.signatures@[code.parameters as int]@.len()
                &&& forall|j: int|
                    0 <= j < s.parameter_tys@.len() ==> spec_translated(
                        cache.modules,
                        cache.skeys(),
                        code.struct_handles@,
                        code.module_handles@,
                        None,
                        code.signatures@[code.parameters as int]@[j],
                        (#[trigger] s.parameter_tys@[j])@,
                    )
                &&& s.return_tys@.len() == 0
                &&& forall|si: int|
                    0 <= si < s.single_signature_token_map@.len() ==> {
                        &&& ((#[trigger] s.single_signature_token_map@[si]) is Some
                            <==> script_sig_used(code, si))
                        &&& (s.single_signature_token_map@[si] matches Some(t)
                            ==> code.signatures@[si]@.len() >= 1 && spec_translated(
                            cache.modules,
                            cache.skeys(),
                            code.struct_handles@,
                            code.module_handles@,
                            None,
                            code.signatures@[si]@[0],
                            t@,
                        ))
                    }
            },
            r matches Err(e) ==> (e.status == StatusCode::TypeResolutionFailure || e.status
                == StatusCode::FunctionResolutionFailure || e.status
                == StatusCode::VerifierInvariantViolation),
    {
        let ghost skeys = cache.skeys();
        let ghost shs = code.struct_handles@;
        let ghost mids = code.module_handles@;

        let mut struct_refs: Vec<usize> = Vec::new();
        let mut h: usize = 0;
        while h < code.struct_handles.len()
            invariant
                0 <= h <= shs.len(),
                struct_refs@.len() == h,
                forall|i: int|
                    0 <= i < h ==> Some(#[trigger] struct_refs@[i]) == spec_resolve_struct_in(
                        cache.modules,
                        mids[shs[i].module as int]@,
                        shs[i].name@,
                    ),
                forall|i: int| 0 <= i < h ==> #[trigger] struct_refs@[i] < cache.structs@.len(),
            decreases shs.len() - h,
        {
            let sh = &code.struct_handles[h];
            match cache.resolve_struct_by_name(&sh.name, &code.module_handles[sh.module]) {
                Ok(g) => {
                    struct_refs.push(g);
                }
                Err(e) => {
                    proof {
                        assert(spec_resolve_struct_in(
                            cache.modules,
                            mids[code.struct_handles@[h as int].module as int]@,
                            code.struct_handles@[h as int].name@,
                        ) is None);
                        assert(!script_buildable(cache.modules, code));
                    }
                    return Err(VmError::in_script(e));
                }
            }
            h = h + 1;
        }
        proof {
            assert forall|h2: int| 0 <= h2 < shs.len() implies
                crate::module_cache::spec_resolve_handle(
                cache.modules,
                skeys,
                #[trigger] shs[h2],
                mids,
                None,
            ) is Some by {
                assert(Some(struct_refs@[h2]) == spec_resolve_struct_in(
                    cache.modules,
                    mids[shs[h2].module as int]@,
                    shs[h2].name@,
                ));
            }
        }

        let mut function_refs: Vec<usize> = Vec::new();
        let mut h: usize = 0;
        while h < code.function_handles.len()
            invariant
                0 <= h <= code.function_handles@.len(),
                function_refs@.len() == h,
                forall|i: int|
                    0 <= i < h ==> Some(#[trigger] function_refs@[i]) == spec_resolve_function_in(
                        cache.modules,
                        mids[code.function_handles@[i].module as int]@,
                        code.function_handles@[i].name@,
                    ),
                forall|i: int|
                    0 <= i < h ==> #[trigger] function_refs@[i] < cache.functions@.len(),
            decreases code.function_handles@.len() - h,
        {
            let fh = &code.function_handles[h];
            match cache.resolve_function_by_name(&fh.name, &code.module_handles[fh.module]) {
                Ok(g) => {
                    function_refs.push(g);
                }
                Err(e) => {
                    proof {
                        assert(spec_resolve_function_in(
                            cache.modules,
                            mids[code.function_handles@[h as int].module as int]@,
                            code.function_handles@[h as int].name@,
                        ) is None);
                        assert(!script_buildable(cache.modules, code));
                    }
                    return Err(VmError::undefined(e));
                }
            }
            h = h + 1;
        }

        let mut function_instantiations: Vec<FunctionInstRt> = Vec::new();
        let mut k: usize = 0;
        while k < code.function_instantiations.len()
            invariant
                0 <= k <= code.function_instantiations@.len(),
                function_instantiations@.len() == k,
                function_refs@.len() == code.function_handles@.len(),
                forall|i: int|
                    0 <= i < function_refs@.len() ==> #[trigger] function_refs@[i]
                        < cache.functions@.len(),
                forall|i: int|
                    0 <= i < k ==> {
                        let fi = #[trigger] code.function_instantiations@[i];
                        let inst = function_instantiations@[i];
                        &&& inst.handle == function_refs@[fi.handle as int]
                        &&& inst.handle < cache.functions@.len()
                        &&& inst.instantiation@.len() == code.signatures@[
                            fi.type_parameters as int
                        ]@.len()
                        &&& forall|j: int|
                            0 <= j < inst.instantiation@.len() ==> spec_translated(
                                cache.modules,
                                skeys,
                                shs,
                                mids,
                                None,
                                code.signatures@[fi.type_parameters as int]@[j],
                                (#[trigger] inst.instantiation@[j])@,
                            )
                    },
            decreases code.function_instantiations@.len() - k,
        {
            let fi = &code.function_instantiations[k];
            let handle = function_refs[fi.handle];
            let instantiation = match translate_script_signature(cache, &code, fi.type_parameters)
            {
                Ok(tys) => tys,
                Err(_) => {
                    proof {
                        let sigv = code.signatures@[fi.type_parameters as int]@;
                        let j0 = choose|j0: int|
                            0 <= j0 < sigv.len() && !spec_translatable(
                                cache.modules,
                                cache.skeys(),
                                shs,
                                mids,
                                None,
                                #[trigger] sigv[j0],
                            );
                        crate::module::lemma_translatable_from_handles(
                            cache.modules,
                            skeys,
                            shs,
                            mids,
                            None,
                            sigv[j0],
                        );
                    }
                    return unreached();
                }
            };
            let ghost instv = instantiation@;
            function_instantiations.push(FunctionInstRt { handle, instantiation });
            proof {
                assert(function_instantiations@[k as int].instantiation@ == instv);
            }
            k = k + 1;
        }

        let parameter_tys = match translate_script_signature(cache, &code, code.parameters) {
            Ok(tys) => tys,
            Err(_) => {
                proof {
                    let sigv = code.signatures@[code.parameters as int]@;
                    let j0 = choose|j0: int|
                        0 <= j0 < sigv.len() && !spec_translatable(
                            cache.modules,
                            cache.skeys(),
                            shs,
                            mids,
                            None,
                            #[trigger] sigv[j0],
                        );
                    crate::module::lemma_translatable_from_handles(
                        cache.modules,
                        skeys,
                        shs,
                        mids,
                        None,
                        sigv[j0],
                    );
                }
                return unreached();
            }
        };
        let return_tys: Vec<Type> = Vec::new();

        let mut main_name: Vec<u8> = Vec::new();
        main_name.push(109u8);
        main_name.push(97u8);
        main_name.push(105u8);
        main_name.push(110u8);
        proof {
            assert(main_name@ =~= seq![109u8, 97u8, 105u8, 110u8]);
        }
        let arg_count = code.signatures[code.parameters].len();
        let local_count = arg_count + code.signatures[code.code.locals].len();
        let mut main_tps: Vec<crate::abilities::AbilitySet> = Vec::new();
        let mut i: usize = 0;
        while i < code.type_parameters.len()
            invariant
                0 <= i <= code.type_parameters@.len(),
                main_tps@ == code.type_parameters@.subrange(0, i as int),
            decreases code.type_parameters@.len() - i,
        {
            main_tps.push(code.type_parameters[i]);
            assert(main_tps@ =~= code.type_parameters@.subrange(0, (i + 1) as int));
            i = i + 1;
        }
        proof {
            assert(main_tps@ =~= code.type_parameters@);
        }
        let main = Function {
            file_format_version: code.version,
            index: 0,
            scope: Scope::Script(clone_bytes(&hash)),
            name: main_name,
            parameters: code.parameters,
            return_: code.parameters,
            arg_count,
            local_count,
            type_parameters: main_tps,
            native: None,
        };

        let mut singles: Vec<Option<Type>> = Vec::new();
        let mut si: usize = 0;
        while si < code.signatures.len()
            invariant
                0 <= si <= code.signatures@.len(),
                singles@.len() == si,
                forall|i2: int| 0 <= i2 < si ==> (#[trigger] singles@[i2]) is None,
            decreases code.signatures@.len() - si,
        {
            singles.push(None);
            si = si + 1;
        }
        let ghost n_sig = code.signatures@.len() as int;
        let mut kk: usize = 0;
        while kk < code.code.code.len()
            invariant
                0 <= kk <= code.code.code@.len(),
                singles@.len() == n_sig,
                forall|s2: int|
                    0 <= s2 < n_sig ==> ((#[trigger] singles@[s2]) is Some <==> exists|j: int|
                        0 <= j < kk && (#[trigger] code.code.code@[j]).spec_vec_sig() == Some(
                            s2 as usize,
                        )),
                forall|s2: int|
                    0 <= s2 < n_sig ==> ((#[trigger] singles@[s2]) matches Some(t)
                        ==> code.signatures@[s2]@.len() >= 1 && spec_translated(
                        cache.modules,
                        skeys,
                        shs,
                        mids,
                        None,
                        code.signatures@[s2]@[0],
                        t@,
                    )),
            decreases code.code.code@.len() - kk,
        {
            match code.code.code[kk].vec_sig() {
                Some(s0) => {
                    let need = match &singles[s0] {
                        Some(_) => false,
                        None => true,
                    };
                    if need {
                        if code.signatures[s0].len() == 0 {
                            proof {
                                assert(code.code.code@[kk as int].spec_vec_sig() == Some(s0));
                                assert(script_sig_used(code, s0 as int));
                                assert(!script_buildable(cache.modules, code));
                            }
                            return Err(VmError::in_script(StatusCode::VerifierInvariantViolation));
                        }
                        match cache.make_type(
                            &code.struct_handles,
                            &code.module_handles,
                            &code.signatures[s0][0],
                        ) {
                            Ok(t) => {
                                singles[s0] = Some(t);
                            }
                            Err(_) => {
                                proof {
                                    crate::module::lemma_translatable_from_handles(
                                        cache.modules,
                                        skeys,
                                        shs,
                                        mids,
                                        None,
                                        code.signatures@[s0 as int]@[0],
                                    );
                                }
                                return unreached();
                            }
                        }
                    }
                }
                None => {}
            }
            kk = kk + 1;
        }

        proof {
            assert forall|i2: int| 0 <= i2 < function_instantiations@.len() implies (
            #[trigger] function_instantiations@[i2]).handle < cache.functions@.len() by {
                let fi2 = code.function_instantiations@[i2];
                assert(function_instantiations@[i2].handle == function_refs@[fi2.handle as int]);
            }
            assert forall|h2: int|
                0 <= h2 < code.struct_handles@.len() implies spec_resolve_struct_in(
                cache.modules,
                code.module_handles@[(#[trigger] code.struct_handles@[h2]).module as int]@,
                code.struct_handles@[h2].name@,
            ) is Some by {
                assert(Some(struct_refs@[h2]) == spec_resolve_struct_in(
                    cache.modules,
                    mids[shs[h2].module as int]@,
                    shs[h2].name@,
                ));
            }
            assert forall|h2: int|
                0 <= h2 < code.function_handles@.len() implies spec_resolve_function_in(
                cache.modules,
                code.module_handles@[(#[trigger] code.function_handles@[h2]).module as int]@,
                code.function_handles@[h2].name@,
            ) is Some by {
                assert(Some(function_refs@[h2]) == spec_resolve_function_in(
                    cache.modules,
                    mids[code.function_handles@[h2].module as int]@,
                    code.function_handles@[h2].name@,
                ));
            }
            assert forall|si2: int|
                0 <= si2 < code.signatures@.len() && script_sig_used(code, si2) implies (
            #[trigger] code.signatures@[si2])@.len() >= 1 by {
                assert(singles@[si2] is Some);
            }
            assert(script_buildable(cache.modules, code));
        }
        Ok(
            Script {
                code,
                hash,
                struct_refs,
                function_refs,
                function_instantiations,
                main,
                parameter_tys,
                return_tys,
                single_signature_token_map: singles,
            },
        )
    }

    /// The entry point.
    pub fn entry_point(&self) -> (r: &Function)
        ensures
            *r == self.main,
    {
        &self.main
    }

    /// The global function index of a function handle.
    pub fn function_at(&self, idx: usize) -> (r: usize)
        requires
            idx < self.function_refs@.len(),
        ensures
            r == self.function_refs@[idx as int],
    {
        self.function_refs[idx]
    }

    /// The function instantiation at an index.
    pub fn function_instantiation_at(&self, idx: usize) -> (r: &FunctionInstRt)
        requires
            idx < self.function_instantiations@.len(),
        ensures
            *r == self.function_instantiations@[idx as int],
    {
        &self.function_instantiations[idx]
    }

    /// The pre-translated type of the single token of a signature used by a
    /// vector instruction.
    pub fn single_type_at(&self, idx: usize) -> (r: &Type)
        requires
            idx < self.single_signature_token_map@.len(),
            self.single_signature_token_map@[idx as int] is Some,
        ensures
            Some(*r) == self.single_signature_token_map@[idx as int],
    {
        match &self.single_signature_token_map[idx] {
            Some(t) => t,
            None => unreached(),
        }
    }
}

/// Translates every token of one signature of a script.  Fails exactly when
/// some token does not translate.
#[verifier::loop_isolation(false)]
fn translate_script_signature(cache: &ModuleCache, code: &ScriptCode, sig_idx: usize) -> (r: Result<
    Vec<Type>,
    StatusCode,
>)
    requires
        cache.wf(),
        code.wf(),
        sig_idx < code.signatures@.len(),
    ensures
        r is Ok <==> forall|j: int|
            0 <= j < code.signatures@[sig_idx as int]@.len() ==> spec_translatable(
                cache.modules,
                cache.skeys(),
                code.struct_handles@,
                code.module_handles@,
                None,
                #[trigger] code.signatures@[sig_idx as int]@[j],
            ),
        r matches Ok(tys) ==> tys@.len() == code.signatures@[sig_idx as int]@.len() && forall|
            j: int,
        |
            0 <= j < tys@.len() ==> spec_translated(
                cache.modules,
                cache.skeys(),
                code.struct_handles@,
                code.module_handles@,
                None,
                code.signatures@[sig_idx as int]@[j],
                (#[trigger] tys@[j])@,
            ),
        r matches Err(e) ==> e == StatusCode::TypeResolutionFailure,
{
    let sig = &code.signatures[sig_idx];
    let mut out: Vec<Type> = Vec::new();
    let mut j: usize = 0;
    while j < sig.len()
        invariant
            0 <= j <= sig@.len(),
            out@.len() == j,
            forall|jj: int|
                0 <= jj < j ==> spec_translated(
                    cache.modules,
                    cache.skeys(),
                    code.struct_handles@,
                    code.module_handles@,
                    None,
                    sig@[jj],
                    (#[trigger] out@[jj])@,
                ),
            forall|jj: int|
                0 <= jj < j ==> spec_translatable(
                    cache.modules,
                    cache.skeys(),
                    code.struct_handles@,
                    code.module_handles@,
                    None,
                    #[trigger] sig@[jj],
                ),
        decreases sig@.len() - j,
    {
        match cache.make_type(&code.struct_handles, &code.module_handles, &sig[j]) {
            Ok(t) => {
                out.push(t);
            }
            Err(e) => {
                return Err(e);
            }
        }
        j = j + 1;
    }
    Ok(out)
}

/// The hash-keyed cache of verified scripts.
pub struct ScriptCache {
    pub scripts: BinaryCache<Vec<u8>, Script>,
}

impl ScriptCache {
    /// The cache's invariant.
    pub open spec fn wf(self) -> bool {
        self.scripts.wf()
    }

    /// An empty cache.
    pub fn new() -> (r: ScriptCache)
        ensures
            r.wf(),
            r.scripts.binaries@.len() == 0,
    {
        ScriptCache { scripts: BinaryCache::new() }
    }

    /// The index of the cached script with the given hash, if any.
    pub fn get(&self, hash: &Vec<u8>) -> (r: Option<usize>)
        requires
            self.wf(),
        ensures
            r is Some <==> self.scripts.spec_contains_key(hash@),
            r matches Some(i) ==> i == self.scripts.spec_index_of(hash@) && i
                < self.scripts.binaries@.len(),
    {
        self.scripts.index_of(hash)
    }

    /// The cached script at a permanent index.
    pub fn script_at(&self, idx: usize) -> (r: &Script)
        requires
            self.wf(),
            idx < self.scripts.binaries@.len(),
        ensures
            *r == self.scripts.binaries@[idx as int],
    {
        self.scripts.value_at(idx)
    }

    /// Inserts a verified script under its hash; a script already cached
    /// under that hash stays and its index is returned.
    pub fn insert(&mut self, hash: Vec<u8>, script: Script) -> (idx: usize)
        requires
            old(self).wf(),
        ensures
            final(self).wf(),
            old(self).scripts.spec_contains_key(hash@) ==> (*final(self) == *old(self) && idx
                == old(self).scripts.spec_index_of(hash@)),
            !old(self).scripts.spec_contains_key(hash@) ==> (final(self).scripts.keys@ == old(
                self,
            ).scripts.keys@.push(hash) && final(self).scripts.binaries@ == old(
                self,
            ).scripts.binaries@.push(script) && idx == old(self).scripts.binaries@.len()),
            final(self).scripts.spec_contains_key(hash@),
            idx == final(self).scripts.spec_index_of(hash@),
            idx < final(self).scripts.binaries@.len(),
    {
        match self.scripts.index_of(&hash) {
            Some(i) => i,
            None => self.scripts.insert(hash, script),
        }
    }
}

} // verus!
