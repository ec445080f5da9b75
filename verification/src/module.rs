//! The runtime form of a published module: side tables, parallel to the
//! binary's own tables, that resolve every bytecode index to a global cache
//! index, a field offset or a pre-translated type in constant time.

use vstd::prelude::*;

use crate::cache::BinaryCache;
use crate::code::{Bytecode, ModuleCode, StructFieldInformation};
use crate::errors::StatusCode;
use crate::function::{Function, Scope};
use crate::ids::{clone_bytes, ModuleId, ModuleIdV};
use crate::module_cache::{
    spec_name_map_contains, spec_resolve_handle, spec_translatable, spec_translated, ModuleCache,
    StructKey,
};
use crate::runtime_types::Type;

verus! {

broadcast use vstd::std_specs::vec::group_vec_axioms;

/// The identity key of a function record: its owning module (none for a
/// script entry point) and its name.
pub type FunctionKey = (Option<ModuleIdV>, Seq<u8>);

/// The identity keys of a function table, in order.
pub open spec fn function_keys(functions: Seq<Function>) -> Seq<FunctionKey> {
    Seq::new(
        functions.len(),
        |i: int|
            (
                match functions[i].scope {
                    Scope::Module(mid) => Some(mid@),
                    Scope::Script(_) => None,
                },
                functions[i].name@,
            ),
    )
}

/// The backward scan that resolves a function of the module being published:
/// starting at `i` and walking down while the records still belong to
/// `module`, the first record named `name`.
pub open spec fn spec_fscan(
    keys: Seq<FunctionKey>,
    module: ModuleIdV,
    name: Seq<u8>,
    i: int,
) -> Option<usize>
    decreases i + 1,
{
    if i < 0 || i >= keys.len() {
        None
    } else if keys[i].0 != Some(module) {
        None
    } else if keys[i].1 == name {
        Some(i as usize)
    } else {
        spec_fscan(keys, module, name, i - 1)
    }
}

/// Every index the function scan can return is inside the table.
pub proof fn lemma_fscan_in_bounds(keys: Seq<FunctionKey>, module: ModuleIdV, name: Seq<u8>, i: int)
    ensures
        spec_fscan(keys, module, name, i) matches Some(idx) ==> 0 <= idx < keys.len() && idx <= i,
    decreases i + 1,
{
    if 0 <= i < keys.len() && keys[i].0 == Some(module) && keys[i].1 != name {
        lemma_fscan_in_bounds(keys, module, name, i - 1);
    }
}

/// What the function scan finds carries exactly the module and name it was
/// looking for.
pub proof fn lemma_fscan_found(keys: Seq<FunctionKey>, module: ModuleIdV, name: Seq<u8>, i: int)
    requires
        keys.len() <= usize::MAX,
    ensures
        spec_fscan(keys, module, name, i) matches Some(idx) ==> 0 <= idx < keys.len()
            && keys[idx as int].0 == Some(module) && keys[idx as int].1 == name,
    decreases i + 1,
{
    if i < 0 || i >= keys.len() {
    } else if keys[i].0 != Some(module) {
    } else if keys[i].1 == name {
        assert(spec_fscan(keys, module, name, i) == Some(i as usize));
    } else {
        lemma_fscan_found(keys, module, name, i - 1);
    }
}

/// Whether the cache of published modules binds a function named `name` in
/// module `module`, and to which global index.
pub open spec fn spec_resolve_function_in(
    modules: BinaryCache<ModuleId, Module>,
    module: ModuleIdV,
    name: Seq<u8>,
) -> Option<usize> {
    if modules.spec_contains_key(module) {
        let m = modules.spec_value_of(module);
        if spec_name_map_contains(m.function_map@, name) {
            Some(crate::module_cache::spec_name_map_get(m.function_map@, name))
        } else {
            None
        }
    } else {
        None
    }
}

/// How one function handle resolves while the module is being published.
pub open spec fn spec_resolve_fhandle(
    modules: BinaryCache<ModuleId, Module>,
    fkeys: Seq<FunctionKey>,
    fh: crate::code::FunctionHandle,
    mids: Seq<ModuleId>,
    self_id: ModuleIdV,
) -> Option<usize> {
    let midv = mids[fh.module as int]@;
    if midv == self_id {
        spec_fscan(fkeys, midv, fh.name@, fkeys.len() - 1)
    } else {
        spec_resolve_function_in(modules, midv, fh.name@)
    }
}

/// Whether a signature index is named by a vector instruction among the
/// first `fb` function definitions.
pub open spec fn sig_used_upto(code: ModuleCode, si: int, fb: int) -> bool {
    exists|f: int, k: int|
        {
            &&& 0 <= f < fb
            &&& (#[trigger] code.function_defs@[f]).code is Some
            &&& 0 <= k < code.function_defs@[f].code->Some_0.code@.len()
            &&& (#[trigger] code.function_defs@[f].code->Some_0.code@[k]).spec_vec_sig() == Some(
                si as usize,
            )
        }
}

/// Whether a signature index is named by some vector instruction of the
/// module's bytecode.
pub open spec fn sig_used_by_vec_op(code: ModuleCode, si: int) -> bool {
    sig_used_upto(code, si, code.function_defs@.len() as int)
}

/// A token whose struct handles all resolve is translatable.
pub proof fn lemma_translatable_from_handles(
    modules: BinaryCache<ModuleId, Module>,
    skeys: Seq<StructKey>,
    shs: Seq<crate::code::StructHandle>,
    mids: Seq<ModuleId>,
    self_id: Option<ModuleIdV>,
    tok: crate::code::SignatureToken,
)
    requires
        tok.wf(shs.len() as int),
        forall|h: int|
            0 <= h < shs.len() ==> spec_resolve_handle(
                modules,
                skeys,
                #[trigger] shs[h],
                mids,
                self_id,
            ) is Some,
    ensures
        spec_translatable(modules, skeys, shs, mids, self_id, tok),
    decreases tok,
{
    match tok {
        crate::code::SignatureToken::Vector(t) => {
            lemma_translatable_from_handles(modules, skeys, shs, mids, self_id, *t);
        }
        crate::code::SignatureToken::Reference(t) => {
            lemma_translatable_from_handles(modules, skeys, shs, mids, self_id, *t);
        }
        crate::code::SignatureToken::MutableReference(t) => {
            lemma_translatable_from_handles(modules, skeys, shs, mids, self_id, *t);
        }
        crate::code::SignatureToken::StructInstantiation(h, ts) => {
            assert forall|i: int| 0 <= i < ts@.len() implies spec_translatable(
                modules,
                skeys,
                shs,
                mids,
                self_id,
                #[trigger] ts@[i],
            ) by {
                lemma_translatable_from_handles(modules, skeys, shs, mids, self_id, ts@[i]);
            }
        }
        _ => {}
    }
}

/// The backward scan over the global function table that resolves a function
/// of the module being published: the newest record of that module with the
/// given name.
#[verifier::loop_isolation(false)]
pub fn find_function_while_loading(cache: &ModuleCache, module_id: &ModuleId, name: &Vec<u8>) -> (r:
    Option<usize>)
    ensures
        r == spec_fscan(
            function_keys(cache.functions@),
            module_id@,
            name@,
            function_keys(cache.functions@).len() - 1,
        ),
        r matches Some(idx) ==> idx < cache.functions@.len(),
{
    let ghost fkeys = function_keys(cache.functions@);
    let mut i: usize = cache.functions.len();
    while i > 0
        invariant
            0 <= i <= cache.functions@.len(),
            spec_fscan(fkeys, module_id@, name@, fkeys.len() - 1) == spec_fscan(
                fkeys,
                module_id@,
                name@,
                i - 1,
            ),
        decreases i,
    {
        i = i - 1;
        let f = &cache.functions[i];
        match f.module_id() {
            Some(mid) => {
                if !mid.id_eq(module_id) {
                    return None;
                }
            }
            None => {
                return None;
            }
        }
        if crate::ids::bytes_eq(&f.name, name) {
            return Some(i);
        }
    }
    None
}

/// Resolves one function handle during publication: a handle naming the
/// module being published is found by the backward scan, every other handle
/// through the cache.
pub fn resolve_fhandle_exec(
    cache: &ModuleCache,
    fh: &crate::code::FunctionHandle,
    mids: &Vec<ModuleId>,
    self_id: &ModuleId,
) -> (r: Result<usize, StatusCode>)
    requires
        cache.wf(),
        fh.module < mids@.len(),
    ensures
        r matches Ok(g) ==> spec_resolve_fhandle(
            cache.modules,
            function_keys(cache.functions@),
            *fh,
            mids@,
            self_id@,
        ) == Some(g) && g < cache.functions@.len(),
        r is Err <==> spec_resolve_fhandle(
            cache.modules,
            function_keys(cache.functions@),
            *fh,
            mids@,
            self_id@,
        ) is None,
        r matches Err(e) ==> e == StatusCode::FunctionResolutionFailure,
{
    let mid = &mids[fh.module];
    if mid.id_eq(self_id) {
        match find_function_while_loading(cache, mid, &fh.name) {
            Some(idx) => {
                proof {
                    lemma_fscan_in_bounds(
                        function_keys(cache.functions@),
                        mid@,
                        fh.name@,
                        function_keys(cache.functions@).len() - 1,
                    );
                }
                Ok(idx)
            }
            None => Err(StatusCode::FunctionResolutionFailure),
        }
    } else {
        match cache.resolve_function_by_name(&fh.name, mid) {
            Ok(idx) => Ok(idx),
            Err(_) => Err(StatusCode::FunctionResolutionFailure),
        }
    }
}

/// Every part of a published module's buildable side tables can be resolved:
/// its struct handles, its function handles, and the single token of every
/// signature a vector instruction names.
pub open spec fn module_buildable(
    modules: BinaryCache<ModuleId, Module>,
    skeys: Seq<StructKey>,
    fkeys: Seq<FunctionKey>,
    code: ModuleCode,
) -> bool {
    &&& forall|h: int|
        0 <= h < code.struct_handles@.len() ==> spec_resolve_handle(
            modules,
            skeys,
            #[trigger] code.struct_handles@[h],
            code.module_handles@,
            Some(code.spec_self_id()),
        ) is Some
    &&& forall|h: int|
        0 <= h < code.function_handles@.len() ==> spec_resolve_fhandle(
            modules,
            fkeys,
            #[trigger] code.function_handles@[h],
            code.module_handles@,
            code.spec_self_id(),
        ) is Some
    &&& forall|si: int|
        0 <= si < code.signatures@.len() && sig_used_by_vec_op(code, si) ==> (
        #[trigger] code.signatures@[si])@.len() >= 1
}

/// One struct-map entry binds the name of some struct declaration to that
/// declaration's global index.
pub open spec fn struct_map_entry_ok(m: Module, k: int) -> bool {
    exists|d: int|
        {
            &&& 0 <= d < m.structs@.len()
            &&& (#[trigger] m.struct_map@[k]).0@ == m.code.struct_handles@[(
            #[trigger] m.code.struct_defs@[d]).struct_handle as int].name@
            &&& m.struct_map@[k].1 == m.structs@[d].idx
        }
}

/// One function-map entry binds the name of some function declaration to
/// that declaration's global index.
pub open spec fn function_map_entry_ok(m: Module, k: int) -> bool {
    exists|d: int|
        {
            &&& 0 <= d < m.code.function_defs@.len()
            &&& (#[trigger] m.function_map@[k]).0@ == m.code.function_handles@[(
            #[trigger] m.code.function_defs@[d]).function as int].name@
            &&& m.function_map@[k].1 == m.function_refs@[m.code.function_defs@[d].function as int]
        }
}

/// The side tables of a published module agree with its binary tables under
/// the cache state (`modules`, `skeys`, `fkeys`, `structs`) that the module
/// was built against.
pub open spec fn module_tables_match(
    m: Module,
    modules: BinaryCache<ModuleId, Module>,
    skeys: Seq<StructKey>,
    fkeys: Seq<FunctionKey>,
    structs: Seq<crate::module_cache::StructType>,
) -> bool {
    let selfid = m.code.spec_self_id();
    let shs = m.code.struct_handles@;
    let mids = m.code.module_handles@;
    &&& forall|h: int|
        0 <= h < m.struct_refs@.len() ==> Some(#[trigger] m.struct_refs@[h])
            == spec_resolve_handle(modules, skeys, shs[h], mids, Some(selfid))
    &&& forall|k: int|
        0 <= k < m.structs@.len() ==> {
            let d = #[trigger] m.code.struct_defs@[k];
            &&& m.structs@[k].idx == m.struct_refs@[d.struct_handle as int]
            &&& m.structs@[k].idx < structs.len()
            &&& m.structs@[k].field_count == structs[m.structs@[k].idx as int].fields@.len()
        }
    &&& forall|k: int| 0 <= k < m.struct_map@.len() ==> #[trigger] struct_map_entry_ok(m, k)
    &&& forall|d: int|
        0 <= d < m.code.struct_defs@.len() ==> spec_name_map_contains(
            m.struct_map@,
            shs[(#[trigger] m.code.struct_defs@[d]).struct_handle as int].name@,
        )
    &&& forall|k: int|
        0 <= k < m.struct_instantiations@.len() ==> #[trigger] struct_inst_entry_ok(
            modules,
            skeys,
            m.code,
            m.structs@,
            structs.len() as int,
            m.struct_instantiations@[k],
            k,
        )
    &&& forall|h: int|
        0 <= h < m.function_refs@.len() ==> Some(#[trigger] m.function_refs@[h])
            == spec_resolve_fhandle(modules, fkeys, m.code.function_handles@[h], mids, selfid)
    &&& forall|k: int| 0 <= k < m.function_map@.len() ==> #[trigger] function_map_entry_ok(m, k)
    &&& forall|d: int|
        0 <= d < m.code.function_defs@.len() ==> spec_name_map_contains(
            m.function_map@,
            m.code.function_handles@[(#[trigger] m.code.function_defs@[d]).function as int].name@,
        )
    &&& forall|k: int|
        0 <= k < m.function_instantiations@.len() ==> #[trigger] function_inst_entry_ok(
            modules,
            skeys,
            m.code,
            m.function_refs@,
            fkeys.len() as int,
            m.function_instantiations@[k],
            k,
        )
    &&& forall|k: int|
        0 <= k < m.field_handles@.len() ==> {
            let fh = #[trigger] m.code.field_handles@[k];
            &&& m.field_handles@[k].offset == fh.field
            &&& m.field_handles@[k].owner == m.structs@[fh.owner as int].idx
        }
    &&& forall|k: int|
        0 <= k < m.field_instantiations@.len() ==> {
            let fi = #[trigger] m.code.field_instantiations@[k];
            &&& m.field_instantiations@[k].offset == m.field_handles@[fi.handle as int].offset
            &&& m.field_instantiations@[k].owner == m.field_handles@[fi.handle as int].owner
        }
    &&& forall|si: int|
        0 <= si < m.single_signature_token_map@.len() ==> {
            &&& ((#[trigger] m.single_signature_token_map@[si]) is Some <==> sig_used_by_vec_op(
                m.code,
                si,
            ))
            &&& (m.single_signature_token_map@[si] matches Some(t) ==> m.code.signatures@[si]@.len()
                >= 1 && spec_translated(
                modules,
                skeys,
                shs,
                mids,
                Some(selfid),
                m.code.signatures@[si]@[0],
                t@,
            ))
        }
}

/// A struct declared by this module: its field count and its global index.
#[derive(Debug)]
pub struct StructDefRt {
    pub field_count: u16,
    pub idx: usize,
}

/// A struct instantiation used by this module's bytecode.
#[derive(Debug)]
pub struct StructInstRt {
    pub field_count: u16,
    pub def: usize,
    pub instantiation: Vec<Type>,
}

/// A function instantiation used by this module's bytecode.
#[derive(Debug)]
pub struct FunctionInstRt {
    pub handle: usize,
    pub instantiation: Vec<Type>,
}

/// A field touched by this module's bytecode: its offset in the owning
/// struct and the owner's global index.
#[derive(Debug)]
pub struct FieldHandleRt {
    pub offset: usize,
    pub owner: usize,
}

/// An instantiated field touched by this module's bytecode.
#[derive(Debug)]
pub struct FieldInstRt {
    pub offset: usize,
    pub owner: usize,
}

/// Translates every token of one signature of the module being published.
/// Callable once every struct handle of the module is known to resolve.
#[verifier::loop_isolation(false)]
fn translate_signature(cache: &ModuleCache, code: &ModuleCode, sig_idx: usize) -> (r: Vec<Type>)
    requires
        cache.wf(),
        code.wf(),
        sig_idx < code.signatures@.len(),
        forall|h: int|
            0 <= h < code.struct_handles@.len() ==> spec_resolve_handle(
                cache.modules,
                cache.skeys(),
                #[trigger] code.struct_handles@[h],
                code.module_handles@,
                Some(code.spec_self_id()),
            ) is Some,
    ensures
        r@.len() == code.signatures@[sig_idx as int]@.len(),
        forall|j: int|
            0 <= j < r@.len() ==> spec_translated(
                cache.modules,
                cache.skeys(),
                code.struct_handles@,
                code.module_handles@,
                Some(code.spec_self_id()),
                code.signatures@[sig_idx as int]@[j],
                (#[trigger] r@[j])@,
            ),
{
    let ghost skeys = cache.skeys();
    let ghost selfid = code.spec_self_id();
    let ghost shs = code.struct_handles@;
    let ghost mids = code.module_handles@;
    let sig = &code.signatures[sig_idx];
    let mut out: Vec<Type> = Vec::new();
    let mut j: usize = 0;
    while j < sig.len()
        invariant
            0 <= j <= sig@.len(),
            out@.len() == j,
            forall|jj: int|
                0 <= jj < j ==> spec_translated(
                    cache.modules,
                    skeys,
                    shs,
                    mids,
                    Some(selfid),
                    sig@[jj],
                    (#[trigger] out@[jj])@,
                ),
        decreases sig@.len() - j,
    {
        match cache.make_type_while_loading(code, &sig[j]) {
            Ok(t) => {
                out.push(t);
            }
            Err(_) => {
                proof {
                    lemma_translatable_from_handles(
                        cache.modules,
                        skeys,
                        shs,
                        mids,
                        Some(selfid),
                        sig@[j as int],
                    );
                }
                return unreached();
            }
        }
        j = j + 1;
    }
    out
}

/// One runtime struct-instantiation record agrees with the binary's.
pub open spec fn struct_inst_entry_ok(
    modules: BinaryCache<ModuleId, Module>,
    skeys: Seq<StructKey>,
    code: ModuleCode,
    structs_rt: Seq<StructDefRt>,
    n_structs: int,
    inst: StructInstRt,
    i: int,
) -> bool {
    let si = code.struct_def_instantiations@[i];
    &&& inst.def == structs_rt[si.def as int].idx
    &&& inst.def < n_structs
    &&& inst.field_count == structs_rt[si.def as int].field_count
    &&& inst.instantiation@.len() == code.signatures@[si.type_parameters as int]@.len()
    &&& forall|j: int|
        0 <= j < inst.instantiation@.len() ==> spec_translated(
            modules,
            skeys,
            code.struct_handles@,
            code.module_handles@,
            Some(code.spec_self_id()),
            code.signatures@[si.type_parameters as int]@[j],
            (#[trigger] inst.instantiation@[j])@,
        )
}

/// One runtime function-instantiation record agrees with the binary's.
pub open spec fn function_inst_entry_ok(
    modules: BinaryCache<ModuleId, Module>,
    skeys: Seq<StructKey>,
    code: ModuleCode,
    function_refs: Seq<usize>,
    n_functions: int,
    inst: FunctionInstRt,
    i: int,
) -> bool {
    let fi = code.function_instantiations@[i];
    &&& inst.handle == function_refs[fi.handle as int]
    &&& inst.handle < n_functions
    &&& inst.instantiation@.len() == code.signatures@[fi.type_parameters as int]@.len()
    &&& forall|j: int|
        0 <= j < inst.instantiation@.len() ==> spec_translated(
            modules,
            skeys,
            code.struct_handles@,
            code.module_handles@,
            Some(code.spec_self_id()),
            code.signatures@[fi.type_parameters as int]@[j],
            (#[trigger] inst.instantiation@[j])@,
        )
}

/// Builds the runtime records of the module's struct instantiations.
#[verifier::loop_isolation(false)]
fn build_struct_insts(
    cache: &ModuleCache,
    code: &ModuleCode,
    structs_rt: &Vec<StructDefRt>,
) -> (r: Vec<StructInstRt>)
    requires
        cache.wf(),
        code.wf(),
        structs_rt@.len() == code.struct_defs@.len(),
        forall|i: int|
            0 <= i < structs_rt@.len() ==> (#[trigger] structs_rt@[i]).idx
                < cache.structs@.len(),
        forall|h: int|
            0 <= h < code.struct_handles@.len() ==> spec_resolve_handle(
                cache.modules,
                cache.skeys(),
                #[trigger] code.struct_handles@[h],
                code.module_handles@,
                Some(code.spec_self_id()),
            ) is Some,
    ensures
        r@.len() == code.struct_def_instantiations@.len(),
        forall|i: int|
            0 <= i < r@.len() ==> #[trigger] struct_inst_entry_ok(
                cache.modules,
                cache.skeys(),
                *code,
                structs_rt@,
                cache.structs@.len() as int,
                r@[i],
                i,
            ),
{
    let mut out: Vec<StructInstRt> = Vec::new();
    let mut k: usize = 0;
    while k < code.struct_def_instantiations.len()
        invariant
            0 <= k <= code.struct_def_instantiations@.len(),
            out@.len() == k,
            forall|i: int|
                0 <= i < k ==> #[trigger] struct_inst_entry_ok(
                    cache.modules,
                    cache.skeys(),
                    *code,
                    structs_rt@,
                    cache.structs@.len() as int,
                    out@[i],
                    i,
                ),
        decreases code.struct_def_instantiations@.len() - k,
    {
        let si = &code.struct_def_instantiations[k];
        let def_rt_idx = structs_rt[si.def].idx;
        let def_rt_count = structs_rt[si.def].field_count;
        let instantiation = translate_signature(cache, code, si.type_parameters);
        let ghost instv = instantiation@;
        out.push(StructInstRt { field_count: def_rt_count, def: def_rt_idx, instantiation });
        proof {
            let siv = code.struct_def_instantiations@[k as int];
            assert(out@[k as int].def == structs_rt@[siv.def as int].idx);
            assert(structs_rt@[siv.def as int].idx < cache.structs@.len());
            assert(out@[k as int].instantiation@ == instv);
            assert forall|j: int| 0 <= j < out@[k as int].instantiation@.len() implies
                spec_translated(
                cache.modules,
                cache.skeys(),
                code.struct_handles@,
                code.module_handles@,
                Some(code.spec_self_id()),
                code.signatures@[siv.type_parameters as int]@[j],
                (#[trigger] out@[k as int].instantiation@[j])@,
            ) by {
                assert(out@[k as int].instantiation@[j] == instv[j]);
            }
            assert(struct_inst_entry_ok(
                cache.modules,
                cache.skeys(),
                *code,
                structs_rt@,
                cache.structs@.len() as int,
                out@[k as int],
                k as int,
            ));
        }
        k = k + 1;
    }
    out
}

/// Builds the runtime records of the module's function instantiations.
#[verifier::loop_isolation(false)]
fn build_function_insts(
    cache: &ModuleCache,
    code: &ModuleCode,
    function_refs: &Vec<usize>,
) -> (r: Vec<FunctionInstRt>)
    requires
        cache.wf(),
        code.wf(),
        function_refs@.len() == code.function_handles@.len(),
        forall|i: int|
            0 <= i < function_refs@.len() ==> (#[trigger] function_refs@[i])
                < cache.functions@.len(),
        forall|h: int|
            0 <= h < code.struct_handles@.len() ==> spec_resolve_handle(
                cache.modules,
                cache.skeys(),
                #[trigger] code.struct_handles@[h],
                code.module_handles@,
                Some(code.spec_self_id()),
            ) is Some,
    ensures
        r@.len() == code.function_instantiations@.len(),
        forall|i: int|
            0 <= i < r@.len() ==> #[trigger] function_inst_entry_ok(
                cache.modules,
                cache.skeys(),
                *code,
                function_refs@,
                cache.functions@.len() as int,
                r@[i],
                i,
            ),
{
    let mut out: Vec<FunctionInstRt> = Vec::new();
    let mut k: usize = 0;
    while k < code.function_instantiations.len()
        invariant
            0 <= k <= code.function_instantiations@.len(),
            out@.len() == k,
            forall|i: int|
                0 <= i < k ==> #[trigger] function_inst_entry_ok(
                    cache.modules,
                    cache.skeys(),
                    *code,
                    function_refs@,
                    cache.functions@.len() as int,
                    out@[i],
                    i,
                ),
        decreases code.function_instantiations@.len() - k,
    {
        let fi = &code.function_instantiations[k];
        let handle = function_refs[fi.handle];
        let instantiation = translate_signature(cache, code, fi.type_parameters);
        let ghost instv = instantiation@;
        out.push(FunctionInstRt { handle, instantiation });
        proof {
            let fiv = code.function_instantiations@[k as int];
            assert(out@[k as int].handle == function_refs@[fiv.handle as int]);
            assert(function_refs@[fiv.handle as int] < cache.functions@.len());
            assert(out@[k as int].instantiation@ == instv);
            assert forall|j: int| 0 <= j < out@[k as int].instantiation@.len() implies
                spec_translated(
                cache.modules,
                cache.skeys(),
                code.struct_handles@,
                code.module_handles@,
                Some(code.spec_self_id()),
                code.signatures@[fiv.type_parameters as int]@[j],
                (#[trigger] out@[k as int].instantiation@[j])@,
            ) by {
                assert(out@[k as int].instantiation@[j] == instv[j]);
            }
            assert(function_inst_entry_ok(
                cache.modules,
                cache.skeys(),
                *code,
                function_refs@,
                cache.functions@.len() as int,
                out@[k as int],
                k as int,
            ));
        }
        k = k + 1;
    }
    out
}

/// Builds the field tables: offset and owning struct of every field handle
/// and field instantiation the bytecode touches.
#[verifier::loop_isolation(false)]
fn build_field_tables(
    cache: &ModuleCache,
    code: &ModuleCode,
    structs_rt: &Vec<StructDefRt>,
) -> (r: (Vec<FieldHandleRt>, Vec<FieldInstRt>))
    requires
        cache.wf(),
        code.wf(),
        structs_rt@.len() == code.struct_defs@.len(),
        forall|i: int|
            0 <= i < structs_rt@.len() ==> (#[trigger] structs_rt@[i]).idx
                < cache.structs@.len(),
    ensures
        r.0@.len() == code.field_handles@.len(),
        forall|i: int|
            0 <= i < r.0@.len() ==> {
                let fh = #[trigger] code.field_handles@[i];
                &&& r.0@[i].offset == fh.field
                &&& r.0@[i].owner == structs_rt@[fh.owner as int].idx
                &&& r.0@[i].owner < cache.structs@.len()
            },
        r.1@.len() == code.field_instantiations@.len(),
        forall|i: int|
            0 <= i < r.1@.len() ==> {
                let fi = #[trigger] code.field_instantiations@[i];
                &&& r.1@[i].offset == r.0@[fi.handle as int].offset
                &&& r.1@[i].owner == r.0@[fi.handle as int].owner
                &&& r.1@[i].owner < cache.structs@.len()
            },
{
    let mut field_handles: Vec<FieldHandleRt> = Vec::new();
    let mut k: usize = 0;
    while k < code.field_handles.len()
        invariant
            0 <= k <= code.field_handles@.len(),
            field_handles@.len() == k,
            forall|i: int|
                0 <= i < k ==> {
                    let fh = #[trigger] code.field_handles@[i];
                    &&& field_handles@[i].offset == fh.field
                    &&& field_handles@[i].owner == structs_rt@[fh.owner as int].idx
                    &&& field_handles@[i].owner < cache.structs@.len()
                },
        decreases code.field_handles@.len() - k,
    {
        let fh = &code.field_handles[k];
        let owner = structs_rt[fh.owner].idx;
        field_handles.push(FieldHandleRt { offset: fh.field, owner });
        proof {
            let fhv = code.field_handles@[k as int];
            assert(field_handles@[k as int].owner == structs_rt@[fhv.owner as int].idx);
            assert(structs_rt@[fhv.owner as int].idx < cache.structs@.len());
        }
        k = k + 1;
    }
    let mut field_instantiations: Vec<FieldInstRt> = Vec::new();
    let mut k: usize = 0;
    while k < code.field_instantiations.len()
        invariant
            0 <= k <= code.field_instantiations@.len(),
            field_instantiations@.len() == k,
            forall|i: int|
                0 <= i < k ==> {
                    let fi = #[trigger] code.field_instantiations@[i];
                    &&& (#[trigger] field_instantiations@[i]).offset == field_handles@[
                        fi.handle as int
                    ].offset
                    &&& field_instantiations@[i].owner == field_handles@[fi.handle as int].owner
                    &&& field_instantiations@[i].owner < cache.structs@.len()
                },
        decreases code.field_instantiations@.len() - k,
    {
        let fi = &code.field_instantiations[k];
        let offset = field_handles[fi.handle].offset;
        let owner = field_handles[fi.handle].owner;
        field_instantiations.push(FieldInstRt { offset, owner });
        proof {
            let fiv = code.field_instantiations@[k as int];
            assert(field_instantiations@[k as int].offset == field_handles@[
                fiv.handle as int
            ].offset);
            assert(field_instantiations@[k as int].owner == field_handles@[
                fiv.handle as int
            ].owner);
            let fhv = code.field_handles@[fiv.handle as int];
            assert(field_handles@[fiv.handle as int].owner < cache.structs@.len());
        }
        k = k + 1;
    }
    (field_handles, field_instantiations)
}

/// A published module: its deserialized form plus the runtime side tables.
#[derive(Debug)]
pub struct Module {
    /// The module's identity.
    pub id: ModuleId,
    /// The deserialized module.
    pub code: ModuleCode,
    /// For each struct handle, the global index of the struct it names.
    pub struct_refs: Vec<usize>,
    /// For each struct definition, its runtime record.
    pub structs: Vec<StructDefRt>,
    /// For each struct instantiation, its runtime record.
    pub struct_instantiations: Vec<StructInstRt>,
    /// For each function handle, the global index of the function it names.
    pub function_refs: Vec<usize>,
    /// For each function instantiation, its runtime record.
    pub function_instantiations: Vec<FunctionInstRt>,
    /// For each field handle, offset and owner.
    pub field_handles: Vec<FieldHandleRt>,
    /// For each field instantiation, offset and owner.
    pub field_instantiations: Vec<FieldInstRt>,
    /// Function name to global function index.
    pub function_map: Vec<(Vec<u8>, usize)>,
    /// Struct name to global struct index.
    pub struct_map: Vec<(Vec<u8>, usize)>,
    /// For each signature index used by a vector instruction, the
    /// pre-translated type of the single token of that signature.
    pub single_signature_token_map: Vec<Option<Type>>,
}

impl Module {
    /// The side tables are parallel to the binary's tables and every global
    /// index they hold lies inside the global tables.
    pub open spec fn wf(self, n_structs: int, n_functions: int) -> bool {
        &&& self.code.wf()
        &&& self.id@ == self.code.spec_self_id()
        &&& self.struct_refs@.len() == self.code.struct_handles@.len()
        &&& forall|i: int|
            0 <= i < self.struct_refs@.len() ==> (#[trigger] self.struct_refs@[i]) < n_structs
        &&& self.structs@.len() == self.code.struct_defs@.len()
        &&& forall|i: int|
            0 <= i < self.structs@.len() ==> (#[trigger] self.structs@[i]).idx < n_structs
        &&& self.struct_instantiations@.len() == self.code.struct_def_instantiations@.len()
        &&& forall|i: int|
            0 <= i < self.struct_instantiations@.len()
                ==> (#[trigger] self.struct_instantiations@[i]).def < n_structs
        &&& self.function_refs@.len() == self.code.function_handles@.len()
        &&& forall|i: int|
            0 <= i < self.function_refs@.len() ==> (#[trigger] self.function_refs@[i])
                < n_functions
        &&& self.function_instantiations@.len() == self.code.function_instantiations@.len()
        &&& forall|i: int|
            0 <= i < self.function_instantiations@.len()
                ==> (#[trigger] self.function_instantiations@[i]).handle < n_functions
        &&& self.field_handles@.len() == self.code.field_handles@.len()
        &&& forall|i: int|
            0 <= i < self.field_handles@.len() ==> (#[trigger] self.field_handles@[i]).owner
                < n_structs
        &&& self.field_instantiations@.len() == self.code.field_instantiations@.len()
        &&& forall|i: int|
            0 <= i < self.field_instantiations@.len()
                ==> (#[trigger] self.field_instantiations@[i]).owner < n_structs
        &&& crate::module_cache::name_map_wf(self.function_map@)
        &&& forall|i: int|
            0 <= i < self.function_map@.len() ==> (#[trigger] self.function_map@[i]).1
                < n_functions
        &&& crate::module_cache::name_map_wf(self.struct_map@)
        &&& forall|i: int|
            0 <= i < self.struct_map@.len() ==> (#[trigger] self.struct_map@[i]).1 < n_structs
        &&& self.single_signature_token_map@.len() == self.code.signatures@.len()
    }

    /// The global struct index of a struct definition.
    pub fn struct_at(&self, idx: usize) -> (r: usize)
        requires
            idx < self.structs@.len(),
        ensures
            r == self.structs@[idx as int].idx,
    {
        self.structs[idx].idx
    }

    /// The struct instantiation at an index.
    pub fn struct_instantiation_at(&self, idx: usize) -> (r: &StructInstRt)
        requires
            idx < self.struct_instantiations@.len(),
        ensures
            *r == self.struct_instantiations@[idx as int],
    {
        &self.struct_instantiations[idx]
    }

    /// The global function index of a function handle.
    pub fn function_at(&self, idx: usize) -> (r: usize)
        requires
            idx < self.function_refs@.len(),
        ensures
            r == self.function_refs@[idx as int],
    {
        self.function_refs[idx]
    }

    /// The function instantiation at an index.
    pub fn function_instantiation_at(&self, idx: usize) -> (r: &FunctionInstRt)
        requires
            idx < self.function_instantiations@.len(),
        ensures
            *r == self.function_instantiations@[idx as int],
    {
        &self.function_instantiations[idx]
    }

    /// The field count of a struct definition.
    pub fn field_count(&self, idx: usize) -> (r: u16)
        requires
            idx < self.structs@.len(),
        ensures
            r == self.structs@[idx as int].field_count,
    {
        self.structs[idx].field_count
    }

    /// The field count of a struct instantiation.
    pub fn field_instantiation_count(&self, idx: usize) -> (r: u16)
        requires
            idx < self.struct_instantiations@.len(),
        ensures
            r == self.struct_instantiations@[idx as int].field_count,
    {
        self.struct_instantiations[idx].field_count
    }

    /// The deserialized module.
    pub fn module(&self) -> (r: &ModuleCode)
        ensures
            *r == self.code,
    {
        &self.code
    }

    /// The offset of a field handle.
    pub fn field_offset(&self, idx: usize) -> (r: usize)
        requires
            idx < self.field_handles@.len(),
        ensures
            r == self.field_handles@[idx as int].offset,
    {
        self.field_handles[idx].offset
    }

    /// The offset of a field instantiation.
    pub fn field_instantiation_offset(&self, idx: usize) -> (r: usize)
        requires
            idx < self.field_instantiations@.len(),
        ensures
            r == self.field_instantiations@[idx as int].offset,
    {
        self.field_instantiations[idx].offset
    }

    /// Builds the runtime side tables of a module whose global struct and
    /// function records were just appended to the cache, but which is not in
    /// the cache's module map yet: a handle naming the module itself is
    /// resolved by a backward scan over the global tables, every other
    /// handle through the cache.
    #[verifier::loop_isolation(false)]
    #[verifier::rlimit(100)]
    #[verifier::spinoff_prover]
    pub fn new(cache: &ModuleCache, code: ModuleCode) -> (r: Result<Module, StatusCode>)
        requires
            cache.wf(),
            code.wf(),
        ensures
            r is Ok <==> module_buildable(
                cache.modules,
                cache.skeys(),
                function_keys(cache.functions@),
                code,
            ),
            r matches Ok(m) ==> m.code == code && m.wf(
                cache.structs@.len() as int,
                cache.functions@.len() as int,
            ) && module_tables_match(
                m,
                cache.modules,
                cache.skeys(),
                function_keys(cache.functions@),
                cache.structs@,
            ),
            r matches Err(e) ==> (e == StatusCode::TypeResolutionFailure || e
                == StatusCode::FunctionResolutionFailure || e
                == StatusCode::VerifierInvariantViolation),
    {
        let ghost skeys = cache.skeys();
        let ghost fkeys = function_keys(cache.functions@);
        let ghost selfid = code.spec_self_id();
        let ghost shs = code.struct_handles@;
        let ghost mids = code.module_handles@;
        let id = code.self_id().duplicate();

        let mut struct_refs: Vec<usize> = Vec::new();
        let mut h: usize = 0;
        while h < code.struct_handles.len()
            invariant
                0 <= h <= shs.len(),
                struct_refs@.len() == h,
                forall|i: int|
                    0 <= i < h ==> Some(#[trigger] struct_refs@[i]) == spec_resolve_handle(
                        cache.modules,
                        skeys,
                        shs[i],
                        mids,
                        Some(selfid),
                    ),
                forall|i: int| 0 <= i < h ==> #[trigger] struct_refs@[i] < cache.structs@.len(),
            decreases shs.len() - h,
        {
            match cache.resolve_handle(&code.struct_handles[h], &code.module_handles, Some(&id)) {
                Ok(g) => {
                    struct_refs.push(g);
                }
                Err(e) => {
                    return Err(e);
                }
            }
            h = h + 1;
        }
        proof {
            assert forall|h2: int| 0 <= h2 < shs.len() implies spec_resolve_handle(
                cache.modules,
                skeys,
                #[trigger] shs[h2],
                mids,
                Some(selfid),
            ) is Some by {
                assert(Some(struct_refs@[h2]) == spec_resolve_handle(
                    cache.modules,
                    skeys,
                    shs[h2],
                    mids,
                    Some(selfid),
                ));
            }
        }

        let mut structs_rt: Vec<StructDefRt> = Vec::new();
        let mut struct_map: Vec<(Vec<u8>, usize)> = Vec::new();
        let mut k: usize = 0;
        while k < code.struct_defs.len()
            invariant
                0 <= k <= code.struct_defs@.len(),
                structs_rt@.len() == k,
                forall|i: int|
                    0 <= i < k ==> {
                        let d = #[trigger] code.struct_defs@[i];
                        &&& structs_rt@[i].idx == struct_refs@[d.struct_handle as int]
                        &&& structs_rt@[i].idx < cache.structs@.len()
                        &&& structs_rt@[i].field_count == cache.structs@[structs_rt@[i].idx as int].fields@.len()
                    },
                crate::module_cache::name_map_wf(struct_map@),
                forall|i: int|
                    0 <= i < struct_map@.len() ==> exists|d: int|
                        {
                            &&& 0 <= d < k
                            &&& (#[trigger] struct_map@[i]).0@ == shs[(#[trigger] code.struct_defs@[d]).struct_handle as int].name@
                            &&& struct_map@[i].1 == structs_rt@[d].idx
                        },
                forall|d: int|
                    0 <= d < k ==> spec_name_map_contains(
                        struct_map@,
                        shs[(#[trigger] code.struct_defs@[d]).struct_handle as int].name@,
                    ),
                forall|i: int|
                    0 <= i < struct_map@.len() ==> (#[trigger] struct_map@[i]).1
                        < cache.structs@.len(),
            decreases code.struct_defs@.len() - k,
        {
            let d = &code.struct_defs[k];
            let idx = struct_refs[d.struct_handle];
            let field_count = cache.structs[idx].fields.len() as u16;
            structs_rt.push(StructDefRt { field_count, idx });
            let name = clone_bytes(&code.struct_handles[d.struct_handle].name);
            let ghost pre_map = struct_map@;
            match crate::module_cache::name_map_get(&struct_map, &name) {
                Some(_) => {}
                None => {
                    struct_map.push((name, idx));
                    proof {
                        assert(struct_map@[struct_map@.len() - 1].0@ == shs[code.struct_defs@[
                            k as int
                        ].struct_handle as int].name@);
                    }
                }
            }
            proof {
                assert(spec_name_map_contains(
                    struct_map@,
                    shs[code.struct_defs@[k as int].struct_handle as int].name@,
                ));
                assert forall|dd: int|
                    0 <= dd < k + 1 implies spec_name_map_contains(
                    struct_map@,
                    shs[(#[trigger] code.struct_defs@[dd]).struct_handle as int].name@,
                ) by {
                    if dd < k {
                        let nmv = shs[code.struct_defs@[dd].struct_handle as int].name@;
                        let i0 = choose|i: int| 0 <= i < pre_map.len() && (#[trigger] pre_map[i]).0@ == nmv;
                        assert(struct_map@[i0].0@ == nmv);
                    }
                }
            }
            k = k + 1;
        }

        proof {
            assert forall|i2: int| 0 <= i2 < structs_rt@.len() implies (
            #[trigger] structs_rt@[i2]).idx < cache.structs@.len() by {
                let d2 = code.struct_defs@[i2];
                assert(structs_rt@[i2].idx == struct_refs@[d2.struct_handle as int]);
            }
        }
        let struct_instantiations = build_struct_insts(cache, &code, &structs_rt);

        let mut function_refs: Vec<usize> = Vec::new();
        let mut h: usize = 0;
        while h < code.function_handles.len()
            invariant
                0 <= h <= code.function_handles@.len(),
                function_refs@.len() == h,
                forall|i: int|
                    0 <= i < h ==> Some(#[trigger] function_refs@[i]) == spec_resolve_fhandle(
                        cache.modules,
                        fkeys,
                        code.function_handles@[i],
                        mids,
                        selfid,
                    ),
                forall|i: int|
                    0 <= i < h ==> #[trigger] function_refs@[i] < cache.functions@.len(),
            decreases code.function_handles@.len() - h,
        {
            match resolve_fhandle_exec(cache, &code.function_handles[h], &code.module_handles, &id) {
                Ok(g) => {
                    function_refs.push(g);
                }
                Err(e) => {
                    return Err(e);
                }
            }
            h = h + 1;
        }

        let function_instantiations = build_function_insts(cache, &code, &function_refs);

        let mut function_map: Vec<(Vec<u8>, usize)> = Vec::new();
        let mut singles: Vec<Option<Type>> = Vec::new();
        let mut si: usize = 0;
        while si < code.signatures.len()
            invariant
                0 <= si <= code.signatures@.len(),
                singles@.len() == si,
                forall|i: int| 0 <= i < si ==> (#[trigger] singles@[i]) is None,
            decreases code.signatures@.len() - si,
        {
            singles.push(None);
            si = si + 1;
        }
        let ghost n_sig = code.signatures@.len() as int;
        let mut f: usize = 0;
        while f < code.function_defs.len()
            invariant
                0 <= f <= code.function_defs@.len(),
                singles@.len() == n_sig,
                crate::module_cache::name_map_wf(function_map@),
                forall|i: int|
                    0 <= i < function_map@.len() ==> exists|d: int|
                        {
                            &&& 0 <= d < f
                            &&& (#[trigger] function_map@[i]).0@ == code.function_handles@[(#[trigger] code.function_defs@[d]).function as int].name@
                            &&& function_map@[i].1 == function_refs@[code.function_defs@[d].function as int]
                        },
                forall|d: int|
                    0 <= d < f ==> spec_name_map_contains(
                        function_map@,
                        code.function_handles@[(
                        #[trigger] code.function_defs@[d]).function as int].name@,
                    ),
                forall|i: int|
                    0 <= i < function_map@.len() ==> (#[trigger] function_map@[i]).1
                        < cache.functions@.len(),
                forall|s: int|
                    0 <= s < n_sig ==> ((#[trigger] singles@[s]) is Some <==> sig_used_upto(
                        code,
                        s,
                        f as int,
                    )),
                forall|s: int|
                    0 <= s < n_sig ==> ((#[trigger] singles@[s]) matches Some(t)
                        ==> code.signatures@[s]@.len() >= 1 && spec_translated(
                        cache.modules,
                        skeys,
                        shs,
                        mids,
                        Some(selfid),
                        code.signatures@[s]@[0],
                        t@,
                    )),
            decreases code.function_defs@.len() - f,
        {
            let d = &code.function_defs[f];
            let name = clone_bytes(&code.function_handles[d.function].name);
            let fref = function_refs[d.function];
            let ghost pre_map = function_map@;
            match crate::module_cache::name_map_get(&function_map, &name) {
                Some(_) => {}
                None => {
                    function_map.push((name, fref));
                    proof {
                        assert(function_map@[function_map@.len() - 1].0@ == code.function_handles@[
                            code.function_defs@[f as int].function as int
                        ].name@);
                    }
                }
            }
            proof {
                assert(spec_name_map_contains(
                    function_map@,
                    code.function_handles@[code.function_defs@[f as int].function as int].name@,
                ));
                assert forall|dd: int|
                    0 <= dd < f + 1 implies spec_name_map_contains(
                    function_map@,
                    code.function_handles@[(#[trigger] code.function_defs@[dd]).function as int].name@,
                ) by {
                    if dd < f {
                        let nmv = code.function_handles@[code.function_defs@[dd].function as int].name@;
                        let i0 = choose|i: int| 0 <= i < pre_map.len() && (#[trigger] pre_map[i]).0@ == nmv;
                        assert(function_map@[i0].0@ == nmv);
                    }
                }
            }
            match &d.code {
                Some(cu) => {
                    let mut kk: usize = 0;
                    while kk < cu.code.len()
                        invariant
                            0 <= kk <= cu.code@.len(),
                            singles@.len() == n_sig,
                            code.function_defs@[f as int].code matches Some(c) && c == *cu,
                            forall|s: int|
                                0 <= s < n_sig ==> ((#[trigger] singles@[s]) is Some <==> (
                                sig_used_upto(code, s, f as int) || exists|j: int|
                                    0 <= j < kk && (#[trigger] cu.code@[j]).spec_vec_sig() == Some(
                                        s as usize,
                                    ))),
                            forall|s: int|
                                0 <= s < n_sig ==> ((#[trigger] singles@[s]) matches Some(t)
                                    ==> code.signatures@[s]@.len() >= 1 && spec_translated(
                                    cache.modules,
                                    skeys,
                                    shs,
                                    mids,
                                    Some(selfid),
                                    code.signatures@[s]@[0],
                                    t@,
                                )),
                        decreases cu.code@.len() - kk,
                    {
                        match cu.code[kk].vec_sig() {
                            Some(s0) => {
                                let need = match &singles[s0] {
                                    Some(_) => false,
                                    None => true,
                                };
                                if need {
                                    let sig = &code.signatures[s0];
                                    if sig.len() == 0 {
                                        return Err(StatusCode::VerifierInvariantViolation);
                                    }
                                    match cache.make_type_while_loading(&code, &sig[0]) {
                                        Ok(t) => {
                                            singles[s0] = Some(t);
                                        }
                                        Err(_) => {
                                            proof {
                                                lemma_translatable_from_handles(
                                                    cache.modules,
                                                    skeys,
                                                    shs,
                                                    mids,
                                                    Some(selfid),
                                                    sig@[0],
                                                );
                                            }
                                            return unreached();
                                        }
                                    }
                                }
                            }
                            None => {}
                        }
                        kk = kk + 1;
                    }
                }
                None => {}
            }
            f = f + 1;
        }

        let field_tables = build_field_tables(cache, &code, &structs_rt);
        let field_handles = field_tables.0;
        let field_instantiations = field_tables.1;

        proof {
            assert forall|h2: int| 0 <= h2 < code.function_handles@.len() implies
                spec_resolve_fhandle(
                cache.modules,
                fkeys,
                #[trigger] code.function_handles@[h2],
                mids,
                selfid,
            ) is Some by {
                assert(Some(function_refs@[h2]) == spec_resolve_fhandle(
                    cache.modules,
                    fkeys,
                    code.function_handles@[h2],
                    mids,
                    selfid,
                ));
            }
            assert forall|s: int|
                0 <= s < code.signatures@.len() && sig_used_by_vec_op(code, s) implies (
            #[trigger] code.signatures@[s])@.len() >= 1 by {
                assert(singles@[s] is Some);
            }
        }
        proof {
            assert forall|i: int| 0 <= i < structs_rt@.len() implies (
            #[trigger] structs_rt@[i]).idx < cache.structs@.len() by {
                let d = code.struct_defs@[i];
                assert(structs_rt@[i].idx == struct_refs@[d.struct_handle as int]);
            }
            assert forall|i: int| 0 <= i < struct_instantiations@.len() implies (
            #[trigger] struct_instantiations@[i]).def < cache.structs@.len() by {
                assert(struct_inst_entry_ok(
                    cache.modules,
                    cache.skeys(),
                    code,
                    structs_rt@,
                    cache.structs@.len() as int,
                    struct_instantiations@[i],
                    i,
                ));
            }
            assert forall|i: int| 0 <= i < function_instantiations@.len() implies (
            #[trigger] function_instantiations@[i]).handle < cache.functions@.len() by {
                assert(function_inst_entry_ok(
                    cache.modules,
                    cache.skeys(),
                    code,
                    function_refs@,
                    cache.functions@.len() as int,
                    function_instantiations@[i],
                    i,
                ));
            }
            assert forall|i: int| 0 <= i < field_handles@.len() implies (
            #[trigger] field_handles@[i]).owner < cache.structs@.len() by {
                let fh2 = code.field_handles@[i];
                assert(field_handles@[i].owner == structs_rt@[fh2.owner as int].idx);
            }
            assert forall|i: int| 0 <= i < field_instantiations@.len() implies (
            #[trigger] field_instantiations@[i]).owner < cache.structs@.len() by {
                let fi2 = code.field_instantiations@[i];
                assert(field_instantiations@[i].owner == field_handles@[fi2.handle as int].owner);
            }
        }
        let m = Module {
            id,
            code,
            struct_refs,
            structs: structs_rt,
            struct_instantiations,
            function_refs,
            function_instantiations,
            field_handles,
            field_instantiations,
            function_map,
            struct_map,
            single_signature_token_map: singles,
        };
        proof {
            assert forall|kk: int| 0 <= kk < m.struct_map@.len() implies #[trigger] struct_map_entry_ok(
                m,
                kk,
            ) by {
                let d0 = choose|d: int|
                    {
                        &&& 0 <= d < code.struct_defs@.len()
                        &&& (#[trigger] m.struct_map@[kk]).0@ == shs[(
                        #[trigger] code.struct_defs@[d]).struct_handle as int].name@
                        &&& m.struct_map@[kk].1 == m.structs@[d].idx
                    };
                assert(0 <= d0 < m.structs@.len() && m.struct_map@[kk].0@
                    == m.code.struct_handles@[(m.code.struct_defs@[d0]).struct_handle as int].name@
                    && m.struct_map@[kk].1 == m.structs@[d0].idx);
                assert(struct_map_entry_ok(m, kk));
            }
            assert forall|kk: int|
                0 <= kk < m.function_map@.len() implies #[trigger] function_map_entry_ok(
                m,
                kk,
            ) by {
                let d0 = choose|d: int|
                    {
                        &&& 0 <= d < code.function_defs@.len()
                        &&& (#[trigger] m.function_map@[kk]).0@ == code.function_handles@[(
                        #[trigger] code.function_defs@[d]).function as int].name@
                        &&& m.function_map@[kk].1 == m.function_refs@[code.function_defs@[
                            d
                        ].function as int]
                    };
                assert(0 <= d0 < m.code.function_defs@.len() && m.function_map@[kk].0@
                    == m.code.function_handles@[(m.code.function_defs@[d0]).function as int].name@
                    && m.function_map@[kk].1 == m.function_refs@[m.code.function_defs@[
                        d0
                    ].function as int]);
                assert(function_map_entry_ok(m, kk));
            }
        }
        Ok(m)
    }

    /// The pre-translated type of the single token of a signature used by a
    /// vector instruction.
    pub fn single_type_at(&self, idx: usize) -> (r: &Type)
        requires
            idx < self.single_signature_token_map@.len(),
            self.single_signature_token_map@[idx as int] is Some,
        ensures
            Some(*r) == self.single_signature_token_map@[idx as int],
    {
        match &self.single_signature_token_map[idx] {
            Some(t) => t,
            None => unreached(),
        }
    }
}

} // verus!
