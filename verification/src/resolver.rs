//! The resolver: a small, stack-allocated view over the loader and the
//! module or script currently executing, through which an interpreter turns
//! bytecode indices into runtime entities in constant time.
//!
//! Type layouts are served by the loader itself, because producing one
//! updates the loader's memo table.

use vstd::prelude::*;

use crate::code::Constant;
use crate::errors::StatusCode;
use crate::function::Function;
use crate::loader::Loader;
use crate::module::FunctionInstRt;
use crate::runtime_types::{params_wf, subst_v, type_views, Type};

verus! {

broadcast use vstd::std_specs::vec::group_vec_axioms;

/// What the resolver is looking at: a published module or a cached script,
/// by permanent cache index.
#[derive(Clone, Copy, PartialEq, Eq, Structural, Debug)]
pub enum BinaryType {
    Module(usize),
    Script(usize),
}

/// A view over the loader and the currently executing binary.
pub struct Resolver<'a> {
    pub loader: &'a Loader,
    pub binary: BinaryType,
}

impl<'a> Resolver<'a> {
    /// The resolver points at an existing cache entry of a well-formed
    /// loader.
    pub open spec fn wf(self) -> bool {
        &&& self.loader.wf()
        &&& match self.binary {
            BinaryType::Module(m) => m < self.loader.module_cache.modules.binaries@.len(),
            BinaryType::Script(s) => s < self.loader.scripts.scripts.binaries@.len(),
        }
    }

    /// A resolver over a published module.
    pub fn for_module(loader: &'a Loader, midx: usize) -> (r: Resolver<'a>)
        requires
            loader.wf(),
            midx < loader.module_cache.modules.binaries@.len(),
        ensures
            r.wf(),
            r.binary == BinaryType::Module(midx),
            r.loader == loader,
    {
        Resolver { loader, binary: BinaryType::Module(midx) }
    }

    /// A resolver over a cached script.
    pub fn for_script(loader: &'a Loader, sidx: usize) -> (r: Resolver<'a>)
        requires
            loader.wf(),
            sidx < loader.scripts.scripts.binaries@.len(),
        ensures
            r.wf(),
            r.binary == BinaryType::Script(sidx),
            r.loader == loader,
    {
        Resolver { loader, binary: BinaryType::Script(sidx) }
    }

    /// The module the resolver is looking at.
    pub open spec fn spec_module(self) -> crate::module::Module
        recommends
            self.binary is Module,
    {
        self.loader.module_cache.modules.binaries@[self.binary->Module_0 as int]
    }

    /// The script the resolver is looking at.
    pub open spec fn spec_script(self) -> crate::script::Script
        recommends
            self.binary is Script,
    {
        self.loader.scripts.scripts.binaries@[self.binary->Script_0 as int]
    }

    /// The constant at an index of the binary's constant pool.
    pub fn constant_at(&self, idx: usize) -> (r: &Constant)
        requires
            self.wf(),
            match self.binary {
                BinaryType::Module(_) => idx < self.spec_module().code.constants@.len(),
                BinaryType::Script(_) => idx < self.spec_script().code.constants@.len(),
            },
        ensures
            self.binary is Module ==> *r == self.spec_module().code.constants@[idx as int],
            self.binary is Script ==> *r == self.spec_script().code.constants@[idx as int],
    {
        match self.binary {
            BinaryType::Module(m) => &self.loader.module_cache.module_value_at(m).code.constants[idx],
            BinaryType::Script(s) => &self.loader.scripts.script_at(s).code.constants[idx],
        }
    }

    /// The function a function handle of the binary names.
    pub fn function_from_handle(&self, idx: usize) -> (r: &Function)
        requires
            self.wf(),
            match self.binary {
                BinaryType::Module(_) => idx < self.spec_module().function_refs@.len(),
                BinaryType::Script(_) => idx < self.spec_script().function_refs@.len(),
            },
        ensures
            self.binary is Module ==> *r == self.loader.module_cache.functions@[self.spec_module().function_refs@[idx as int] as int],
            self.binary is Script ==> *r == self.loader.module_cache.functions@[self.spec_script().function_refs@[idx as int] as int],
    {
        let gidx = match self.binary {
            BinaryType::Module(m) => {
                proof {
                    assert(self.spec_module().wf(
                        self.loader.module_cache.structs@.len() as int,
                        self.loader.module_cache.functions@.len() as int,
                    ));
                }
                self.loader.module_cache.module_value_at(m).function_at(idx)
            }
            BinaryType::Script(s) => {
                proof {
                    assert(self.spec_script().wf(
                        self.loader.module_cache.structs@.len() as int,
                        self.loader.module_cache.functions@.len() as int,
                    ));
                }
                self.loader.scripts.script_at(s).function_at(idx)
            }
        };
        self.loader.module_cache.function_at(gidx)
    }

    /// The function instantiation at an index of the binary.
    pub fn function_instantiation_at(&self, idx: usize) -> (r: &FunctionInstRt)
        requires
            self.wf(),
            match self.binary {
                BinaryType::Module(_) => idx < self.spec_module().function_instantiations@.len(),
                BinaryType::Script(_) => idx < self.spec_script().function_instantiations@.len(),
            },
        ensures
            self.binary is Module ==> *r == self.spec_module().function_instantiations@[idx as int],
            self.binary is Script ==> *r == self.spec_script().function_instantiations@[idx as int],
    {
        match self.binary {
            BinaryType::Module(m) => self.loader.module_cache.module_value_at(
                m,
            ).function_instantiation_at(idx),
            BinaryType::Script(s) => self.loader.scripts.script_at(s).function_instantiation_at(
                idx,
            ),
        }
    }

    /// The function a function instantiation of the binary names.
    pub fn function_from_instantiation(&self, idx: usize) -> (r: &Function)
        requires
            self.wf(),
            match self.binary {
                BinaryType::Module(_) => idx < self.spec_module().function_instantiations@.len(),
                BinaryType::Script(_) => idx < self.spec_script().function_instantiations@.len(),
            },
        ensures
            self.binary is Module ==> *r == self.loader.module_cache.functions@[self.spec_module().function_instantiations@[idx as int].handle as int],
            self.binary is Script ==> *r == self.loader.module_cache.functions@[self.spec_script().function_instantiations@[idx as int].handle as int],
    {
        let handle = self.function_instantiation_at(idx).handle;
        proof {
            match self.binary {
                BinaryType::Module(m) => {
                    assert(self.spec_module().wf(
                        self.loader.module_cache.structs@.len() as int,
                        self.loader.module_cache.functions@.len() as int,
                    ));
                }
                BinaryType::Script(s) => {
                    assert(self.spec_script().wf(
                        self.loader.module_cache.structs@.len() as int,
                        self.loader.module_cache.functions@.len() as int,
                    ));
                }
            }
        }
        self.loader.module_cache.function_at(handle)
    }

    /// The type arguments of a generic function call, instantiated with the
    /// caller's own type arguments.
    #[verifier::loop_isolation(false)]
    pub fn instantiate_generic_function(&self, idx: usize, type_params: &Vec<Type>) -> (r: Result<
        Vec<Type>,
        StatusCode,
    >)
        requires
            self.wf(),
            match self.binary {
                BinaryType::Module(_) => idx < self.spec_module().function_instantiations@.len(),
                BinaryType::Script(_) => idx < self.spec_script().function_instantiations@.len(),
            },
        ensures
            r matches Ok(ts) ==> {
                let inst = if self.binary is Module {
                    self.spec_module().function_instantiations@[idx as int]
                } else {
                    self.spec_script().function_instantiations@[idx as int]
                };
                ts@.len() == inst.instantiation@.len() && forall|j: int|
                    0 <= j < ts@.len() ==> (#[trigger] ts@[j])@ == subst_v(
                        inst.instantiation@[j]@,
                        type_views(type_params@),
                    )
            },
            self.binary is Module ==> (r is Ok <==> forall|j: int|
                0 <= j < self.spec_module().function_instantiations@[idx as int].instantiation@.len()
                    ==> params_wf(
                    (#[trigger] self.spec_module().function_instantiations@[idx as int].instantiation@[j])@,
                    type_params@.len() as int,
                )),
            self.binary is Script ==> (r is Ok <==> forall|j: int|
                0 <= j < self.spec_script().function_instantiations@[idx as int].instantiation@.len()
                    ==> params_wf(
                    (#[trigger] self.spec_script().function_instantiations@[idx as int].instantiation@[j])@,
                    type_params@.len() as int,
                )),
            r matches Err(e) ==> e == StatusCode::UnknownInvariantViolation,
    {
        let inst = self.function_instantiation_at(idx);
        let mut out: Vec<Type> = Vec::new();
        let mut j: usize = 0;
        while j < inst.instantiation.len()
            invariant
                0 <= j <= inst.instantiation@.len(),
                out@.len() == j,
                forall|k: int|
                    0 <= k < j ==> (#[trigger] out@[k])@ == subst_v(
                        inst.instantiation@[k]@,
                        type_views(type_params@),
                    ),
                forall|k: int|
                    0 <= k < j ==> params_wf(
                        (#[trigger] inst.instantiation@[k])@,
                        type_params@.len() as int,
                    ),
            decreases inst.instantiation@.len() - j,
        {
            match inst.instantiation[j].subst(type_params) {
                Ok(t) => {
                    out.push(t);
                }
                Err(()) => {
                    proof {
                        let instv = if self.binary is Module {
                            self.spec_module().function_instantiations@[idx as int]
                        } else {
                            self.spec_script().function_instantiations@[idx as int]
                        };
                        assert(*inst == instv);
                        assert(!params_wf(
                            instv.instantiation@[j as int]@,
                            type_params@.len() as int,
                        ));
                    }
                    return Err(StatusCode::UnknownInvariantViolation);
                }
            }
            j = j + 1;
        }
        Ok(out)
    }

    /// How many type arguments a generic function call takes.
    pub fn type_params_count(&self, idx: usize) -> (r: usize)
        requires
            self.wf(),
            match self.binary {
                BinaryType::Module(_) => idx < self.spec_module().function_instantiations@.len(),
                BinaryType::Script(_) => idx < self.spec_script().function_instantiations@.len(),
            },
        ensures
            self.binary is Module ==> r == self.spec_module().function_instantiations@[idx as int].instantiation@.len(),
            self.binary is Script ==> r == self.spec_script().function_instantiations@[idx as int].instantiation@.len(),
    {
        self.function_instantiation_at(idx).instantiation.len()
    }

    /// The runtime type of a struct definition.  Scripts declare no structs.
    pub fn get_struct_type(&self, idx: usize) -> (r: Type)
        requires
            self.wf(),
            self.binary is Module,
            idx < self.spec_module().structs@.len(),
        ensures
            r == Type::Struct(self.spec_module().structs@[idx as int].idx),
    {
        match self.binary {
            BinaryType::Module(m) => Type::Struct(
                self.loader.module_cache.module_value_at(m).struct_at(idx),
            ),
            BinaryType::Script(_) => unreached(),
        }
    }

    /// The runtime type of a struct instantiation, instantiated with the
    /// caller's type arguments.  Scripts declare no structs.
    #[verifier::loop_isolation(false)]
    pub fn instantiate_generic_type(&self, idx: usize, ty_args: &Vec<Type>) -> (r: Result<
        Type,
        StatusCode,
    >)
        requires
            self.wf(),
            self.binary is Module,
            idx < self.spec_module().struct_instantiations@.len(),
        ensures
            r matches Ok(t) ==> {
                let inst = self.spec_module().struct_instantiations@[idx as int];
                t matches Type::StructInstantiation(g, ts) && g == inst.def && ts@.len()
                    == inst.instantiation@.len() && forall|j: int|
                    0 <= j < ts@.len() ==> (#[trigger] ts@[j])@ == subst_v(
                        inst.instantiation@[j]@,
                        type_views(ty_args@),
                    )
            },
            r is Ok <==> forall|j: int|
                0 <= j < self.spec_module().struct_instantiations@[idx as int].instantiation@.len()
                    ==> params_wf(
                    (#[trigger] self.spec_module().struct_instantiations@[idx as int].instantiation@[j])@,
                    ty_args@.len() as int,
                ),
            r matches Err(e) ==> e == StatusCode::UnknownInvariantViolation,
    {
        let m = match self.binary {
            BinaryType::Module(m) => m,
            BinaryType::Script(_) => unreached(),
        };
        let inst = self.loader.module_cache.module_value_at(m).struct_instantiation_at(idx);
        let mut out: Vec<Type> = Vec::new();
        let mut j: usize = 0;
        while j < inst.instantiation.len()
            invariant
                0 <= j <= inst.instantiation@.len(),
                out@.len() == j,
                forall|k: int|
                    0 <= k < j ==> (#[trigger] out@[k])@ == subst_v(
                        inst.instantiation@[k]@,
                        type_views(ty_args@),
                    ),
                forall|k: int|
                    0 <= k < j ==> params_wf(
                        (#[trigger] inst.instantiation@[k])@,
                        ty_args@.len() as int,
                    ),
            decreases inst.instantiation@.len() - j,
        {
            match inst.instantiation[j].subst(ty_args) {
                Ok(t) => {
                    out.push(t);
                }
                Err(()) => {
                    proof {
                        let instv = self.spec_module().struct_instantiations@[idx as int];
                        assert(*inst == instv);
                        assert(!params_wf(instv.instantiation@[j as int]@, ty_args@.len() as int));
                    }
                    return Err(StatusCode::UnknownInvariantViolation);
                }
            }
            j = j + 1;
        }
        Ok(Type::StructInstantiation(inst.def, out))
    }

    /// The pre-translated element type of a vector instruction's signature.
    pub fn single_type_at(&self, idx: usize) -> (r: &Type)
        requires
            self.wf(),
            match self.binary {
                BinaryType::Module(_) => idx < self.spec_module().single_signature_token_map@.len()
                    && self.spec_module().single_signature_token_map@[idx as int] is Some,
                BinaryType::Script(_) => idx < self.spec_script().single_signature_token_map@.len()
                    && self.spec_script().single_signature_token_map@[idx as int] is Some,
            },
        ensures
            self.binary is Module ==> Some(*r) == self.spec_module().single_signature_token_map@[
                idx as int
            ],
            self.binary is Script ==> Some(*r) == self.spec_script().single_signature_token_map@[
                idx as int
            ],
    {
        match self.binary {
            BinaryType::Module(m) => self.loader.module_cache.module_value_at(m).single_type_at(
                idx,
            ),
            BinaryType::Script(s) => self.loader.scripts.script_at(s).single_type_at(idx),
        }
    }

    /// The element type of a vector instruction, instantiated with the
    /// caller's type arguments.
    pub fn instantiate_single_type(&self, idx: usize, ty_args: &Vec<Type>) -> (r: Result<
        Type,
        StatusCode,
    >)
        requires
            self.wf(),
            match self.binary {
                BinaryType::Module(_) => idx < self.spec_module().single_signature_token_map@.len()
                    && self.spec_module().single_signature_token_map@[idx as int] is Some,
                BinaryType::Script(_) => idx < self.spec_script().single_signature_token_map@.len()
                    && self.spec_script().single_signature_token_map@[idx as int] is Some,
            },
        ensures
            self.binary is Module ==> {
                let single = self.spec_module().single_signature_token_map@[idx as int]->Some_0;
                &&& (r is Ok <==> params_wf(single@, ty_args@.len() as int))
                &&& (r matches Ok(t) ==> t@ == subst_v(single@, type_views(ty_args@)))
            },
            self.binary is Script ==> {
                let single = self.spec_script().single_signature_token_map@[idx as int]->Some_0;
                &&& (r is Ok <==> params_wf(single@, ty_args@.len() as int))
                &&& (r matches Ok(t) ==> t@ == subst_v(single@, type_views(ty_args@)))
            },
            r matches Err(e) ==> e == StatusCode::UnknownInvariantViolation,
    {
        let ty = self.single_type_at(idx);
        match ty.subst(ty_args) {
            Ok(t) => Ok(t),
            Err(()) => Err(StatusCode::UnknownInvariantViolation),
        }
    }

    /// The offset of a field handle.  Scripts have no field instructions.
    pub fn field_offset(&self, idx: usize) -> (r: usize)
        requires
            self.wf(),
            self.binary is Module,
            idx < self.spec_module().field_handles@.len(),
        ensures
            r == self.spec_module().field_handles@[idx as int].offset,
    {
        match self.binary {
            BinaryType::Module(m) => self.loader.module_cache.module_value_at(m).field_offset(idx),
            BinaryType::Script(_) => unreached(),
        }
    }

    /// The offset of a field instantiation.
    pub fn field_instantiation_offset(&self, idx: usize) -> (r: usize)
        requires
            self.wf(),
            self.binary is Module,
            idx < self.spec_module().field_instantiations@.len(),
        ensures
            r == self.spec_module().field_instantiations@[idx as int].offset,
    {
        match self.binary {
            BinaryType::Module(m) => self.loader.module_cache.module_value_at(
                m,
            ).field_instantiation_offset(idx),
            BinaryType::Script(_) => unreached(),
        }
    }

    /// The field count of a struct definition.
    pub fn field_count(&self, idx: usize) -> (r: u16)
        requires
            self.wf(),
            self.binary is Module,
            idx < self.spec_module().structs@.len(),
        ensures
            r == self.spec_module().structs@[idx as int].field_count,
    {
        match self.binary {
            BinaryType::Module(m) => self.loader.module_cache.module_value_at(m).field_count(idx),
            BinaryType::Script(_) => unreached(),
        }
    }

    /// The field count of a struct instantiation.
    pub fn field_instantiation_count(&self, idx: usize) -> (r: u16)
        requires
            self.wf(),
            self.binary is Module,
            idx < self.spec_module().struct_instantiations@.len(),
        ensures
            r == self.spec_module().struct_instantiations@[idx as int].field_count,
    {
        match self.binary {
            BinaryType::Module(m) => self.loader.module_cache.module_value_at(
                m,
            ).field_instantiation_count(idx),
            BinaryType::Script(_) => unreached(),
        }
    }

    /// The loader behind this resolver.
    pub fn loader(&self) -> (r: &'a Loader)
        ensures
            r == self.loader,
    {
        self.loader
    }
}

impl Function {
    /// A resolver over this function's owner, or nothing when the owner is
    /// not cached (which cannot happen for a function the loader handed
    /// out).
    pub fn get_resolver<'a>(&self, loader: &'a Loader) -> (r: Option<Resolver<'a>>)
        requires
            loader.wf(),
        ensures
            r matches Some(res) ==> res.wf() && res.loader == loader,
            r is Some <==> match self.scope {
                crate::function::Scope::Module(mid) => loader.module_cache.modules.spec_contains_key(
                    mid@,
                ),
                crate::function::Scope::Script(h) => loader.scripts.scripts.spec_contains_key(h@),
            },
    {
        match &self.scope {
            crate::function::Scope::Module(mid) => match loader.module_cache.module_at(mid) {
                Some(idx) => Some(Resolver::for_module(loader, idx)),
                None => None,
            },
            crate::function::Scope::Script(h) => match loader.scripts.get(h) {
                Some(idx) => Some(Resolver::for_script(loader, idx)),
                None => None,
            },
        }
    }
}

} // verus!
