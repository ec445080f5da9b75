//! Runtime functions: one global record per module-declared function, plus
//! one synthetic record per script entry point.  A function's signatures and
//! body are reached through indices into its owner's tables, never copied.

use vstd::prelude::*;

use crate::abilities::AbilitySet;
use crate::code::{FunctionDef, ModuleCode};
use crate::ids::{clone_bytes, ModuleId};
use crate::oracle::{NativeFunctionHandle, NativeFunctions};

verus! {

broadcast use vstd::std_specs::vec::group_vec_axioms;

/// Who owns a function: a published module, or a script identified by the
/// hash of its bytes.
#[derive(Debug)]
pub enum Scope {
    Module(ModuleId),
    Script(Vec<u8>),
}

/// A runtime function.
#[derive(Debug)]
pub struct Function {
    /// The binary format version of the owning module or script.
    pub file_format_version: u32,
    /// The function definition index inside the owning module; zero for a
    /// script entry point.
    pub index: usize,
    /// The owner.
    pub scope: Scope,
    /// The function's name; a script entry point is called `main`.
    pub name: Vec<u8>,
    /// Index into the owner's signature table: the parameter list.
    pub parameters: usize,
    /// Index into the owner's signature table: the return list.
    pub return_: usize,
    /// How many parameters the function takes.
    pub arg_count: usize,
    /// How many locals its body has, parameters included; zero for a native
    /// function.
    pub local_count: usize,
    /// The ability constraints of the declared type parameters.
    pub type_parameters: Vec<AbilitySet>,
    /// The host callback, for a native function.
    pub native: Option<NativeFunctionHandle>,
}

impl Function {
    /// Builds the runtime record of the function declared by `def` inside
    /// `module`.  A native function is resolved against the registry; one
    /// the registry does not know stays unbound here, because the loader
    /// rejects such a module in its own checking pass.
    pub fn new(natives: &NativeFunctions, index: usize, def: &FunctionDef, module: &ModuleCode) -> (r:
        Function)
        requires
            module.wf(),
            index < module.function_defs@.len(),
            *def == module.function_defs@[index as int],
        ensures
            r.index == index,
            r.scope matches Scope::Module(mid) && mid@ == module.spec_self_id(),
            r.name@ == module.function_handles@[def.function as int].name@,
            r.parameters == module.function_handles@[def.function as int].parameters,
            r.return_ == module.function_handles@[def.function as int].return_,
            r.type_parameters@ == module.function_handles@[def.function as int].type_parameters@,
            r.arg_count == module.signatures@[r.parameters as int]@.len(),
            r.file_format_version == module.version,
            def.code is None ==> r.local_count == 0,
            def.code matches Some(c) ==> r.local_count == module.signatures@[r.parameters as int]@.len()
                + module.signatures@[c.locals as int]@.len(),
            def.is_native ==> (r.native is Some <==> natives.spec_resolve(
                module.spec_self_id(),
                module.function_handles@[def.function as int].name@,
            ) is Some),
            !def.is_native ==> r.native is None,
    {
        let handle = &module.function_handles[def.function];
        let name = clone_bytes(&handle.name);
        let self_id = module.self_id().duplicate();
        let native = if def.is_native {
            natives.resolve(&self_id, &name)
        } else {
            None
        };
        let arg_count = module.signatures[handle.parameters].len();
        let local_count = match &def.code {
            Some(c) => arg_count + module.signatures[c.locals].len(),
            None => 0,
        };
        let mut type_parameters: Vec<AbilitySet> = Vec::new();
        let mut i: usize = 0;
        while i < handle.type_parameters.len()
            invariant
                0 <= i <= handle.type_parameters@.len(),
                type_parameters@ == handle.type_parameters@.subrange(0, i as int),
            decreases handle.type_parameters@.len() - i,
        {
            type_parameters.push(handle.type_parameters[i]);
            assert(type_parameters@ =~= handle.type_parameters@.subrange(0, i + 1 as int));
            i = i + 1;
        }
        proof {
            assert(type_parameters@ =~= handle.type_parameters@);
        }
        Function {
            file_format_version: module.version,
            index,
            scope: Scope::Module(self_id),
            name,
            parameters: handle.parameters,
            return_: handle.return_,
            arg_count,
            local_count,
            type_parameters,
            native,
        }
    }

    /// The identity of the owning module, if the owner is a module.
    pub fn module_id(&self) -> (r: Option<&ModuleId>)
        ensures
            self.scope matches Scope::Module(mid) ==> (r matches Some(v) && *v == mid),
            self.scope is Script ==> r is None,
    {
        match &self.scope {
            Scope::Module(mid) => Some(mid),
            Scope::Script(_) => None,
        }
    }

    /// The format version of the owner.
    pub fn file_format_version(&self) -> (r: u32)
        ensures
            r == self.file_format_version,
    {
        self.file_format_version
    }

    /// The function definition index inside the owner.
    pub fn index(&self) -> (r: usize)
        ensures
            r == self.index,
    {
        self.index
    }

    /// How many locals the body has, parameters included.
    pub fn local_count(&self) -> (r: usize)
        ensures
            r == self.local_count,
    {
        self.local_count
    }

    /// How many parameters the function takes.
    pub fn arg_count(&self) -> (r: usize)
        ensures
            r == self.arg_count,
    {
        self.arg_count
    }

    /// The function's name.
    pub fn name(&self) -> (r: &Vec<u8>)
        ensures
            r@ == self.name@,
    {
        &self.name
    }

    /// The ability constraints of the declared type parameters.
    pub fn type_parameters(&self) -> (r: &Vec<AbilitySet>)
        ensures
            r@ == self.type_parameters@,
    {
        &self.type_parameters
    }

    /// Whether the function is bound to a host callback.
    pub fn is_native(&self) -> (r: bool)
        ensures
            r == (self.native is Some),
    {
        self.native.is_some()
    }

    /// The printable name of the function, as bytes: the owning module's
    /// address in hexadecimal and the module and function names, or
    /// `Script::main` for a script entry point.
    #[verifier::loop_isolation(false)]
    pub fn pretty_string(&self) -> (r: Vec<u8>)
    {
        match &self.scope {
            Scope::Script(_) => {
                let mut out: Vec<u8> = Vec::new();
                push_all(&mut out, 83u8, 99u8, 114u8, 105u8);
                push_all(&mut out, 112u8, 116u8, 58u8, 58u8);
                push_all(&mut out, 109u8, 97u8, 105u8, 110u8);
                out
            }
            Scope::Module(mid) => {
                let mut out: Vec<u8> = Vec::new();
                out.push(48u8);
                out.push(120u8);
                let mut i: usize = 0;
                while i < mid.address.len()
                    decreases mid.address@.len() - i,
                {
                    let b = mid.address[i];
                    out.push(hex_digit(b / 16));
                    out.push(hex_digit(b % 16));
                    i = i + 1;
                }
                out.push(58u8);
                out.push(58u8);
                let mut i: usize = 0;
                while i < mid.name.len()
                    decreases mid.name@.len() - i,
                {
                    out.push(mid.name[i]);
                    i = i + 1;
                }
                out.push(58u8);
                out.push(58u8);
                let mut i: usize = 0;
                while i < self.name.len()
                    decreases self.name@.len() - i,
                {
                    out.push(self.name[i]);
                    i = i + 1;
                }
                out
            }
        }
    }

    /// The host callback handle; an error if the function is not native.
    pub fn get_native(&self) -> (r: Result<NativeFunctionHandle, crate::errors::StatusCode>)
        ensures
            self.native matches Some(h) ==> r == Ok::<_, crate::errors::StatusCode>(h),
            self.native is None ==> r == Err::<NativeFunctionHandle, _>(
                crate::errors::StatusCode::Unreachable,
            ),
    {
        match self.native {
            Some(h) => Ok(h),
            None => Err(crate::errors::StatusCode::Unreachable),
        }
    }
}

/// The lower-case hexadecimal digit of a value below sixteen.
fn hex_digit(v: u8) -> (r: u8)
    requires
        v < 16,
    ensures
        v < 10 ==> r == 48 + v,
        v >= 10 ==> r == 87 + v,
{
    if v < 10 {
        48 + v
    } else {
        87 + v
    }
}

/// Pushes four bytes.
fn push_all(out: &mut Vec<u8>, a: u8, b: u8, c: u8, d: u8)
    ensures
        final(out)@ == old(out)@.push(a).push(b).push(c).push(d),
{
    out.push(a);
    out.push(b);
    out.push(c);
    out.push(d);
}

} // verus!
