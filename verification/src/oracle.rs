//! The loader's outside collaborators, specified only by interface: the
//! persistent data store that serves raw module bytes, and the format
//! library with its bytecode verifier.  The loader promises nothing about
//! what these return and handles every outcome; implementations are supplied
//! by the host.
//!
//! The native function registry, by contrast, is a concrete table owned by
//! the loader.

use vstd::prelude::*;

use crate::code::{ModuleCode, ScriptCode};
use crate::errors::VmError;
use crate::ids::{bytes_eq, ModuleId};

verus! {

/// The persistent data store: serves the raw bytes of a published module.
pub trait DataStore {
    /// The raw bytes of the module `id`, or an error when the store does not
    /// hold it.
    fn load_module(&self, id: &ModuleId) -> Result<Vec<u8>, VmError>;
}

/// The external format library and bytecode verifier, treated as an oracle:
/// the loader trusts no answer and re-checks whatever it relies on.
pub trait FormatOracle {
    /// Decodes module bytes.
    fn deserialize_module(&self, bytes: &Vec<u8>) -> Result<ModuleCode, VmError>;

    /// Decodes script bytes.
    fn deserialize_script(&self, bytes: &Vec<u8>) -> Result<ScriptCode, VmError>;

    /// The single-module verification pass.
    fn verify_module(&self, module: &ModuleCode) -> Result<(), VmError>;

    /// The single-script verification pass.
    fn verify_script(&self, script: &ScriptCode) -> Result<(), VmError>;

    /// The linking pass: the module's usage of its immediate dependencies
    /// matches their declarations.
    fn verify_module_dependencies(&self, module: &ModuleCode, deps: &Vec<&ModuleCode>) -> Result<
        (),
        VmError,
    >;

    /// The linking pass for a script.
    fn verify_script_dependencies(&self, script: &ScriptCode, deps: &Vec<&ModuleCode>) -> Result<
        (),
        VmError,
    >;

    /// The cyclic-relation pass: no dependency or friend cycle through
    /// `module`, given the known immediate dependencies and friends of every
    /// reachable module.
    fn verify_cyclic(&self, module: &ModuleCode, relations: &Vec<ModuleRelations>) -> Result<
        (),
        VmError,
    >;
}

/// The immediate dependencies and friends of one module, as handed to the
/// cyclic-relation pass.
pub struct ModuleRelations {
    pub id: ModuleId,
    pub deps: Vec<ModuleId>,
    pub friends: Vec<ModuleId>,
}

/// An opaque handle to a host callback implementing a native function.
#[derive(Clone, Copy, PartialEq, Eq, Structural, Debug)]
pub struct NativeFunctionHandle {
    pub token: u64,
}

/// The native function registry: a table from (address, module name,
/// function name) to a host callback handle.
pub struct NativeFunctions {
    pub entries: Vec<(ModuleId, Vec<u8>, NativeFunctionHandle)>,
}

impl NativeFunctions {
    /// Whether the registry binds the named function of the named module.
    pub open spec fn spec_resolve(
        self,
        module: crate::ids::ModuleIdV,
        name: Seq<u8>,
    ) -> Option<NativeFunctionHandle> {
        if exists|i: int|
            0 <= i < self.entries@.len() && (#[trigger] self.entries@[i]).0@ == module
                && self.entries@[i].1@ == name {
            let i = choose|i: int|
                0 <= i < self.entries@.len() && (#[trigger] self.entries@[i]).0@ == module
                    && self.entries@[i].1@ == name;
            Some(self.entries@[i].2)
        } else {
            None
        }
    }

    /// An empty registry.
    pub fn new() -> (r: NativeFunctions)
        ensures
            r.entries@.len() == 0,
    {
        NativeFunctions { entries: Vec::new() }
    }

    /// Adds a binding.
    pub fn add(&mut self, module: ModuleId, name: Vec<u8>, handle: NativeFunctionHandle)
        ensures
            final(self).entries@ == old(self).entries@.push((module, name, handle)),
    {
        self.entries.push((module, name, handle));
    }

    /// Looks the named function up.
    pub fn resolve(&self, module: &ModuleId, name: &Vec<u8>) -> (r: Option<NativeFunctionHandle>)
        ensures
            r is Some <==> self.spec_resolve(module@, name@) is Some,
            r matches Some(h) ==> exists|i: int|
                0 <= i < self.entries@.len() && (#[trigger] self.entries@[i]).0@ == module@
                    && self.entries@[i].1@ == name@ && self.entries@[i].2 == h,
    {
        let mut i: usize = 0;
        while i < self.entries.len()
            invariant
                0 <= i <= self.entries@.len(),
                forall|j: int|
                    0 <= j < i ==> !((#[trigger] self.entries@[j]).0@ == module@
                        && self.entries@[j].1@ == name@),
            decreases self.entries@.len() - i,
        {
            if self.entries[i].0.id_eq(module) && bytes_eq(&self.entries[i].1, name) {
                return Some(self.entries[i].2);
            }
            i = i + 1;
        }
        None
    }
}

} // verus!
