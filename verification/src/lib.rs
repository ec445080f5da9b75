//! A verified loader for a resource-oriented bytecode virtual machine.
//!
//! The loader turns deserialized binary modules and one-shot scripts into
//! interconnected runtime artifacts: a global, content-addressed cache of
//! modules, structs and functions, plus per-module side tables that let an
//! interpreter resolve every bytecode index to a runtime entity in constant
//! time.  Deserialization and bytecode verification are performed by outside
//! collaborators reached through traits; everything the loader itself decides
//! is specified and proved here.

pub mod abilities;
pub mod cache;
pub mod code;
pub mod digest;
pub mod errors;
pub mod function;
pub mod ids;
pub mod loader;
pub mod module;
pub mod module_cache;
pub mod oracle;
pub mod resolver;
pub mod runtime_types;
pub mod script;
pub mod type_cache;
