//! The loader's error model: a status, a location, and the policy that
//! upgrades unexpected verification failures on already-stored code to
//! invariant violations.

use vstd::prelude::*;

use crate::ids::ModuleId;

verus! {

/// What went wrong.
#[derive(Clone, Copy, PartialEq, Eq, Structural, Debug)]
pub enum StatusCode {
    /// Bytes failed format decoding, or decoded to an ill-formed module.
    CodeDeserializationError,
    /// A single-module, script, dependency or friend check failed.
    VerificationError,
    /// A required module could not be found.
    MissingDependency,
    /// A struct name is not declared by the cached module it was sought in.
    TypeResolutionFailure,
    /// A function name is not declared by the cached module it was sought in.
    FunctionResolutionFailure,
    /// A supplied type argument lacks a required ability.
    ConstraintNotSatisfied,
    /// The number of supplied type arguments differs from the declared count.
    NumberOfTypeArgumentsMismatch,
    /// A cycle was met while recursively loading dependencies.
    CyclicModuleDependency,
    /// Type layout recursion went past the maximum value depth.
    VmMaxValueDepthReached,
    /// The transitive closure being loaded went past the loader's nesting
    /// budget (a machine limit, not a property of the modules).
    DependencyLimitReached,
    /// A code path that translated types from external tags saw a type
    /// parameter, which cannot survive instantiation.
    Unreachable,
    /// The bytecode verifier let something through that it must reject, such
    /// as a vector instruction whose signature is not a single token.
    VerifierInvariantViolation,
    /// An internal invariant broke in some other way.
    UnknownInvariantViolation,
    /// A verification failure on bytes that were already accepted into the
    /// store: the store must only hold well-formed code.
    UnexpectedVerifierError,
    /// A deserialization failure on bytes that were already accepted into
    /// the store.
    UnexpectedDeserializationError,
}

impl StatusCode {
    /// The statuses that report a verification failure.
    pub open spec fn is_verification(self) -> bool {
        ||| self == StatusCode::VerificationError
        ||| self == StatusCode::MissingDependency
        ||| self == StatusCode::TypeResolutionFailure
        ||| self == StatusCode::FunctionResolutionFailure
        ||| self == StatusCode::ConstraintNotSatisfied
        ||| self == StatusCode::NumberOfTypeArgumentsMismatch
        ||| self == StatusCode::CyclicModuleDependency
    }

    /// The statuses that report a deserialization failure.
    pub open spec fn is_deserialization(self) -> bool {
        self == StatusCode::CodeDeserializationError
    }
}

/// Where an error arose.
#[derive(Debug)]
pub enum Location {
    Undefined,
    Script,
    Module(ModuleId),
}

/// An error surfaced to the loader's callers.
#[derive(Debug)]
pub struct VmError {
    pub status: StatusCode,
    pub location: Location,
}

impl VmError {
    /// An error with an undefined location.
    pub fn undefined(status: StatusCode) -> (r: VmError)
        ensures
            r.status == status,
            r.location is Undefined,
    {
        VmError { status, location: Location::Undefined }
    }

    /// An error located in the script being processed.
    pub fn in_script(status: StatusCode) -> (r: VmError)
        ensures
            r.status == status,
            r.location is Script,
    {
        VmError { status, location: Location::Script }
    }

    /// An error located in a module.
    pub fn in_module(status: StatusCode, id: ModuleId) -> (r: VmError)
        ensures
            r.status == status,
            r.location == Location::Module(id),
    {
        VmError { status, location: Location::Module(id) }
    }
}

/// The status a given status turns into when it arises while processing
/// bytes that were already in the data store: verification and
/// deserialization failures are upgraded to invariant violations, everything
/// else passes through.
pub open spec fn spec_upgraded_status(status: StatusCode) -> StatusCode {
    if status.is_verification() {
        StatusCode::UnexpectedVerifierError
    } else if status.is_deserialization() {
        StatusCode::UnexpectedDeserializationError
    } else {
        status
    }
}

/// Rewraps an error met while processing bytes already accepted into the
/// data store: such bytes must deserialize and verify, so a verification or
/// deserialization failure is an invariant violation, not a user error.
pub fn expect_no_verification_errors(err: VmError) -> (r: VmError)
    ensures
        r.status == spec_upgraded_status(err.status),
        r.location == err.location,
{
    let upgraded = match err.status {
        StatusCode::VerificationError => StatusCode::UnexpectedVerifierError,
        StatusCode::MissingDependency => StatusCode::UnexpectedVerifierError,
        StatusCode::TypeResolutionFailure => StatusCode::UnexpectedVerifierError,
        StatusCode::FunctionResolutionFailure => StatusCode::UnexpectedVerifierError,
        StatusCode::ConstraintNotSatisfied => StatusCode::UnexpectedVerifierError,
        StatusCode::NumberOfTypeArgumentsMismatch => StatusCode::UnexpectedVerifierError,
        StatusCode::CyclicModuleDependency => StatusCode::UnexpectedVerifierError,
        StatusCode::CodeDeserializationError => StatusCode::UnexpectedDeserializationError,
        other => other,
    };
    VmError { status: upgraded, location: err.location }
}

} // verus!
