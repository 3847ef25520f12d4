use vstd::prelude::*;
use crate::compat::CompatReason;

verus! {

/// Failure of a cache load: the module is not in the store, or its stored
/// bytes do not decode and verify.
#[derive(Copy, Clone, PartialEq, Eq, Structural, Debug)]
pub enum LoadError {
    NotFound,
    Invalid,
}

/// Why a bundle publication was rejected. Each variant carries the position of
/// the offending candidate in the bundle, in submission order.
#[derive(Debug, Clone, PartialEq, Eq)]
pub enum PublishError {
    MalformedModule { index: usize },
    AddressMismatch { index: usize },
    DuplicateModuleInBundle { index: usize },
    OnlyNewModulesAllowed { index: usize },
    IncompatibleUpdate { index: usize, reasons: Vec<CompatReason> },
    BundleVerificationFailed { index: usize },
    LoadInvalid { index: usize },
}

/// Failure of a gas-metered native operation; both kinds are charged before
/// they are returned.
#[derive(Copy, Clone, PartialEq, Eq, Structural, Debug)]
pub enum NativeFailure {
    OutOfGas,
    SerializationUnsupported,
}

/// Why entry-point argument verification rejected a call.
#[derive(Copy, Clone, PartialEq, Eq, Structural, Debug)]
pub enum VerifyError {
    InvalidScript,
    ModuleNotFound,
    ModuleInvalid,
    FunctionNotFound,
    SignerCountMismatch { expected: usize, actual: usize },
    SignerParameterOrderError { pos: usize },
    ArgumentDeserializationError { pos: usize },
}

} // verus!
