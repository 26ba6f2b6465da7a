use vstd::prelude::*;

verus! {

/// Failures of the state machine's operations.
#[derive(Clone, Copy, Debug, PartialEq, Eq, Structural)]
pub enum ContractError {
    /// `instantiate` was asked of an instance that already holds state.
    AlreadyInitialized,
    /// A player with no recorded game was looked up.
    NotFound,
    /// The caller is not the owner recorded in the state.
    Unauthorized,
    /// The host store could not complete a read or a write.
    StorageFailure,
}

} // verus!
