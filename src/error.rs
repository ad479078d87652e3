use vstd::prelude::*;

verus! {

/// Why a call into the registry was refused. A refused call changes nothing.
#[derive(Debug, Clone, Copy, PartialEq, Eq, Structural)]
pub enum CivicError {
    /// The caller does not hold the role that the operation asks for.
    Unauthorized,
    /// A mutating operation was called while the registry is paused.
    OperationPaused,
    /// The token is missing, or is not owned by the identity named.
    NotFound,
    /// A token with that id exists already.
    AlreadyExists,
    /// The registry is not in a state that allows the call (constructed twice,
    /// or used before construction).
    InvalidState,
    /// `pause` while already paused.
    AlreadyPaused,
    /// `unpause` while not paused.
    AlreadyActive,
}

} // verus!
