use vstd::prelude::*;

verus! {

/// The failures that the library reports to its callers.
#[derive(Clone, Copy, Debug, PartialEq, Eq, Structural)]
pub enum AppError {
    /// Malformed or out-of-range request data.
    InvalidInput,
    /// The entity is absent, or not owned by the caller.
    NotFound,
    /// A state-transition precondition does not hold.
    Conflict,
    /// No valid identity was presented.
    Unauthorized,
    /// The identity's role does not allow the operation.
    Forbidden,
    /// A storage or representation failure.
    Internal,
}

} // verus!
