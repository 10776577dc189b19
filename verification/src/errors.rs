//! Error types of the access-control registry.

use vstd::prelude::*;

verus! {

/// The recoverable errors an access-control operation can return.
///
/// Each is terminal for the operation that raised it: nothing of the
/// registry's state is changed on the error path.
#[derive(Clone, Copy, Debug, PartialEq, Eq, Structural)]
pub enum AccessControlError {
    /// The registry has no admin yet: `initialize` has not run.
    NotInitialized,
    /// The caller is not authorized for the operation.
    Unauthorized,
    /// Reserved for an invalid role; no current rule raises it.
    InvalidRole,
    /// The target already holds the role being granted.
    RoleAlreadyAssigned,
    /// The target does not hold the role being revoked.
    RoleNotAssigned,
    /// The admin tried to revoke their own `Admin` role.
    CannotRevokeSelfAdmin,
}

impl AccessControlError {
    /// The stable numeric code of each error, as a host reports it.
    pub open spec fn spec_code(self) -> u32 {
        match self {
            AccessControlError::NotInitialized => 1,
            AccessControlError::Unauthorized => 2,
            AccessControlError::InvalidRole => 3,
            AccessControlError::RoleAlreadyAssigned => 4,
            AccessControlError::RoleNotAssigned => 5,
            AccessControlError::CannotRevokeSelfAdmin => 6,
        }
    }

    /// The stable numeric code of this error.
    pub fn code(&self) -> (out: u32)
        ensures
            out == self.spec_code(),
    {
        match self {
            AccessControlError::NotInitialized => 1,
            AccessControlError::Unauthorized => 2,
            AccessControlError::InvalidRole => 3,
            AccessControlError::RoleAlreadyAssigned => 4,
            AccessControlError::RoleNotAssigned => 5,
            AccessControlError::CannotRevokeSelfAdmin => 6,
        }
    }
}

/// The fatal condition raised by a second `initialize` on the same registry.
///
/// Kept apart from [`AccessControlError`]: a double initialization is a
/// deployment mistake, not a runtime business condition, and a host reports
/// it as a hard failure rather than a recoverable error code.
#[derive(Clone, Copy, Debug, PartialEq, Eq, Structural)]
pub struct AlreadyInitialized;

} // verus!
