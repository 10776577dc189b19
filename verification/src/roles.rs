//! Roles and per-principal role sets.

use vstd::prelude::*;

verus! {

/// One of the fixed, closed set of roles a principal may hold.
///
/// Roles are independent flags, not a hierarchy: holding `Admin` does not by
/// itself set any other flag. The one place admin privilege stands in for
/// another role is [`crate::registry::AccessControlContract::require_admin_or_role`],
/// which tests the two flags with an explicit OR.
#[derive(Clone, Copy, Debug, PartialEq, Eq, Structural)]
pub enum Role {
    /// Super administrator with all permissions.
    Admin,
    /// Regular user with limited permissions.
    User,
    /// Operator with elevated permissions for operations.
    Operator,
    /// Auditor with read-only access.
    Auditor,
}

/// The role flags one principal holds: one independent boolean per [`Role`].
///
/// A principal with no recorded set is treated as holding this struct with
/// every flag false (the lazy default), so an all-false set and an absent one
/// cannot be told apart.
#[derive(Clone, Copy, Debug, PartialEq, Eq, Structural)]
pub struct RoleSet {
    /// Flag for [`Role::Admin`].
    pub admin: bool,
    /// Flag for [`Role::User`].
    pub user: bool,
    /// Flag for [`Role::Operator`].
    pub operator: bool,
    /// Flag for [`Role::Auditor`].
    pub auditor: bool,
}

impl RoleSet {
    /// The flag this set holds for `role`.
    pub open spec fn spec_get(self, role: Role) -> bool {
        match role {
            Role::Admin => self.admin,
            Role::User => self.user,
            Role::Operator => self.operator,
            Role::Auditor => self.auditor,
        }
    }

    /// How many of the four flags are set.
    pub open spec fn count(self) -> nat {
        (if self.admin {
            1nat
        } else {
            0nat
        }) + (if self.user {
            1nat
        } else {
            0nat
        }) + (if self.operator {
            1nat
        } else {
            0nat
        }) + (if self.auditor {
            1nat
        } else {
            0nat
        })
    }

    /// The set with every flag false.
    pub open spec fn empty_spec() -> RoleSet {
        RoleSet { admin: false, user: false, operator: false, auditor: false }
    }

    /// The set with every flag false: what an unknown principal holds.
    pub fn empty() -> (out: RoleSet)
        ensures
            out == RoleSet::empty_spec(),
    {
        RoleSet { admin: false, user: false, operator: false, auditor: false }
    }

    /// Read the flag for `role`.
    pub fn get(&self, role: Role) -> (out: bool)
        ensures
            out == self.spec_get(role),
    {
        match role {
            Role::Admin => self.admin,
            Role::User => self.user,
            Role::Operator => self.operator,
            Role::Auditor => self.auditor,
        }
    }

    /// This set with the flag for `role` replaced by `value`; the other three
    /// flags are kept, so the number of set flags moves exactly with the one
    /// edge (if any) that the replacement makes.
    pub fn with_flag(self, role: Role, value: bool) -> (out: RoleSet)
        ensures
            forall|r: Role| out.spec_get(r) == if r == role {
                value
            } else {
                self.spec_get(r)
            },
            out.count() + (if self.spec_get(role) {
                1nat
            } else {
                0nat
            }) == self.count() + (if value {
                1nat
            } else {
                0nat
            }),
    {
        match role {
            Role::Admin => RoleSet { admin: value, ..self },
            Role::User => RoleSet { user: value, ..self },
            Role::Operator => RoleSet { operator: value, ..self },
            Role::Auditor => RoleSet { auditor: value, ..self },
        }
    }
}

} // verus!
