//! Role-based access control: a verified role-assignment state machine.
//!
//! A [`registry::AccessControlContract`] records which principal holds which
//! role, who the single super-administrator is, and a running count of active
//! assignments. Grants, revocations and admin transfers are guarded by the
//! rules a ledger-style host enforces: only the admin may change assignments,
//! a flag may only flip on a genuine edge (false to true on grant, true to
//! false on revoke), and the admin can never revoke their own `Admin` role.
//!
//! The durable storage, caller authentication and event publishing that
//! surround these rules are the host's concern: the host authenticates the
//! caller, loads the registry state, applies one operation, and writes the
//! result back. Every function here is pure with respect to that host.

pub mod errors;
pub mod registry;
pub mod roles;
