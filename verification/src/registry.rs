//! The role-assignment registry and its state machine.

use crate::errors::AccessControlError;
use crate::errors::AlreadyInitialized;
use crate::roles::Role;
use crate::roles::RoleSet;
use vstd::prelude::*;

verus! {

/// An opaque, globally unique identifier for an actor (user, service or
/// admin). Nothing but equality is assumed of it; the host maps its own
/// address type onto these identifiers one for one.
pub type Principal = u64;

/// One row of the assignment table: the flags `principal` holds.
#[derive(Clone, Copy, Debug, PartialEq, Eq, Structural)]
pub struct RoleEntry {
    /// The principal this row belongs to.
    pub principal: Principal,
    /// The flags the principal holds.
    pub roles: RoleSet,
}

/// The role flags `p` holds in `entries`: the first row naming `p`, or the
/// all-false set when no row does (the lazy default).
pub open spec fn roles_in(entries: Seq<RoleEntry>, p: Principal) -> RoleSet
    decreases entries.len(),
{
    if entries.len() == 0 {
        RoleSet::empty_spec()
    } else if entries[0].principal == p {
        entries[0].roles
    } else {
        roles_in(entries.drop_first(), p)
    }
}

/// The number of set flags across every row of `entries`.
pub open spec fn flag_count_in(entries: Seq<RoleEntry>) -> nat
    decreases entries.len(),
{
    if entries.len() == 0 {
        0nat
    } else {
        entries[0].roles.count() + flag_count_in(entries.drop_first())
    }
}

/// No two rows of `entries` name the same principal.
pub open spec fn rows_unique(entries: Seq<RoleEntry>) -> bool {
    forall|i: int, j: int|
        0 <= i < j < entries.len() ==> entries[i].principal != entries[j].principal
}

/// The role-assignment registry: the process-wide singleton state of the
/// access-control core, passed as an explicit handle.
///
/// A host keeps this state in durable storage; each public operation is one
/// atomic read-modify-write of it. Authenticating the caller is the host's
/// concern: every `caller` argument below is taken to be already proved.
pub struct AccessControlContract {
    /// The single super-administrator; `None` until `initialize` runs.
    pub admin: Option<Principal>,
    /// The assignment table, one row per principal with a recorded set.
    pub entries: Vec<RoleEntry>,
    /// Running count of set flags across the table.
    pub total: u64,
}

impl AccessControlContract {
    /// Whether `initialize` has run: the registry has an admin.
    pub open spec fn initialized(self) -> bool {
        self.admin is Some
    }

    /// The current admin; meaningful only when initialized.
    pub open spec fn admin_of(self) -> Principal {
        self.admin->Some_0
    }

    /// The role flags `p` holds.
    pub open spec fn roles_of(self, p: Principal) -> RoleSet {
        roles_in(self.entries@, p)
    }

    /// Whether `p` holds `role`.
    pub open spec fn role_flag(self, p: Principal, role: Role) -> bool {
        self.roles_of(p).spec_get(role)
    }

    /// The number of set flags across the whole table.
    pub open spec fn flag_count(self) -> nat {
        flag_count_in(self.entries@)
    }

    /// The counter agrees with the table: `total` equals the number of set
    /// flags. Holds after every operation sequence that starts from a fresh
    /// registry, with one exception stated at `transfer_admin`.
    pub open spec fn counter_consistent(self) -> bool {
        self.total == self.flag_count()
    }

    /// Well-formedness: the table has one row per principal, and once
    /// initialized the recorded admin holds the `Admin` flag.
    pub open spec fn wf(self) -> bool {
        &&& rows_unique(self.entries@)
        &&& self.initialized() ==> self.role_flag(self.admin_of(), Role::Admin)
    }

    /// A fresh, uninitialized registry: no admin, no rows, counter zero, and
    /// so no principal holds any role.
    pub fn new() -> (out: AccessControlContract)
        ensures
            out.admin is None,
            out.entries@.len() == 0,
            out.total == 0,
            out.wf(),
            out.counter_consistent(),
            forall|p: Principal, r: Role| !out.role_flag(p, r),
    {
        AccessControlContract { admin: None, entries: Vec::new(), total: 0 }
    }

    /// The index of the row naming `p`, if one exists; `None` says no row
    /// does.
    fn find_entry(&self, p: Principal) -> (out: Option<usize>)
        ensures
            match out {
                Some(i) => i < self.entries@.len() && self.entries@[i as int].principal == p
                    && (forall|k: int| 0 <= k < i ==> self.entries@[k].principal != p),
                None => forall|k: int|
                    0 <= k < self.entries@.len() ==> self.entries@[k].principal != p,
            },
    {
        let mut i: usize = 0;
        while i < self.entries.len()
            invariant
                i <= self.entries@.len(),
                forall|k: int| 0 <= k < i ==> self.entries@[k].principal != p,
            decreases self.entries@.len() - i,
        {
            if self.entries[i].principal == p {
                return Some(i);
            }
            i = i + 1;
        }
        None
    }

    /// Check whether `user` holds `role`. A pure read: false for an unknown
    /// principal or an unset flag, never an error.
    pub fn has_role(&self, user: Principal, role: Role) -> (out: bool)
        ensures
            out == self.role_flag(user, role),
    {
        self.get_user_roles(user).get(role)
    }

    /// All flags `user` holds. A pure read: the all-false default when no row
    /// names `user`.
    pub fn get_user_roles(&self, user: Principal) -> (out: RoleSet)
        ensures
            out == self.roles_of(user),
    {
        match self.find_entry(user) {
            Some(i) => {
                proof {
                    lemma_roles_in_at_first_match(self.entries@, user, i as int);
                }
                self.entries[i].roles
            },
            None => {
                proof {
                    lemma_roles_in_absent(self.entries@, user);
                }
                RoleSet::empty()
            },
        }
    }

    /// The current admin, or `NotInitialized` when `initialize` has not run.
    pub fn get_admin(&self) -> (out: Result<Principal, AccessControlError>)
        ensures
            match out {
                Ok(a) => self.admin == Some(a),
                Err(e) => e == AccessControlError::NotInitialized && !self.initialized(),
            },
    {
        match self.admin {
            Some(a) => Ok(a),
            None => Err(AccessControlError::NotInitialized),
        }
    }

    /// The running count of active role assignments; zero before
    /// initialization.
    pub fn get_total_role_assignments(&self) -> (out: u64)
        ensures
            out == self.total,
    {
        self.total
    }

    /// Succeeds exactly when `caller` is the recorded admin:
    /// `NotInitialized` when no admin is recorded, `Unauthorized` for every
    /// other principal.
    pub fn require_admin(&self, caller: Principal) -> (out: Result<
        (),
        AccessControlError,
    >)
        ensures
            match out {
                Ok(()) => self.initialized() && caller == self.admin_of(),
                Err(e) => match e {
                    AccessControlError::NotInitialized => !self.initialized(),
                    AccessControlError::Unauthorized => self.initialized() && caller
                        != self.admin_of(),
                    _ => false,
                },
            },
    {
        match self.admin {
            Some(a) => {
                if caller == a {
                    Ok(())
                } else {
                    Err(AccessControlError::Unauthorized)
                }
            },
            None => Err(AccessControlError::NotInitialized),
        }
    }

    /// Succeeds exactly when `caller` holds `role`; `Unauthorized`
    /// otherwise, an unknown caller included.
    pub fn require_role(&self, caller: Principal, role: Role) -> (out: Result<
        (),
        AccessControlError,
    >)
        ensures
            match out {
                Ok(()) => self.role_flag(caller, role),
                Err(e) => e == AccessControlError::Unauthorized && !self.role_flag(caller, role),
            },
    {
        if self.has_role(caller, role) {
            Ok(())
        } else {
            Err(AccessControlError::Unauthorized)
        }
    }

    /// Succeeds exactly when `caller` holds the `Admin` flag or holds
    /// `role`; `Unauthorized` otherwise. The one place admin privilege
    /// stands in for another role, as an explicit OR of the two flags.
    pub fn require_admin_or_role(&self, caller: Principal, role: Role) -> (out: Result<
        (),
        AccessControlError,
    >)
        ensures
            match out {
                Ok(()) => self.role_flag(caller, Role::Admin) || self.role_flag(caller, role),
                Err(e) => e == AccessControlError::Unauthorized && !self.role_flag(
                    caller,
                    Role::Admin,
                ) && !self.role_flag(caller, role),
            },
    {
        let roles = self.get_user_roles(caller);
        if roles.get(Role::Admin) || roles.get(role) {
            Ok(())
        } else {
            Err(AccessControlError::Unauthorized)
        }
    }
}

impl AccessControlContract {
    /// Replace the whole role set of `p`, adding a row when none names `p`,
    /// and leave every other row, the admin and the counter as they were.
    fn set_roles(&mut self, p: Principal, roles: RoleSet)
        requires
            rows_unique(old(self).entries@),
        ensures
            rows_unique(final(self).entries@),
            final(self).admin == old(self).admin,
            final(self).total == old(self).total,
            forall|q: Principal| final(self).roles_of(q) == (if q == p {
                roles
            } else {
                old(self).roles_of(q)
            }),
            final(self).flag_count() + old(self).roles_of(p).count() == old(self).flag_count()
                + roles.count(),
    {
        let ghost s0 = self.entries@;
        let e = RoleEntry { principal: p, roles: roles };
        match self.find_entry(p) {
            Some(i) => {
                self.entries[i] = e;
                proof {
                    assert(self.entries@ =~= s0.update(i as int, e));
                    lemma_roles_in_at_first_match(s0, p, i as int);
                    lemma_flag_count_update(s0, i as int, e);
                    assert forall|q: Principal| self.roles_of(q) == (if q == p {
                        roles
                    } else {
                        roles_in(s0, q)
                    }) by {
                        lemma_roles_in_update(s0, i as int, e, q);
                    }
                    assert forall|a: int, b: int|
                        0 <= a < b < self.entries@.len() implies self.entries@[a].principal
                        != self.entries@[b].principal by {
                        assert(s0[a].principal != s0[b].principal);
                    }
                    assert(rows_unique(self.entries@));
                }
            },
            None => {
                self.entries.push(e);
                proof {
                    lemma_roles_in_absent(s0, p);
                    lemma_flag_count_push(s0, e);
                    assert(RoleSet::empty_spec().count() == 0);
                    assert forall|q: Principal| self.roles_of(q) == (if q == p {
                        roles
                    } else {
                        roles_in(s0, q)
                    }) by {
                        lemma_roles_in_push(s0, e, q);
                    }
                    assert forall|a: int, b: int|
                        0 <= a < b < self.entries@.len() implies self.entries@[a].principal
                        != self.entries@[b].principal by {
                        if b < s0.len() as int {
                            assert(s0[a].principal != s0[b].principal);
                        } else {
                            assert(self.entries@[b] == e);
                            assert(s0[a].principal != p);
                        }
                    }
                    assert(rows_unique(self.entries@));
                }
            },
        }
    }

    /// Create the singleton state: record `admin`, give `admin` exactly the
    /// `Admin` flag, and start the counter at one assignment.
    ///
    /// Fails, and changes nothing, exactly when the registry already has an
    /// admin: initialization happens once. The host authenticates the call as
    /// `admin` itself (the admin bootstraps itself).
    pub fn initialize(&mut self, admin: Principal) -> (out: Result<(), AlreadyInitialized>)
        requires
            old(self).wf(),
        ensures
            final(self).wf(),
            match out {
                Ok(()) => !old(self).initialized() && final(self).admin == Some(admin) && final(self).total == 1 && (forall|q: Principal, r: Role|
                    final(self).role_flag(q, r) == (if q == admin {
                        r == Role::Admin
                    } else {
                        old(self).role_flag(q, r)
                    })) && final(self).flag_count() + old(self).roles_of(admin).count() == old(self).flag_count() + 1,
                Err(_) => old(self).initialized() && *final(self) == *old(self),
            },
            out is Ok && old(self).entries@.len() == 0 ==> final(self).counter_consistent(),
    {
        if self.admin.is_some() {
            return Err(AlreadyInitialized);
        }
        self.admin = Some(admin);
        self.total = 1;
        let ghost mid = *self;
        let rs = RoleSet::empty().with_flag(Role::Admin, true);
        self.set_roles(admin, rs);
        proof {
            assert(RoleSet::empty_spec().count() == 0);
            assert(mid.flag_count() == old(self).flag_count());
            assert(mid.roles_of(admin) == old(self).roles_of(admin));
            assert forall|q: Principal, r: Role| self.role_flag(q, r) == (if q == admin {
                r == Role::Admin
            } else {
                old(self).role_flag(q, r)
            }) by {
                assert(self.roles_of(q) == if q == admin {
                    rs
                } else {
                    mid.roles_of(q)
                });
                assert(mid.roles_of(q) == old(self).roles_of(q));
                assert(rs.spec_get(r) == if r == Role::Admin {
                    true
                } else {
                    RoleSet::empty_spec().spec_get(r)
                });
            }
            assert(self.role_flag(admin, Role::Admin));
        }
        Ok(())
    }

    /// Grant `role` to `user`. Only the admin may grant, and only a flag that
    /// is currently false may be set (a genuine false-to-true edge), so every
    /// success raises both the counter and the number of set flags by one.
    ///
    /// Errors, each leaving the state unchanged:
    /// `NotInitialized` when no admin is recorded; `Unauthorized` when
    /// `caller` is not the admin; `RoleAlreadyAssigned` when `user` already
    /// holds `role`. The host authenticates `caller` before the call.
    pub fn grant_role(&mut self, caller: Principal, user: Principal, role: Role) -> (out: Result<
        (),
        AccessControlError,
    >)
        requires
            old(self).wf(),
            old(self).total < u64::MAX,
        ensures
            final(self).wf(),
            match out {
                Ok(()) => old(self).initialized() && caller == old(self).admin_of() && !old(self).role_flag(user, role) && final(self).admin == old(self).admin && final(self).total
                    == old(self).total + 1 && final(self).flag_count() == old(self).flag_count()
                    + 1 && (forall|q: Principal, r: Role|
                    final(self).role_flag(q, r) == ((q == user && r == role) || old(self).role_flag(q, r))),
                Err(e) => *final(self) == *old(self) && match e {
                    AccessControlError::NotInitialized => !old(self).initialized(),
                    AccessControlError::Unauthorized => old(self).initialized() && caller != old(self).admin_of(),
                    AccessControlError::RoleAlreadyAssigned => old(self).initialized() && caller
                        == old(self).admin_of() && old(self).role_flag(user, role),
                    _ => false,
                },
            },
            old(self).counter_consistent() ==> final(self).counter_consistent(),
    {
        match self.require_admin(caller) {
            Ok(()) => {},
            Err(e) => {
                return Err(e);
            },
        }
        let cur = self.get_user_roles(user);
        if cur.get(role) {
            return Err(AccessControlError::RoleAlreadyAssigned);
        }
        self.total = self.total + 1;
        let ghost mid = *self;
        let rs = cur.with_flag(role, true);
        self.set_roles(user, rs);
        proof {
            assert(mid.flag_count() == old(self).flag_count());
            assert(mid.roles_of(user) == old(self).roles_of(user));
            assert forall|q: Principal, r: Role| self.role_flag(q, r) == ((q == user && r == role)
                || old(self).role_flag(q, r)) by {
                assert(self.roles_of(q) == if q == user {
                    rs
                } else {
                    mid.roles_of(q)
                });
                assert(mid.roles_of(q) == old(self).roles_of(q));
                assert(rs.spec_get(r) == if r == role {
                    true
                } else {
                    cur.spec_get(r)
                });
            }
            assert(self.role_flag(old(self).admin_of(), Role::Admin));
        }
        Ok(())
    }

    /// Revoke `role` from `user`. Only the admin may revoke; the admin may
    /// never revoke their own `Admin` role (self-lockout prevention, checked
    /// before the assignment check so the more specific error surfaces); and
    /// only a flag that is currently true may be cleared (a genuine
    /// true-to-false edge). The counter falls by one, floored at zero.
    ///
    /// Errors, each leaving the state unchanged:
    /// `NotInitialized` when no admin is recorded; `Unauthorized` when
    /// `caller` is not the admin; `CannotRevokeSelfAdmin` when the admin
    /// names themself and `Admin`, whatever the flag's value;
    /// `RoleNotAssigned` when `user` does not hold `role`. The host
    /// authenticates `caller` before the call.
    pub fn revoke_role(&mut self, caller: Principal, user: Principal, role: Role) -> (out: Result<
        (),
        AccessControlError,
    >)
        requires
            old(self).wf(),
        ensures
            final(self).wf(),
            match out {
                Ok(()) => old(self).initialized() && caller == old(self).admin_of() && !(caller
                    == user && role == Role::Admin) && old(self).role_flag(user, role) && final(self).admin == old(self).admin && final(self).total == (if old(self).total > 0 {
                    old(self).total - 1
                } else {
                    0
                }) && final(self).flag_count() + 1 == old(self).flag_count() && (forall|
                    q: Principal,
                    r: Role,
                |
                    final(self).role_flag(q, r) == (!(q == user && r == role) && old(self).role_flag(q, r))),
                Err(e) => *final(self) == *old(self) && match e {
                    AccessControlError::NotInitialized => !old(self).initialized(),
                    AccessControlError::Unauthorized => old(self).initialized() && caller != old(self).admin_of(),
                    AccessControlError::CannotRevokeSelfAdmin => old(self).initialized() && caller
                        == old(self).admin_of() && caller == user && role == Role::Admin,
                    AccessControlError::RoleNotAssigned => old(self).initialized() && caller == old(self).admin_of() && !(caller == user && role == Role::Admin) && !old(self).role_flag(user, role),
                    _ => false,
                },
            },
            old(self).counter_consistent() ==> final(self).counter_consistent(),
    {
        match self.require_admin(caller) {
            Ok(()) => {},
            Err(e) => {
                return Err(e);
            },
        }
        if caller == user && role == Role::Admin {
            return Err(AccessControlError::CannotRevokeSelfAdmin);
        }
        let cur = self.get_user_roles(user);
        if !cur.get(role) {
            return Err(AccessControlError::RoleNotAssigned);
        }
        proof {
            lemma_roles_count_le(self.entries@, user);
        }
        if self.total > 0 {
            self.total = self.total - 1;
        }
        let ghost mid = *self;
        let rs = cur.with_flag(role, false);
        self.set_roles(user, rs);
        proof {
            assert(mid.flag_count() == old(self).flag_count());
            assert(mid.roles_of(user) == old(self).roles_of(user));
            assert forall|q: Principal, r: Role| self.role_flag(q, r) == (!(q == user && r == role)
                && old(self).role_flag(q, r)) by {
                assert(self.roles_of(q) == if q == user {
                    rs
                } else {
                    mid.roles_of(q)
                });
                assert(mid.roles_of(q) == old(self).roles_of(q));
                assert(rs.spec_get(r) == if r == role {
                    false
                } else {
                    cur.spec_get(r)
                });
            }
            assert(self.role_flag(old(self).admin_of(), Role::Admin));
        }
        Ok(())
    }

    /// Move the admin seat to `new_admin`: clear the `Admin` flag of the
    /// current admin, set it on `new_admin` (adding a row if need be), and
    /// record `new_admin` as admin. The one path by which the current admin's
    /// `Admin` flag may fall. The counter is not touched: a transfer is a
    /// relocation, one implicit revoke and one implicit grant that cancel
    /// out — except when `new_admin` is another principal that already holds
    /// the `Admin` flag, where the set flags fall by one while the counter
    /// stands (the exact movement is stated below).
    ///
    /// Errors, each leaving the state unchanged: `NotInitialized` when no
    /// admin is recorded; `Unauthorized` when `caller` is not the admin. The
    /// host authenticates `caller` before the call.
    pub fn transfer_admin(&mut self, caller: Principal, new_admin: Principal) -> (out: Result<
        (),
        AccessControlError,
    >)
        requires
            old(self).wf(),
        ensures
            final(self).wf(),
            match out {
                Ok(()) => old(self).initialized() && caller == old(self).admin_of() && final(self).admin == Some(new_admin) && final(self).total == old(self).total && (forall|
                    q: Principal,
                    r: Role,
                |
                    final(self).role_flag(q, r) == (if q == new_admin && r == Role::Admin {
                        true
                    } else if q == caller && r == Role::Admin {
                        false
                    } else {
                        old(self).role_flag(q, r)
                    })),
                Err(e) => *final(self) == *old(self) && match e {
                    AccessControlError::NotInitialized => !old(self).initialized(),
                    AccessControlError::Unauthorized => old(self).initialized() && caller != old(self).admin_of(),
                    _ => false,
                },
            },
            out is Ok ==> final(self).flag_count() + (if new_admin != caller && old(self).role_flag(new_admin, Role::Admin) {
                1nat
            } else {
                0nat
            }) == old(self).flag_count(),
            old(self).counter_consistent() && (new_admin == caller || !old(self).role_flag(
                new_admin,
                Role::Admin,
            )) ==> final(self).counter_consistent(),
    {
        match self.require_admin(caller) {
            Ok(()) => {},
            Err(e) => {
                return Err(e);
            },
        }
        self.admin = Some(new_admin);
        let ghost begun = *self;
        let cur = self.get_user_roles(caller);
        let cleared = cur.with_flag(Role::Admin, false);
        self.set_roles(caller, cleared);
        let ghost mid = *self;
        let next = self.get_user_roles(new_admin);
        let raised = next.with_flag(Role::Admin, true);
        self.set_roles(new_admin, raised);
        proof {
            assert(begun.flag_count() == old(self).flag_count());
            assert(begun.roles_of(caller) == old(self).roles_of(caller));
            assert(begun.roles_of(new_admin) == old(self).roles_of(new_admin));
            assert(cur.spec_get(Role::Admin));
            assert(mid.roles_of(new_admin) == if new_admin == caller {
                cleared
            } else {
                begun.roles_of(new_admin)
            });
            assert forall|q: Principal, r: Role|
                self.role_flag(q, r) == (if q == new_admin && r == Role::Admin {
                    true
                } else if q == caller && r == Role::Admin {
                    false
                } else {
                    old(self).role_flag(q, r)
                }) by {
                assert(mid.roles_of(q) == if q == caller {
                    cleared
                } else {
                    begun.roles_of(q)
                });
                assert(begun.roles_of(q) == old(self).roles_of(q));
                assert(self.roles_of(q) == if q == new_admin {
                    raised
                } else {
                    mid.roles_of(q)
                });
                assert(cleared.spec_get(r) == if r == Role::Admin {
                    false
                } else {
                    cur.spec_get(r)
                });
                assert(raised.spec_get(r) == if r == Role::Admin {
                    true
                } else {
                    next.spec_get(r)
                });
            }
            assert(self.role_flag(new_admin, Role::Admin));
        }
        Ok(())
    }
}

/// When rows `0..i` do not name `p` and row `i` does, the first match is row
/// `i`.
proof fn lemma_roles_in_at_first_match(entries: Seq<RoleEntry>, p: Principal, i: int)
    requires
        0 <= i < entries.len(),
        entries[i].principal == p,
        forall|k: int| 0 <= k < i ==> entries[k].principal != p,
    ensures
        roles_in(entries, p) == entries[i].roles,
    decreases i,
{
    if i > 0 {
        lemma_roles_in_at_first_match(entries.drop_first(), p, i - 1);
    }
}

/// When no row names `p`, the lookup yields the all-false default.
proof fn lemma_roles_in_absent(entries: Seq<RoleEntry>, p: Principal)
    requires
        forall|k: int| 0 <= k < entries.len() ==> entries[k].principal != p,
    ensures
        roles_in(entries, p) == RoleSet::empty_spec(),
    decreases entries.len(),
{
    if entries.len() > 0 {
        lemma_roles_in_absent(entries.drop_first(), p);
    }
}

/// Replacing the first row that names a principal changes only that
/// principal's lookup.
proof fn lemma_roles_in_update(entries: Seq<RoleEntry>, i: int, e: RoleEntry, p: Principal)
    requires
        0 <= i < entries.len(),
        e.principal == entries[i].principal,
        forall|k: int| 0 <= k < i ==> entries[k].principal != entries[i].principal,
    ensures
        roles_in(entries.update(i, e), p) == (if p == entries[i].principal {
            e.roles
        } else {
            roles_in(entries, p)
        }),
    decreases i,
{
    let s2 = entries.update(i, e);
    if i == 0 {
        assert(s2.drop_first() =~= entries.drop_first());
    } else {
        assert(s2[0] == entries[0]);
        assert(s2.drop_first() =~= entries.drop_first().update(i - 1, e));
        lemma_roles_in_update(entries.drop_first(), i - 1, e, p);
    }
}

/// Replacing one row moves the overall flag count by the difference the row
/// itself makes.
proof fn lemma_flag_count_update(entries: Seq<RoleEntry>, i: int, e: RoleEntry)
    requires
        0 <= i < entries.len(),
    ensures
        flag_count_in(entries.update(i, e)) + entries[i].roles.count() == flag_count_in(entries)
            + e.roles.count(),
    decreases i,
{
    let s2 = entries.update(i, e);
    if i == 0 {
        assert(s2.drop_first() =~= entries.drop_first());
    } else {
        assert(s2[0] == entries[0]);
        assert(s2.drop_first() =~= entries.drop_first().update(i - 1, e));
        lemma_flag_count_update(entries.drop_first(), i - 1, e);
    }
}

/// Appending a row for a principal no other row names changes only that
/// principal's lookup.
proof fn lemma_roles_in_push(entries: Seq<RoleEntry>, e: RoleEntry, p: Principal)
    requires
        forall|k: int| 0 <= k < entries.len() ==> entries[k].principal != e.principal,
    ensures
        roles_in(entries.push(e), p) == (if p == e.principal {
            e.roles
        } else {
            roles_in(entries, p)
        }),
    decreases entries.len(),
{
    let s2 = entries.push(e);
    if entries.len() == 0 {
        assert(s2[0] == e);
        assert(s2.drop_first() =~= Seq::<RoleEntry>::empty());
        assert(roles_in(Seq::<RoleEntry>::empty(), p) == RoleSet::empty_spec());
    } else {
        assert(s2[0] == entries[0]);
        assert(s2.drop_first() =~= entries.drop_first().push(e));
        lemma_roles_in_push(entries.drop_first(), e, p);
    }
}

/// Appending a row adds exactly that row's set flags to the overall count.
proof fn lemma_flag_count_push(entries: Seq<RoleEntry>, e: RoleEntry)
    ensures
        flag_count_in(entries.push(e)) == flag_count_in(entries) + e.roles.count(),
    decreases entries.len(),
{
    let s2 = entries.push(e);
    if entries.len() == 0 {
        assert(s2[0] == e);
        assert(s2.drop_first() =~= Seq::<RoleEntry>::empty());
        assert(flag_count_in(Seq::<RoleEntry>::empty()) == 0);
    } else {
        assert(s2[0] == entries[0]);
        assert(s2.drop_first() =~= entries.drop_first().push(e));
        lemma_flag_count_push(entries.drop_first(), e);
    }
}

/// One principal's set flags never outnumber the whole table's.
proof fn lemma_roles_count_le(entries: Seq<RoleEntry>, p: Principal)
    ensures
        roles_in(entries, p).count() <= flag_count_in(entries),
    decreases entries.len(),
{
    if entries.len() > 0 {
        lemma_roles_count_le(entries.drop_first(), p);
    }
}

} // verus!

