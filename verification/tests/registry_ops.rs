use access_control::errors::AccessControlError;
use access_control::errors::AlreadyInitialized;
use access_control::registry::AccessControlContract;
use access_control::roles::Role;

const ADMIN: u64 = 1;

fn create_registry() -> AccessControlContract {
    let mut reg = AccessControlContract::new();
    reg.initialize(ADMIN).unwrap();
    reg
}

#[test]
fn test_initialize_contract() {
    let reg = create_registry();

    // Verify admin is set
    assert_eq!(reg.get_admin(), Ok(ADMIN));

    // Verify admin has admin role
    assert!(reg.has_role(ADMIN, Role::Admin));

    // Verify total role assignments
    assert_eq!(reg.get_total_role_assignments(), 1);
}

#[test]
fn test_cannot_initialize_twice() {
    let mut reg = create_registry();

    let new_admin: u64 = 2;

    // Try to initialize again - must fail with the fatal condition
    assert_eq!(reg.initialize(new_admin), Err(AlreadyInitialized));
}

#[test]
fn test_grant_role_as_admin() {
    let mut reg = create_registry();

    let user: u64 = 2;

    // Grant user role
    reg.grant_role(ADMIN, user, Role::User).unwrap();

    // Verify user has the role
    assert!(reg.has_role(user, Role::User));
    assert!(!reg.has_role(user, Role::Admin));

    // Verify counter updated
    assert_eq!(reg.get_total_role_assignments(), 2);
}

#[test]
fn test_grant_multiple_roles() {
    let mut reg = create_registry();

    let user: u64 = 2;

    // Grant multiple roles
    reg.grant_role(ADMIN, user, Role::User).unwrap();
    reg.grant_role(ADMIN, user, Role::Operator).unwrap();
    reg.grant_role(ADMIN, user, Role::Auditor).unwrap();

    // Verify all roles
    assert!(reg.has_role(user, Role::User));
    assert!(reg.has_role(user, Role::Operator));
    assert!(reg.has_role(user, Role::Auditor));
    assert!(!reg.has_role(user, Role::Admin));

    // Verify counter
    assert_eq!(reg.get_total_role_assignments(), 4);
}

#[test]
fn test_cannot_grant_role_twice() {
    let mut reg = create_registry();

    let user: u64 = 2;

    // Grant role
    reg.grant_role(ADMIN, user, Role::User).unwrap();

    // Try to grant same role again - must fail
    assert_eq!(
        reg.grant_role(ADMIN, user, Role::User),
        Err(AccessControlError::RoleAlreadyAssigned)
    );
}

#[test]
fn test_revoke_role() {
    let mut reg = create_registry();

    let user: u64 = 2;

    // Grant and then revoke role
    reg.grant_role(ADMIN, user, Role::User).unwrap();
    assert!(reg.has_role(user, Role::User));

    reg.revoke_role(ADMIN, user, Role::User).unwrap();
    assert!(!reg.has_role(user, Role::User));

    // Verify counter decremented
    assert_eq!(reg.get_total_role_assignments(), 1);
}

#[test]
fn test_cannot_revoke_unassigned_role() {
    let mut reg = create_registry();

    let user: u64 = 2;

    // Try to revoke role that was never assigned - must fail
    assert_eq!(
        reg.revoke_role(ADMIN, user, Role::User),
        Err(AccessControlError::RoleNotAssigned)
    );
}

#[test]
fn test_cannot_revoke_self_admin() {
    let mut reg = create_registry();

    // Admin tries to revoke their own admin role - must fail
    assert_eq!(
        reg.revoke_role(ADMIN, ADMIN, Role::Admin),
        Err(AccessControlError::CannotRevokeSelfAdmin)
    );
}

#[test]
fn test_transfer_admin() {
    let mut reg = create_registry();

    let new_admin: u64 = 2;

    // Transfer admin
    reg.transfer_admin(ADMIN, new_admin).unwrap();

    // Verify new admin
    assert_eq!(reg.get_admin(), Ok(new_admin));
    assert!(reg.has_role(new_admin, Role::Admin));
    assert!(!reg.has_role(ADMIN, Role::Admin));
}

#[test]
fn test_get_user_roles() {
    let mut reg = create_registry();

    let user: u64 = 2;

    // Grant multiple roles
    reg.grant_role(ADMIN, user, Role::User).unwrap();
    reg.grant_role(ADMIN, user, Role::Operator).unwrap();

    // Get all roles
    let roles = reg.get_user_roles(user);

    assert_eq!(roles.get(Role::User), true);
    assert_eq!(roles.get(Role::Operator), true);
    assert_eq!(roles.get(Role::Admin), false);
}

#[test]
fn test_non_admin_cannot_grant_role() {
    let mut reg = create_registry();

    let non_admin: u64 = 2;
    let user: u64 = 3;

    // Non-admin tries to grant role - must fail
    assert_eq!(
        reg.grant_role(non_admin, user, Role::User),
        Err(AccessControlError::Unauthorized)
    );
}

#[test]
fn test_non_admin_cannot_revoke_role() {
    let mut reg = create_registry();

    let non_admin: u64 = 2;
    let user: u64 = 3;

    // Grant role as admin
    reg.grant_role(ADMIN, user, Role::User).unwrap();

    // Non-admin tries to revoke role - must fail
    assert_eq!(
        reg.revoke_role(non_admin, user, Role::User),
        Err(AccessControlError::Unauthorized)
    );
}

#[test]
fn test_non_admin_cannot_transfer_admin() {
    let mut reg = create_registry();

    let non_admin: u64 = 2;
    let new_admin: u64 = 3;

    // Non-admin tries to transfer admin - must fail
    assert_eq!(
        reg.transfer_admin(non_admin, new_admin),
        Err(AccessControlError::Unauthorized)
    );
}

#[test]
fn test_operator_role() {
    let mut reg = create_registry();

    let operator: u64 = 2;

    // Grant operator role
    reg.grant_role(ADMIN, operator, Role::Operator).unwrap();

    // Verify operator has the role
    assert!(reg.has_role(operator, Role::Operator));
    assert!(!reg.has_role(operator, Role::Admin));
    assert!(!reg.has_role(operator, Role::User));
}

#[test]
fn test_auditor_role() {
    let mut reg = create_registry();

    let auditor: u64 = 2;

    // Grant auditor role
    reg.grant_role(ADMIN, auditor, Role::Auditor).unwrap();

    // Verify auditor has the role
    assert!(reg.has_role(auditor, Role::Auditor));
    assert!(!reg.has_role(auditor, Role::Admin));
}

#[test]
fn test_complex_role_management() {
    let mut reg = create_registry();

    let user1: u64 = 2;
    let user2: u64 = 3;
    let user3: u64 = 4;

    // Grant various roles
    reg.grant_role(ADMIN, user1, Role::User).unwrap();
    reg.grant_role(ADMIN, user1, Role::Operator).unwrap();

    reg.grant_role(ADMIN, user2, Role::Auditor).unwrap();

    reg.grant_role(ADMIN, user3, Role::User).unwrap();

    // Verify all assignments
    assert_eq!(reg.get_total_role_assignments(), 5);

    // Revoke some roles
    reg.revoke_role(ADMIN, user1, Role::Operator).unwrap();
    reg.revoke_role(ADMIN, user3, Role::User).unwrap();

    // Verify final state
    assert_eq!(reg.get_total_role_assignments(), 3);
    assert!(reg.has_role(user1, Role::User));
    assert!(!reg.has_role(user1, Role::Operator));
    assert!(reg.has_role(user2, Role::Auditor));
    assert!(!reg.has_role(user3, Role::User));
}
