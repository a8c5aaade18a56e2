use table_tv::error::ApiError;
use table_tv::users::{require_admin, requested_admin_flag, upsert_user, UpdateUserRequest, Upsert, UserDoc};

fn user(sub: &str, admin: bool) -> UserDoc {
    UserDoc { auth0_sub: sub.to_string(), email: format!("{}@x", sub), is_admin: admin }
}

#[test]
fn admin_only_endpoints() {
    assert!(require_admin(true).is_ok());
    match require_admin(false) {
        Err(ApiError::Forbidden(m)) => assert_eq!(m, "Admin access required"),
        other => panic!("unexpected {:?}", other),
    }
}

#[test]
fn update_requires_admin_flag() {
    assert_eq!(requested_admin_flag(&UpdateUserRequest { is_admin: Some(false) }).unwrap(), false);
    assert_eq!(requested_admin_flag(&UpdateUserRequest { is_admin: Some(true) }).unwrap(), true);
    match requested_admin_flag(&UpdateUserRequest { is_admin: None }) {
        Err(ApiError::BadRequest(m)) => assert_eq!(m, "is_admin is required"),
        other => panic!("unexpected {:?}", other),
    }
}

#[test]
fn first_user_becomes_admin() {
    match upsert_user(None, false, "auth0|1".to_string(), "a@x".to_string()) {
        Upsert::Created(u) => {
            assert!(u.is_admin);
            assert_eq!(u.auth0_sub, "auth0|1");
            assert_eq!(u.email, "a@x");
        }
        other => panic!("unexpected {:?}", other),
    }
}

#[test]
fn later_users_are_not_admins() {
    match upsert_user(None, true, "auth0|2".to_string(), "b@x".to_string()) {
        Upsert::Created(u) => assert!(!u.is_admin),
        other => panic!("unexpected {:?}", other),
    }
}

#[test]
fn existing_user_updated_with_new_email() {
    let existing = user("auth0|3", false);
    let r = upsert_user(Some(existing.clone()), false, "auth0|3".to_string(), "new@x".to_string());
    match r {
        Upsert::Updated(u) => {
            assert_eq!(u.auth0_sub, "auth0|3");
            assert_eq!(u.email, "new@x");
            assert!(!u.is_admin);
        }
        other => panic!("unexpected {:?}", other),
    }
    let admin = user("auth0|4", true);
    let again = upsert_user(Some(admin), false, "auth0|4".to_string(), "x".to_string()).user();
    assert!(again.is_admin);
    assert_eq!(again.email, "x");
}
