use stump_core::auth::{
    get_hash_cost, hash_password, login_user, register_user, registration_role, session_viewer,
    verify_password, AuthError, LoginOrRegisterArgs, StoredUser, User, UserRole,
};

fn args(username: &str, password: &str) -> LoginOrRegisterArgs {
    LoginOrRegisterArgs { username: username.to_string(), password: password.to_string() }
}

#[test]
fn first_registration_creates_the_server_owner() {
    assert_eq!(registration_role(false, false), Ok(UserRole::ServerOwner));
    assert_eq!(registration_role(true, false), Ok(UserRole::ServerOwner));
}

#[test]
fn member_registration_needs_a_session_once_users_exist() {
    assert_eq!(registration_role(false, true), Err(AuthError::Forbidden));
    assert_eq!(registration_role(true, true), Ok(UserRole::Member));
}

#[test]
fn register_then_login_round_trip() {
    let input = args("oromei", "hunter2");
    let row = register_user(false, false, &input, 4).expect("first registration succeeds");
    assert_eq!(row.username, "oromei");
    assert_eq!(row.role, UserRole::ServerOwner);
    // The stored value is a bcrypt hash, not the password handed in.
    assert_ne!(row.hashed_password, "hunter2");
    assert_eq!(verify_password(&row.hashed_password, "hunter2"), Ok(true));
    assert_eq!(verify_password(&row.hashed_password, "wrong"), Ok(false));
    let logged_in = login_user(None, &input, Some(row)).expect("stored owner can log in");
    assert_eq!(
        logged_in,
        User { username: "oromei".to_string(), role: UserRole::ServerOwner }
    );
}

#[test]
fn register_without_session_is_forbidden_once_users_exist() {
    let input = args("guest", "pw");
    assert_eq!(register_user(false, true, &input, 4), Err(AuthError::Forbidden));
}

#[test]
fn register_with_invalid_cost_reports_internal_error() {
    let input = args("guest", "pw");
    assert_eq!(register_user(true, true, &input, 50), Err(AuthError::Internal));
    assert_eq!(hash_password("pw", 50), Err(AuthError::Internal));
}

#[test]
fn verify_against_malformed_hash_reports_internal_error() {
    assert_eq!(verify_password("not a bcrypt hash", "pw"), Err(AuthError::Internal));
}

#[test]
fn login_with_wrong_password_is_unauthorized() {
    let stored = StoredUser {
        username: "oromei".to_string(),
        hashed_password: hash_password("hunter2", 4).unwrap(),
        role: UserRole::Member,
    };
    assert_eq!(
        login_user(None, &args("oromei", "wrong"), Some(stored)),
        Err(AuthError::Unauthorized)
    );
}

#[test]
fn login_with_unreadable_stored_hash_reports_internal_error() {
    let stored = StoredUser {
        username: "oromei".to_string(),
        hashed_password: "not a bcrypt hash".to_string(),
        role: UserRole::Member,
    };
    assert_eq!(
        login_user(None, &args("oromei", "hunter2"), Some(stored)),
        Err(AuthError::Internal)
    );
}

#[test]
fn login_for_unknown_account_is_unauthorized() {
    assert_eq!(login_user(None, &args("nobody", "pw"), None), Err(AuthError::Unauthorized));
}

#[test]
fn login_reuses_a_session_for_the_same_username() {
    let session = User { username: "oromei".to_string(), role: UserRole::Member };
    // No stored row is needed: the session answers.
    let got = login_user(Some(session.clone()), &args("oromei", "anything"), None);
    assert_eq!(got, Ok(session));
}

#[test]
fn viewer_answers_the_session_user_or_unauthorized() {
    let u = User { username: "oromei".to_string(), role: UserRole::Member };
    assert_eq!(session_viewer(Some(u.clone())), Ok(u));
    assert_eq!(session_viewer(None), Err(AuthError::Unauthorized));
}

#[test]
fn default_role_and_hash_cost() {
    assert_eq!(UserRole::default(), UserRole::Member);
    assert_eq!(get_hash_cost(), 12);
}
