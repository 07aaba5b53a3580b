use schoolthings::sessions::{self, Session, SessionError, SessionUpdate};
use schoolthings::store::Store;
use schoolthings::users::{
    self, LoginUser, NewUser, LoginError, SignupError, SignoutError, UserLookupError,
};

fn new_user(username: &str, email: &str, password: &str) -> NewUser {
    NewUser {
        username: username.to_string(),
        email: email.to_string(),
        password: password.to_string(),
    }
}

fn login_user(username: &str, password: &str) -> LoginUser {
    LoginUser { username: username.to_string(), password: password.to_string() }
}

#[test]
fn signup_then_login_reuses_the_new_session() {
    let mut store = Store::new();
    let out = users::submit_signup(&mut store, None, new_user("alice", "alice@example.com", "hunter22"))
        .unwrap();
    assert_eq!(out.user_id, 1);
    assert_eq!(out.session, SessionUpdate::Created(1));
    let session = sessions::get(&store, 1).unwrap();
    assert_eq!(session.logged_in_user, Some(1));

    // a later login through the cookie the signup set
    let su = users::submit_login(&mut store, Some("1"), &login_user("alice", "hunter22")).unwrap();
    assert_eq!(su, SessionUpdate::Updated(1));
    let session = sessions::get(&store, 1).unwrap();
    assert_eq!(session.logged_in_user, Some(1));
}

#[test]
fn signout_keeps_the_session_row_for_reuse() {
    let mut store = Store::new();
    users::submit_signup(&mut store, None, new_user("alice", "alice@example.com", "hunter22"))
        .unwrap();
    assert_eq!(users::signout(&mut store, Some("1")), Ok(()));
    // the row survives, logged out
    let session = sessions::get(&store, 1).unwrap();
    assert_eq!(session.id, 1);
    assert_eq!(session.logged_in_user, None);
    // the same cookie carries a later login onto the same row
    let su = users::submit_login(&mut store, Some("1"), &login_user("alice", "hunter22")).unwrap();
    assert_eq!(su, SessionUpdate::Updated(1));
    assert_eq!(sessions::get(&store, 1).unwrap().logged_in_user, Some(1));
}

#[test]
fn login_with_wrong_password_fails() {
    let mut store = Store::new();
    users::submit_signup(&mut store, None, new_user("alice", "alice@example.com", "hunter22"))
        .unwrap();
    let r = users::submit_login(&mut store, None, &login_user("alice", "wrong"));
    assert_eq!(r, Err(LoginError::BadCredentials));
    let r = users::submit_login(&mut store, None, &login_user("nobody", "hunter22"));
    assert_eq!(r, Err(LoginError::BadCredentials));
}

#[test]
fn login_with_unreadable_cookie_fails() {
    let mut store = Store::new();
    users::submit_signup(&mut store, None, new_user("alice", "alice@example.com", "hunter22"))
        .unwrap();
    let r = users::submit_login(&mut store, Some("not-a-number"), &login_user("alice", "hunter22"));
    assert_eq!(r, Err(LoginError::SessionCookie));
}

#[test]
fn signup_rejects_short_username() {
    let mut store = Store::new();
    let r = users::submit_signup(&mut store, None, new_user("ab", "a@example.com", "pw"));
    assert_eq!(r, Err(SignupError::InvalidUsername));
}

#[test]
fn signup_rejects_long_username() {
    let mut store = Store::new();
    // 25 characters, format-valid
    let r = users::submit_signup(
        &mut store,
        None,
        new_user("abcdefghijklmnopqrstuvwxy", "a@example.com", "pw"),
    );
    assert_eq!(r, Err(SignupError::InvalidUsername));
    // 24 characters pass
    let r = users::submit_signup(
        &mut store,
        None,
        new_user("abcdefghijklmnopqrstuvwx", "a@example.com", "pw"),
    );
    assert!(r.is_ok());
}

#[test]
fn signup_rejects_bad_email() {
    let mut store = Store::new();
    let r = users::submit_signup(&mut store, None, new_user("alice", "not-an-email", "pw"));
    assert_eq!(r, Err(SignupError::InvalidEmail));
    let r = users::submit_signup(&mut store, None, new_user("alice", "", "pw"));
    assert_eq!(r, Err(SignupError::InvalidEmail));
}

#[test]
fn signup_rejects_bad_password_length() {
    let mut store = Store::new();
    let r = users::submit_signup(&mut store, None, new_user("alice", "a@example.com", ""));
    assert_eq!(r, Err(SignupError::InvalidPassword));
    let long = "x".repeat(73);
    let r = users::submit_signup(&mut store, None, new_user("alice", "a@example.com", &long));
    assert_eq!(r, Err(SignupError::InvalidPassword));
    let exactly = "x".repeat(72);
    let r = users::submit_signup(&mut store, None, new_user("alice", "a@example.com", &exactly));
    assert!(r.is_ok());
}

#[test]
fn signup_rejects_duplicates_by_column() {
    let mut store = Store::new();
    users::submit_signup(&mut store, None, new_user("alice", "alice@example.com", "pw1"))
        .unwrap();
    let r = users::submit_signup(&mut store, None, new_user("alice", "other@example.com", "pw2"));
    assert_eq!(r, Err(SignupError::DuplicateUsername));
    let r = users::submit_signup(&mut store, None, new_user("bob", "alice@example.com", "pw2"));
    assert_eq!(r, Err(SignupError::DuplicateEmail));
}

#[test]
fn signup_with_unreadable_cookie_still_creates_the_user() {
    let mut store = Store::new();
    let r = users::submit_signup(
        &mut store,
        Some("garbage"),
        new_user("alice", "alice@example.com", "pw"),
    );
    assert_eq!(r, Err(SignupError::SessionCookie));
    assert!(users::get_by_username(&store, "alice").is_some());
}

#[test]
fn register_user_stores_the_given_hash() {
    let mut store = Store::new();
    users::submit_signup(&mut store, None, new_user("alice", "alice@example.com", "pw"))
        .unwrap();
    // register a second user under the same, already-computed hash
    let hash = users::get_by_username(&store, "alice").unwrap().password_hash.clone();
    let out = users::register_user(
        &mut store,
        None,
        new_user("carol", "carol@example.com", "pw"),
        hash.clone(),
    )
    .unwrap();
    assert_eq!(out.user_id, 2);
    assert_eq!(users::get_by_username(&store, "carol").unwrap().password_hash, hash);
    // carol's stored hash accepts the same password
    assert!(users::submit_login(&mut store, None, &login_user("carol", "pw")).is_ok());
}

#[test]
fn signout_needs_a_logged_in_session() {
    let mut store = Store::new();
    assert_eq!(users::signout(&mut store, None), Err(SignoutError::NoSession));
    assert_eq!(users::signout(&mut store, Some("9")), Err(SignoutError::NoSession));
    users::submit_signup(&mut store, None, new_user("alice", "alice@example.com", "pw"))
        .unwrap();
    assert_eq!(users::signout(&mut store, Some("1")), Ok(()));
    // already signed out
    assert_eq!(users::signout(&mut store, Some("1")), Err(SignoutError::NotSignedIn));
}

#[test]
fn cookie_parsing_errors() {
    assert_eq!(sessions::get_id_from_cookies(None), Err(SessionError::NoCookie));
    assert_eq!(sessions::get_id_from_cookies(Some("abc")), Err(SessionError::BadCookie));
    assert_eq!(sessions::get_id_from_cookies(Some("17")), Ok(17));
    let store = Store::new();
    assert!(matches!(
        sessions::get_from_cookies(&store, Some("17")),
        Err(SessionError::UnknownSession)
    ));
}

#[test]
fn user_lookup_from_cookies() {
    let mut store = Store::new();
    assert!(matches!(
        users::get_from_cookies(&store, None),
        Err(UserLookupError::NoSession)
    ));
    users::submit_signup(&mut store, None, new_user("alice", "alice@example.com", "pw"))
        .unwrap();
    let u = users::get_from_cookies(&store, Some("1")).unwrap();
    assert_eq!(u.username, "alice");
    users::signout(&mut store, Some("1")).unwrap();
    assert!(matches!(
        users::get_from_cookies(&store, Some("1")),
        Err(UserLookupError::NotLoggedIn)
    ));
}

#[test]
fn user_lookup_with_dangling_session() {
    // a session naming a user id with no row behind it
    let store = Store {
        users: Vec::new(),
        sessions: vec![Session { id: 5, logged_in_user: Some(77) }],
        apps: Vec::new(),
        repos: Vec::new(),
        next_user_id: 1,
        next_session_id: 6,
        next_app_id: 1,
        next_repo_id: 1,
    };
    assert!(matches!(
        users::get_from_cookies(&store, Some("5")),
        Err(UserLookupError::UnknownUser)
    ));
}
