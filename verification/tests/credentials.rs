//! Password credentials and the login flow.
use matrafl::credential::{hash_password, verify_password, PasswordCheck};
use matrafl::session::authz;
use matrafl::store::{Db, LoginForm, Session, UserId};

#[test]
fn password_round_trip() {
    let hash = hash_password("hunter2").unwrap();
    assert!(matches!(verify_password("hunter2", &hash), PasswordCheck::Match));
}

#[test]
fn wrong_password_is_rejected() {
    let hash = hash_password("hunter2").unwrap();
    assert!(matches!(verify_password("hunter3", &hash), PasswordCheck::Mismatch));
    assert!(matches!(verify_password("", &hash), PasswordCheck::Mismatch));
}

#[test]
fn fresh_salts_give_distinct_hashes() {
    let h1 = hash_password("hunter2").unwrap();
    let h2 = hash_password("hunter2").unwrap();
    assert_ne!(h1, h2);
    assert!(matches!(verify_password("hunter2", &h2), PasswordCheck::Match));
}

#[test]
fn malformed_hash_is_a_distinct_failure() {
    assert!(matches!(
        verify_password("hunter2", "not a phc string"),
        PasswordCheck::MalformedHash
    ));
}

#[test]
fn login_issues_resolvable_session() {
    let mut db = Db::new();
    db.create_user("alice", "hunter2").unwrap();
    let form = LoginForm { username: "alice".to_string(), password: "hunter2".to_string() };
    let token = db.login(&form, 500).expect("login should succeed");
    let uid = db.get_session_user_id(&token).expect("token should resolve");
    // The first row gets the first issued id.
    assert_eq!(uid, "1");
    let user = db.get_user("alice").unwrap();
    assert_eq!(user.id.0, "1");
}

#[test]
fn login_rejects_wrong_password_and_unknown_user() {
    let mut db = Db::new();
    db.create_user("alice", "hunter2").unwrap();
    let wrong = LoginForm { username: "alice".to_string(), password: "wrong".to_string() };
    assert!(db.login(&wrong, 500).is_none());
    let unknown = LoginForm { username: "bob".to_string(), password: "hunter2".to_string() };
    assert!(db.login(&unknown, 500).is_none());
}

#[test]
fn duplicate_username_is_refused() {
    let mut db = Db::new();
    db.create_user("alice", "hunter2").unwrap();
    let e = db.create_user("alice", "other").unwrap_err();
    assert_eq!(e, matrafl::error::Error::Conflict);
}

#[test]
fn authz_compares_session_user_to_owner() {
    let session = Session { user_id: UserId("alice".to_string()), session_id: "t".to_string() };
    assert!(authz(&session, &UserId("alice".to_string())));
    assert!(!authz(&session, &UserId("bob".to_string())));
}
