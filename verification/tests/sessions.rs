//! Sessions: round trip, hashing of stored keys, expiry by age, and the purge.
use matrafl::session::{session_key, SESSION_DAYS};
use matrafl::store::{Db, UserId};

const DAY: u64 = 86400;

#[test]
fn session_round_trip() {
    let mut db = Db::new();
    let alice = UserId("alice".to_string());
    let token = db.create_session(&alice, 1000);
    assert_eq!(db.get_session_user_id(&token), Some("alice".to_string()));
    db.delete_session(&token);
    assert_eq!(db.get_session_user_id(&token), None);
}

#[test]
fn delete_session_is_idempotent() {
    let mut db = Db::new();
    let alice = UserId("alice".to_string());
    let token = db.create_session(&alice, 1000);
    db.delete_session(&token);
    db.delete_session(&token);
    assert_eq!(db.get_session_user_id(&token), None);
}

#[test]
fn unknown_token_resolves_to_nothing() {
    let db = Db::new();
    assert_eq!(db.get_session_user_id("not-a-token"), None);
}

#[test]
fn tokens_are_unique_per_session() {
    let mut db = Db::new();
    let alice = UserId("alice".to_string());
    let t1 = db.create_session(&alice, 1000);
    let t2 = db.create_session(&alice, 1000);
    assert_ne!(t1, t2);
    assert_eq!(db.get_session_user_id(&t1), Some("alice".to_string()));
    assert_eq!(db.get_session_user_id(&t2), Some("alice".to_string()));
}

#[test]
fn stored_key_is_hex_sha256_of_token() {
    // Standard SHA-256 test vector: the digest of "abc", hex-encoded in
    // lowercase. The stored session key is exactly this derivation.
    assert_eq!(
        session_key("abc"),
        "ba7816bf8f01cfea414140de5dae2223b00361a396177a9cb410ff61f20015ad"
    );
}

#[test]
fn session_expires_by_age_only() {
    let mut db = Db::new();
    let alice = UserId("alice".to_string());
    let t0 = 10_000;
    let n = SESSION_DAYS as u64;
    let token = db.create_session(&alice, t0);

    // Still resolvable one day before the cutoff, even after a purge.
    db.delete_expired_sessions(t0 + (n - 1) * DAY, SESSION_DAYS);
    assert_eq!(db.get_session_user_id(&token), Some("alice".to_string()));

    // One day past the cutoff the purge removes it.
    db.delete_expired_sessions(t0 + (n + 1) * DAY, SESSION_DAYS);
    assert_eq!(db.get_session_user_id(&token), None);
}

#[test]
fn purge_is_idempotent_and_safe_on_empty() {
    let mut db = Db::new();
    db.delete_expired_sessions(1_000_000, SESSION_DAYS);
    let alice = UserId("alice".to_string());
    let token = db.create_session(&alice, 1_000_000);
    db.delete_expired_sessions(1_000_000 + 99 * DAY, SESSION_DAYS);
    db.delete_expired_sessions(1_000_000 + 99 * DAY, SESSION_DAYS);
    assert_eq!(db.get_session_user_id(&token), None);
}
