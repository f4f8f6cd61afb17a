//! Password credentials: one-way, memory-hard hashing with a per-password
//! random salt, and verification against the stored self-describing hash
//! string. A malformed stored hash is a distinct failure from a mismatch.
use vstd::prelude::*;

use argon2::password_hash::{rand_core::OsRng, PasswordHasher, PasswordVerifier, SaltString};
use argon2::{Argon2, PasswordHash};

use crate::error::Error;

verus! {

/// Whether a password matches a stored hash string, as argon2's verification
/// decides it. The outcome depends on the two strings alone, so it carries a
/// name; a string that does not even parse never matches.
pub uninterp spec fn password_verifies(password: Seq<char>, hash: Seq<char>) -> bool;

/// Outcome of holding a password against a stored hash string.
#[derive(Clone, Copy, PartialEq, Eq, Structural, Debug)]
pub enum PasswordCheck {
    Match,
    Mismatch,
    MalformedHash,
}

/// Relies on argon2's `Argon2::hash_password` with the default parameters and
/// a fresh `SaltString` from `OsRng`: on success it returns a PHC string that
/// verifies against the same password. The salt is random, so nothing else is
/// promised of the string's value.
#[verifier::external_body]
fn argon2_hash_password(password: &str) -> (r: Result<String, Error>)
    ensures
        r matches Ok(h) ==> password_verifies(password@, h@),
{
    let salt = SaltString::generate(&mut OsRng);
    match Argon2::default().hash_password(password.as_bytes(), &salt) {
        Ok(h) => Ok(h.to_string()),
        Err(_) => Err(Error::CredentialError),
    }
}

/// Relies on argon2's `PasswordHash::new` and `Argon2::verify_password`: the
/// parse-then-verify pipeline succeeds exactly when the password matches the
/// stored string; a parse failure is malformed, a `Password` error a
/// mismatch, and anything else malformed.
#[verifier::external_body]
fn argon2_check_password(password: &str, hash: &str) -> (r: PasswordCheck)
    ensures
        (r is Match) == password_verifies(password@, hash@),
{
    let parsed = match PasswordHash::new(hash) {
        Ok(p) => p,
        Err(_) => return PasswordCheck::MalformedHash,
    };
    match Argon2::default().verify_password(password.as_bytes(), &parsed) {
        Ok(()) => PasswordCheck::Match,
        Err(argon2::password_hash::Error::Password) => PasswordCheck::Mismatch,
        Err(_) => PasswordCheck::MalformedHash,
    }
}

/// Hashes a plaintext password with a fresh random salt into one
/// self-describing string. Two calls on the same password give independently
/// salted, different strings; each verifies against that password.
pub fn hash_password(password: &str) -> (r: Result<String, Error>)
    ensures
        r matches Ok(h) ==> password_verifies(password@, h@),
        r matches Err(e) ==> e is CredentialError,
    {
    match argon2_hash_password(password) {
        Ok(h) => Ok(h),
        Err(_) => Err(Error::CredentialError),
    }
}

/// Verifies a plaintext password against a stored hash string. `Match` comes
/// exactly on the inputs where argon2's verification succeeds; a stored
/// string that cannot be parsed is `MalformedHash`, never `Match`.
pub fn verify_password(password: &str, hash: &str) -> (r: PasswordCheck)
    ensures
        (r is Match) == password_verifies(password@, hash@),
{
    argon2_check_password(password, hash)
}

} // verus!
