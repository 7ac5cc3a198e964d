//! Password hashing and verification for the account boundary.
//!
//! Hashing draws a fresh random salt, so nothing is assumed about the
//! hash string itself beyond the crate's round-trip guarantee: a
//! freshly produced hash parses and verifies against the password it
//! was made from.

use vstd::prelude::*;
use vstd::string::*;
use argon2::Argon2;
use password_hash::{PasswordHash, PasswordHasher, PasswordVerifier, SaltString};
use rand_core::OsRng;

verus! {

/// Errors of registration and login.
#[derive(Clone, Debug)]
pub enum AuthError {
    /// The email is already registered.
    EmailTaken,
    /// The email or the password is wrong.
    InvalidCredentials,
    /// The storage layer failed; the message describes how.
    Db(String),
    /// A password hash could not be produced or parsed.
    Hash,
}

/// The stored hash is a well-formed PHC string, a function of the
/// string alone.
pub uninterp spec fn phc_parse_ok(hash: Seq<char>) -> bool;

/// Whether verification of a password against a stored PHC hash
/// succeeds: a function of the two strings alone.
pub uninterp spec fn password_verify_ok(hash: Seq<char>, password: Seq<char>) -> bool;

/// Relies on argon2's `hash_password` with a salt from the OS RNG.
/// The salt is random, so nothing is assumed of the hash string
/// except the documented round trip: it parses, and it verifies
/// against the password it hashes.
#[verifier::external_body]
fn argon2_hash(password: &str) -> (r: Option<String>)
    ensures
        r matches Some(h) ==> phc_parse_ok(h@) && password_verify_ok(h@, password@),
{
    let salt = SaltString::generate(&mut OsRng);
    let argon2 = Argon2::default();
    match argon2.hash_password(password.as_bytes(), &salt) {
        Ok(h) => Some(h.to_string()),
        Err(_) => None,
    }
}

/// Relies on password_hash's `PasswordHash::new` (parsing depends on
/// the hash string alone) and argon2's `verify_password`
/// (deterministic in the hash and password).
#[verifier::external_body]
fn argon2_check(stored_hash: &str, password: &str) -> (r: Result<bool, ()>)
    ensures
        r is Ok <==> phc_parse_ok(stored_hash@),
        r matches Ok(b) ==> b == password_verify_ok(stored_hash@, password@),
{
    match PasswordHash::new(stored_hash) {
        Ok(parsed) => Ok(Argon2::default().verify_password(password.as_bytes(), &parsed).is_ok()),
        Err(_) => Err(()),
    }
}

/// Hash a plain-text password with a fresh random salt. A returned
/// hash verifies against the given password.
pub fn hash_password(password: &str) -> (r: Result<String, AuthError>)
    ensures
        r matches Ok(h) ==> phc_parse_ok(h@) && password_verify_ok(h@, password@),
        r matches Err(e) ==> e is Hash,
{
    match argon2_hash(password) {
        Some(h) => Ok(h),
        None => Err(AuthError::Hash),
    }
}

/// Verify a plain-text password against a stored hash: `Hash` when
/// the stored string is no valid PHC hash, `InvalidCredentials` when
/// it is but the password does not match.
pub fn verify_password(stored_hash: &str, password: &str) -> (r: Result<(), AuthError>)
    ensures
        r is Ok <==> phc_parse_ok(stored_hash@) && password_verify_ok(stored_hash@, password@),
        !phc_parse_ok(stored_hash@) ==> (r matches Err(e) && e is Hash),
        phc_parse_ok(stored_hash@) && !password_verify_ok(stored_hash@, password@) ==> (
        r matches Err(e) && e is InvalidCredentials),
    {
    match argon2_check(stored_hash, password) {
        Err(_) => Err(AuthError::Hash),
        Ok(true) => Ok(()),
        Ok(false) => Err(AuthError::InvalidCredentials),
    }
}

impl AuthError {
    /// The HTTP status code this error maps to at the boundary.
    pub fn status_code(&self) -> (code: u16)
        ensures
            code == match self {
                AuthError::EmailTaken => 409u16,
                AuthError::InvalidCredentials => 401u16,
                AuthError::Db(_) => 500u16,
                AuthError::Hash => 500u16,
            },
    {
        match self {
            AuthError::EmailTaken => 409,
            AuthError::InvalidCredentials => 401,
            AuthError::Db(_) => 500,
            AuthError::Hash => 500,
        }
    }

    /// The stable error label reported at the boundary.
    pub fn label(&self) -> (m: String)
        ensures
            m@ == match self {
                AuthError::EmailTaken => "email_taken"@,
                AuthError::InvalidCredentials => "invalid_credentials"@,
                AuthError::Db(_) => "internal_error"@,
                AuthError::Hash => "internal_error"@,
            },
    {
        match self {
            AuthError::EmailTaken => String::from_str("email_taken"),
            AuthError::InvalidCredentials => String::from_str("invalid_credentials"),
            AuthError::Db(_) => String::from_str("internal_error"),
            AuthError::Hash => String::from_str("internal_error"),
        }
    }
}

} // verus!
