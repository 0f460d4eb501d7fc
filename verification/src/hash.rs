//! Password hashing and verification, an opaque outside collaborator: the
//! flows never inspect a hash, they only carry it and hand it back for
//! verification.
use argon2::password_hash::phc::PasswordHash;
use argon2::password_hash::{PasswordHasher, PasswordVerifier};
use vstd::prelude::*;

verus! {

/// Whether `password` verifies against the password-hash string `hash`,
/// exactly as argon2's verifier decides it. The salt and the parameters
/// are part of the hash string, so the result depends on the two
/// arguments alone.
pub uninterp spec fn password_matches(hash: Seq<char>, password: Seq<char>) -> bool;

/// Relies on argon2's `hash_password`: it hashes with a freshly drawn
/// random salt into a PHC string, which always starts with `$`, and
/// argon2's verifier accepts the same password against the result.
#[verifier::external_body]
pub fn password(raw: &str) -> (r: Option<String>)
    ensures
        match r {
            Some(h) => h@.len() > 0 && h@[0] == '$' && password_matches(h@, raw@),
            None => true,
        },
{
    match argon2::Argon2::default().hash_password(raw.as_bytes()) {
        Ok(h) => Some(h.to_string()),
        Err(_) => None,
    }
}

/// Relies on argon2's `verify_password`: deterministic in the hash string
/// and the password; a string that does not parse as a password hash
/// matches nothing.
#[verifier::external_body]
pub fn verify_password(hash: &str, password: &str) -> (r: bool)
    ensures
        r == password_matches(hash@, password@),
{
    match PasswordHash::new(hash) {
        Ok(parsed) => {
            argon2::Argon2::default().verify_password(password.as_bytes(), &parsed).is_ok()
        },
        Err(_) => false,
    }
}

} // verus!
