//! Password hashing and verification, delegated to argon2 behind a
//! trusted boundary.

use vstd::prelude::*;

verus! {

#[verifier::external_type_specification]
#[verifier::external_body]
pub struct ExPasswordHashError(argon2::password_hash::Error);

/// The outcome of checking a password against a stored hash: `None`
/// when the hash cannot be parsed or checked at all, otherwise whether
/// the password matches. Argon2 verification recomputes the hash from
/// the salt and parameters carried in the hash string, so the outcome
/// depends on the password and the hash alone.
pub uninterp spec fn password_check(password: Seq<char>, hash: Seq<char>) -> Option<bool>;

pub struct AuthenticationService;

impl AuthenticationService {
    /// A fresh handle on the service; it carries no state.
    pub fn new() -> (r: Self)
        ensures
            r == (AuthenticationService {}),
    {
        AuthenticationService
    }

    /// Relies on argon2's `PasswordHasher::hash_password` with default
    /// parameters: hashes the password under a freshly generated random
    /// salt, so nothing is promised of the string itself; a hash it
    /// does return verifies against the password it was computed from,
    /// which is the crate's round-trip guarantee.
    #[verifier::external_body]
    pub fn hash_password(&self, password: &str) -> (r: Result<String, argon2::password_hash::Error>)
        ensures
            r matches Ok(h) ==> password_check(password@, h@) == Some(true),
    {
        let hasher = argon2::Argon2::default();
        argon2::PasswordHasher::hash_password(&hasher, password.as_bytes()).map(|h| h.to_string())
    }

    /// Relies on argon2's `PasswordVerifier::verify_password`, which is
    /// deterministic in the password and the hash: `Ok(true)` when the
    /// password matches, `Ok(false)` when it does not
    /// (`Error::PasswordInvalid`), and the error itself when the hash
    /// cannot be parsed or checked.
    #[verifier::external_body]
    pub fn verify_password(&self, password: &str, hash: &str) -> (r: Result<bool, argon2::password_hash::Error>)
        ensures
            r matches Ok(b) ==> password_check(password@, hash@) == Some(b),
            r is Err ==> password_check(password@, hash@) is None,
    {
        let verifier = argon2::Argon2::default();
        match argon2::PasswordVerifier::verify_password(&verifier, password.as_bytes(), hash) {
            Ok(()) => Ok(true),
            Err(argon2::password_hash::Error::PasswordInvalid) => Ok(false),
            Err(e) => Err(e),
        }
    }

    /// Hashes the password and checks the fresh hash against it before
    /// handing it out: a returned hash verifies against the password.
    pub fn hash_and_verify(&self, password: &str) -> (r: Result<String, argon2::password_hash::Error>)
        ensures
            r matches Ok(h) ==> password_check(password@, h@) == Some(true),
    {
        let hash = match self.hash_password(password) {
            Ok(h) => h,
            Err(e) => {
                return Err(e);
            },
        };
        match self.verify_password(password, hash.as_str()) {
            Ok(_) => Ok(hash),
            Err(e) => Err(e),
        }
    }
}

} // verus!
