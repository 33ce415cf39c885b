use vstd::prelude::*;

use crate::service::errors::HashServiceError;
use crate::service::ports::PasswordHashService;

verus! {

/// The verdict Argon2id verification reaches for a password against a
/// stored PHC hash string: whether they match, or nothing when the
/// stored string is not a usable hash. It depends on those two values
/// alone.
pub uninterp spec fn argon2_verdict(password: Seq<char>, hash_password: Seq<char>) -> Option<bool>;

/// Relies on argon2::Argon2::hash_password (default Argon2id
/// parameters) with a fresh salt from
/// argon2::password_hash::SaltString::generate over rand_core::OsRng.
/// The random salt makes the result different on every call, so only
/// that a produced hash is non-empty is stated.
#[verifier::external_body]
fn argon2_hash(password: &str) -> (r: Result<String, HashServiceError>)
    ensures
        r matches Ok(h) ==> h@.len() > 0,
{
    let salt = argon2::password_hash::SaltString::generate(rand_core::OsRng);
    match argon2::PasswordHasher::hash_password(
        &argon2::Argon2::default(),
        password.as_bytes(),
        &salt,
    ) {
        Ok(h) => Ok(h.to_string()),
        Err(_) => Err(HashServiceError::FailedToHash),
    }
}

/// Relies on argon2::PasswordHash::new and
/// argon2::Argon2::verify_password: parsing the stored string and
/// recomputing the hash is a function of the two inputs alone, named
/// `argon2_verdict`. A mismatch is reported by the crate as
/// password_hash::Error::Password; an unusable stored string fails.
#[verifier::external_body]
fn argon2_verify(password: &str, hash_password: &str) -> (r: Result<bool, HashServiceError>)
    ensures
        match r {
            Ok(b) => argon2_verdict(password@, hash_password@) == Some(b),
            Err(_) => argon2_verdict(password@, hash_password@) is None,
        },
{
    let parsed = match argon2::PasswordHash::new(hash_password) {
        Ok(h) => h,
        Err(_) => return Err(HashServiceError::FailedToHash),
    };
    let argon = argon2::Argon2::default();
    match argon2::PasswordVerifier::verify_password(&argon, password.as_bytes(), &parsed) {
        Ok(()) => Ok(true),
        Err(argon2::password_hash::Error::Password) => Ok(false),
        Err(_) => Err(HashServiceError::FailedToHash),
    }
}

/// Password hashing backed by Argon2id with salted hashes in PHC
/// string form.
#[derive(Debug, Clone)]
pub struct PasswordHashServiceImpl;

impl PasswordHashService for PasswordHashServiceImpl {
    fn hash_password(&self, password: &str) -> Result<String, HashServiceError> {
        argon2_hash(password)
    }

    fn verify_password(&self, password: &str, hash_password: &str) -> Result<
        bool,
        HashServiceError,
    > {
        argon2_verify(password, hash_password)
    }
}

} // verus!
