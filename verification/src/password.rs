//! One-way salted password hashing and verification, the credential hasher
//! behind registration and login.
//!
//! The memory-hard hash itself is computed by the argon2 crate; what this
//! module pins down is the round trip: an encoded hash produced from a
//! password verifies against that password, and verification is a function
//! of the password and the encoded string alone, so a malformed stored hash
//! simply fails to verify instead of failing the caller.

use vstd::prelude::*;

use crate::error::Error;

verus! {

/// Whether the hashing backend accepts `password` against the
/// self-describing encoded string `phc`: parse the string, re-derive the
/// digest with the salt and parameters embedded in it, and compare. The
/// outcome depends on the two arguments alone; a string that does not parse
/// verifies no password.
pub uninterp spec fn phc_verifies(password: Seq<char>, phc: Seq<char>) -> bool;

/// Relies on argon2: `SaltString::generate` draws a fresh random salt from
/// the operating system, and `Argon2::default().hash_password` derives the
/// digest and encodes algorithm, parameters, salt and digest as one PHC
/// string. Verification re-derives the digest from that string's own salt
/// and parameters, so the returned encoding verifies against `password`;
/// the salt is random, so nothing more is promised of the value. A backend
/// failure comes back as `None`.
#[verifier::external_body]
fn argon2_hash(password: &str) -> (r: Option<String>)
    ensures
        r matches Some(phc) ==> phc_verifies(password@, phc@),
{
    let salt = argon2::password_hash::SaltString::generate(
        &mut argon2::password_hash::rand_core::OsRng,
    );
    match argon2::PasswordHasher::hash_password(
        &argon2::Argon2::default(),
        password.as_bytes(),
        &salt,
    ) {
        Ok(hash) => Some(hash.to_string()),
        Err(_) => None,
    }
}

/// Relies on argon2: `PasswordHash::new` parses the encoded string and
/// `Argon2::default().verify_password` re-derives the digest with the salt
/// and parameters taken from it, comparing in constant time. Both read only
/// their arguments, so the outcome is a function of the password and the
/// encoded string; a string that does not parse verifies nothing.
#[verifier::external_body]
fn argon2_verify(password: &str, phc: &str) -> (r: bool)
    ensures
        r == phc_verifies(password@, phc@),
{
    match argon2::password_hash::PasswordHash::new(phc) {
        Ok(parsed) => argon2::PasswordVerifier::verify_password(
            &argon2::Argon2::default(),
            password.as_bytes(),
            &parsed,
        )
            .is_ok(),
        Err(_) => false,
    }
}

/// Hashes `password` with a fresh random salt into a self-describing encoded
/// string. On success the result verifies against the password that produced
/// it — `verify_password(p, hash_password(p))` holds — and two calls return
/// different encodings because each draws its own salt. A backend failure is
/// an internal error, never an authentication outcome.
pub fn hash_password(password: &str) -> (r: Result<String, Error>)
    ensures
        r matches Ok(phc) ==> phc_verifies(password@, phc@),
        r matches Err(e) ==> e == Error::HashingBackend,
{
    match argon2_hash(password) {
        Some(phc) => Ok(phc),
        None => Err(Error::HashingBackend),
    }
}

/// Whether `password` matches the stored encoded hash. A malformed stored
/// hash never fails the caller: it makes authentication fail exactly like a
/// wrong password.
pub fn verify_password(password: &str, password_hash: &str) -> (r: bool)
    ensures
        r == phc_verifies(password@, password_hash@),
{
    argon2_verify(password, password_hash)
}

} // verus!
