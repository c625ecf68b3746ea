//! Password hashing and verification, through argon2. Hashing is
//! memory-hard and salted per call; only the encoded hash string is
//! ever stored. What the algorithm computes is left opaque: the
//! named facts are `argon2_accepts`, the verification outcome, and
//! `argon2_parses`, whether a stored string is a well-formed encoded
//! hash — each a function of its arguments alone.

use vstd::prelude::*;

verus! {

/// Whether `password` verifies against the encoded Argon2 hash
/// `hash`. The encoded string carries the algorithm, version,
/// parameters and salt, so the outcome is a function of these two
/// values alone.
pub uninterp spec fn argon2_accepts(password: Seq<char>, hash: Seq<char>) -> bool;

/// Whether `hash` parses as an encoded password-hash string: the
/// success of `PasswordHash::new`, a function of the string alone.
/// Every hash this module produces parses.
pub uninterp spec fn argon2_parses(hash: Seq<char>) -> bool;

/// Failure of a hashing-side operation.
#[derive(Debug)]
pub enum PasswordError {
    HashingFailed,
    MalformedHash,
}

/// Relies on argon2's `PasswordHasher::hash_password` with a fresh
/// `SaltString::generate(OsRng)` salt: the encoded hash it returns
/// parses back, and verifies against the same password, since
/// verification recomputes the hash from the salt and parameters
/// embedded in the encoded string. With the generated 16-byte salt
/// and default parameters the call fails only for a password over
/// the algorithm's byte bound, which any password under 2^30
/// characters stays within. The salt is random, so nothing else is
/// assumed of the returned string.
#[verifier::external_body]
pub fn hash_password(password: &str) -> (r: Result<String, PasswordError>)
    ensures
        r matches Ok(h) ==> argon2_accepts(password@, h@) && argon2_parses(h@),
        password@.len() < 0x40000000 ==> r is Ok,
{
    let salt = argon2::password_hash::SaltString::generate(&mut rand_core::OsRng);
    let argon2 = argon2::Argon2::default();
    match argon2::PasswordHasher::hash_password(&argon2, password.as_bytes(), &salt) {
        Ok(hash) => Ok(hash.to_string()),
        Err(_) => Err(PasswordError::HashingFailed),
    }
}

/// Relies on argon2's `PasswordVerifier::verify_password` through
/// `PasswordHash::new`: a string that parses is verified by
/// recomputing the hash with the salt and parameters it carries and
/// comparing in constant time, so the call succeeds exactly on
/// parseable strings and its answer is `argon2_accepts` exactly; a
/// string that does not parse is the one refusal.
#[verifier::external_body]
pub fn verify_password(password: &str, password_hash: &str) -> (r: Result<bool, PasswordError>)
    ensures
        r is Ok <==> argon2_parses(password_hash@),
        r matches Ok(b) ==> b == argon2_accepts(password@, password_hash@),
{
    let parsed = match argon2::password_hash::PasswordHash::new(password_hash) {
        Ok(p) => p,
        Err(_) => return Err(PasswordError::MalformedHash),
    };
    let argon2 = argon2::Argon2::default();
    Ok(argon2::PasswordVerifier::verify_password(&argon2, password.as_bytes(), &parsed).is_ok())
}

} // verus!
