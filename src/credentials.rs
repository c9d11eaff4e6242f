//! Password hashing with Argon2: a fresh random salt per hash, and
//! verification of a plaintext against a stored PHC-encoded hash.

use argon2::password_hash::rand_core::OsRng;
use argon2::password_hash::SaltString;
use argon2::{Argon2, PasswordHash, PasswordHasher, PasswordVerifier};
use vstd::prelude::*;

use crate::domain::Password;

verus! {

/// What Argon2 (default parameters) says of `password` against the PHC
/// string `phc`: `Some(true)` on a match, `Some(false)` on a mismatch, `None`
/// when the string cannot be parsed or used.
pub uninterp spec fn argon2_verdict(password: Seq<char>, phc: Seq<char>) -> Option<bool>;

/// Most characters of a password that Argon2 takes: it accepts up to
/// `u32::MAX` bytes, and a character takes at most four bytes in UTF-8.
pub const MAX_HASHABLE_CHARS: usize = 0x3FFF_FFFF;

/// Argon2 can hash this password.
pub open spec fn hashable(password: Seq<char>) -> bool {
    password.len() <= MAX_HASHABLE_CHARS
}

/// A password hash and its salt, both encoded as text for storage.
pub struct HashedPassword {
    pub hash: String,
    pub salt: String,
}

/// Relies on argon2's `PasswordHasher::hash_password` (default parameters) with a
/// salt from `SaltString::generate(OsRng)`: the PHC string it yields embeds the
/// salt and parameters, so verifying the same password against it succeeds.
/// Hashing fails only for a password longer than `u32::MAX` bytes.
#[verifier::external_body]
fn argon2_hash(password: &str) -> (r: Option<HashedPassword>)
    ensures
        hashable(password@) ==> r is Some,
        r matches Some(h) ==> argon2_verdict(password@, h.hash@) == Some(true),
{
    let salt = SaltString::generate(&mut OsRng);
    match Argon2::default().hash_password(password.as_bytes(), &salt) {
        Ok(hash) => Some(HashedPassword { hash: hash.to_string(), salt: salt.to_string() }),
        Err(_) => None,
    }
}

/// Relies on argon2's `PasswordHash::new` and `PasswordVerifier::verify_password`,
/// which recompute the hash from the parameters and salt embedded in `phc`:
/// the outcome depends on the two strings alone.
#[verifier::external_body]
fn argon2_verify(password: &str, phc: &str) -> (r: Option<bool>)
    ensures
        r == argon2_verdict(password@, phc@),
{
    match PasswordHash::new(phc) {
        Ok(parsed) => match Argon2::default().verify_password(password.as_bytes(), &parsed) {
            Ok(()) => Some(true),
            Err(argon2::password_hash::Error::Password) => Some(false),
            Err(_) => None,
        },
        Err(_) => None,
    }
}

/// Hashes a password with a fresh salt. `None` when the hasher fails, which
/// happens only for a password longer than `MAX_HASHABLE_CHARS`.
pub fn hash_password(password: &Password) -> (r: Option<HashedPassword>)
    ensures
        hashable(password@) ==> r is Some,
        r matches Some(h) ==> argon2_verdict(password@, h.hash@) == Some(true),
{
    argon2_hash(password.as_ref())
}

/// Checks a plaintext against a stored hash: `Some(true)` on a match,
/// `Some(false)` on a mismatch, `None` when the stored hash is malformed.
pub fn verify_password(password: &str, stored_hash: &str) -> (r: Option<bool>)
    ensures
        r == argon2_verdict(password@, stored_hash@),
{
    argon2_verify(password, stored_hash)
}

} // verus!
