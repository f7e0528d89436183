//! Salted password hashing.
//!
//! A password is never stored; what is stored is a self-describing encoded
//! string carrying the algorithm, its parameters, the random salt and the
//! memory-hard digest. Verification re-derives the digest with the embedded
//! parameters and compares in constant time. The derivation is a vetted
//! black box; what the library states of it is that an encoded hash
//! verifies exactly the password it was created from.

use vstd::prelude::*;

use argon2::password_hash::{rand_core::OsRng, Error as PhcError, PasswordHash, SaltString};
use argon2::{Argon2, PasswordHasher, PasswordVerifier};

use vstd::utf8::encode_utf8;

use crate::errors::HashError;

verus! {

/// Whether Argon2id verification of `password` against the encoded hash
/// string `hash` succeeds: a pure function of the two strings, left
/// uninterpreted.
pub uninterp spec fn argon2_verifies(password: Seq<char>, hash: Seq<char>) -> bool;

/// Whether `hash` is an encoded string that the verifier can process:
/// it parses in the standard hash-string format and names an algorithm and
/// parameters the default Argon2 verifier supports. A pure function of the
/// string, left uninterpreted.
pub uninterp spec fn phc_valid(hash: Seq<char>) -> bool;

/// The longest password, in bytes, that the hasher accepts.
pub open spec fn password_byte_max() -> int {
    0xFFFF_FFFF
}

/// Relies on argon2::Argon2::hash_password with a fresh random salt from
/// the operating system: the encoded result is processable, verifies the
/// hashed password, and — hashing being preimage resistant — verifies no
/// other password. Holds of every outcome of the random salt.
#[verifier::external_body]
fn argon2_hash(password: &str) -> (r: Result<String, ()>)
    ensures
        r matches Ok(h) ==> phc_valid(h@),
        r matches Ok(h) ==> argon2_verifies(password@, h@),
        r matches Ok(h) ==> forall|q: Seq<char>| q != password@ ==> !argon2_verifies(q, h@),
        r is Err ==> encode_utf8(password@).len() > password_byte_max(),
{
    let salt = SaltString::generate(&mut OsRng);
    Argon2::default().hash_password(password.as_bytes(), &salt).map(|h| h.to_string()).map_err(
        |_| (),
    )
}

/// Relies on argon2::Argon2::verify_password and password_hash::PasswordHash::new:
/// a mismatch is reported as a plain `false`, and only a hash string that
/// cannot be parsed or processed is an error.
#[verifier::external_body]
fn argon2_verify(password: &str, hash: &str) -> (r: Result<bool, ()>)
    ensures
        r is Ok <==> phc_valid(hash@),
        r matches Ok(b) ==> b == argon2_verifies(password@, hash@),
{
    let parsed = match PasswordHash::new(hash) {
        Ok(p) => p,
        Err(_) => {
            return Err(());
        },
    };
    match Argon2::default().verify_password(password.as_bytes(), &parsed) {
        Ok(()) => Ok(true),
        Err(PhcError::Password) => Ok(false),
        Err(_) => Err(()),
    }
}

/// Hash a password with a fresh random salt. The returned encoded string
/// verifies the hashed password and no other, so it is never the raw
/// password and verification through it is one-way.
pub fn hash_password(password: &str) -> (r: Result<String, HashError>)
    ensures
        r matches Ok(h) ==> phc_valid(h@),
        r matches Ok(h) ==> argon2_verifies(password@, h@),
        r matches Ok(h) ==> forall|q: Seq<char>| q != password@ ==> !argon2_verifies(q, h@),
        encode_utf8(password@).len() <= password_byte_max() ==> r is Ok,
        r is Err ==> r == Err::<String, HashError>(HashError::HashingFailed),
{
    match argon2_hash(password) {
        Ok(h) => Ok(h),
        Err(_) => Err(HashError::HashingFailed),
    }
}

/// Verify a password against a stored encoded hash. A legitimate mismatch
/// is `Ok(false)`; a stored string that cannot be parsed is the distinct
/// `MalformedHash` error, and callers must collapse both to one generic
/// "invalid credentials" answer to avoid an information leak.
pub fn verify_password(password: &str, hash: &str) -> (r: Result<bool, HashError>)
    ensures
        r matches Ok(b) ==> b == argon2_verifies(password@, hash@),
        r is Ok <==> phc_valid(hash@),
        r is Err ==> r == Err::<bool, HashError>(HashError::MalformedHash),
{
    match argon2_verify(password, hash) {
        Ok(b) => Ok(b),
        Err(_) => Err(HashError::MalformedHash),
    }
}

} // verus!
