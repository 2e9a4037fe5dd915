//! Credential hashing: a plaintext password becomes a salted, self-describing
//! encoded hash string, and a candidate password is checked against a stored
//! hash by recomputing the derivation with the embedded salt and parameters.
use vstd::prelude::*;
use argon2::password_hash::{PasswordHasher, PasswordVerifier};

verus! {

/// Whether a stored string parses as a self-describing encoded password hash
/// (algorithm identifier, version, cost parameters, salt and digest all
/// embedded in one string).
pub uninterp spec fn phc_parses(stored: Seq<char>) -> bool;

/// Whether a candidate password matches an encoded hash. The encoded string
/// carries the algorithm, its parameters and the salt, so the outcome is a
/// function of the two arguments alone.
pub uninterp spec fn phc_matches(stored: Seq<char>, candidate: Seq<u8>) -> bool;

/// The hashing subsystem itself failed (salt generation or encoding).
/// A failed hash is fatal to the caller: it must never be stored.
#[derive(Debug, PartialEq, Eq)]
pub struct HashError;

/// Why a verification attempt failed.
#[derive(Debug, PartialEq, Eq)]
pub enum VerifyError {
    /// The stored string does not parse as an encoded hash (data corruption).
    Malformed,
    /// The candidate password does not match the stored hash.
    Mismatch,
}

/// The outcome verification owes for a stored string and candidate bytes.
pub open spec fn spec_verify(stored: Seq<char>, candidate: Seq<u8>) -> Result<(), VerifyError> {
    if !phc_parses(stored) {
        Err(VerifyError::Malformed)
    } else if !phc_matches(stored, candidate) {
        Err(VerifyError::Mismatch)
    } else {
        Ok(())
    }
}

/// Relies on argon2::password_hash::PasswordHash::new: whether a string
/// parses as a PHC-encoded hash depends on the string alone.
#[verifier::external_body]
fn phc_parse_check(stored: &str) -> (r: bool)
    ensures
        r == phc_parses(stored@),
{
    argon2::password_hash::PasswordHash::new(stored).is_ok()
}

/// Relies on argon2::Argon2::verify_password (on a stored string already
/// known to parse): recomputes the derivation with the parameters and salt
/// embedded in the stored string and compares the digests; deterministic in
/// the stored string and the candidate bytes.
#[verifier::external_body]
fn phc_verify(stored: &str, candidate: &[u8]) -> (r: bool)
    requires
        phc_parses(stored@),
    ensures
        r == phc_matches(stored@, candidate@),
{
    match argon2::password_hash::PasswordHash::new(stored) {
        Ok(parsed) => argon2::Argon2::default().verify_password(candidate, &parsed).is_ok(),
        Err(_) => false,
    }
}

/// Relies on argon2::Argon2::hash_password with a fresh salt from
/// argon2::password_hash::SaltString::generate: whatever salt the operating
/// system's random generator yields, the encoded result parses back and
/// verifies against the very password it was derived from.
#[verifier::external_body]
fn phc_hash(password: &[u8]) -> (r: Result<String, HashError>)
    ensures
        r matches Ok(h) ==> phc_parses(h@) && phc_matches(h@, password@),
{
    let salt = argon2::password_hash::SaltString::generate(&mut rand_core::OsRng);
    match argon2::Argon2::default().hash_password(password, &salt) {
        Ok(h) => Ok(h.to_string()),
        Err(_) => Err(HashError),
    }
}

/// Hash a plaintext password into a storable encoded string. A fresh random
/// salt is drawn per call, so two calls on the same password may return
/// different strings; every string returned verifies against the password.
pub fn hash_password(password: &[u8]) -> (r: Result<String, HashError>)
    ensures
        r matches Ok(h) ==> phc_parses(h@) && phc_matches(h@, password@),
{
    phc_hash(password)
}

/// Check a candidate password against a stored encoded hash. Succeeds exactly
/// when the stored string parses and the candidate matches; a string that
/// does not parse is reported apart from a mismatch so the store can tell
/// corruption from a wrong password, though flows collapse the two.
pub fn verify_password(stored: &str, candidate: &[u8]) -> (r: Result<(), VerifyError>)
    ensures
        r == spec_verify(stored@, candidate@),
{
    if !phc_parse_check(stored) {
        Err(VerifyError::Malformed)
    } else if !phc_verify(stored, candidate) {
        Err(VerifyError::Mismatch)
    } else {
        Ok(())
    }
}

/// Law: an encoded hash produced for a password verifies against that
/// password — the hasher's guarantee fed into the verifier's contract.
pub proof fn lemma_hash_then_verify(stored: Seq<char>, password: Seq<u8>)
    requires
        phc_parses(stored),
        phc_matches(stored, password),
    ensures
        spec_verify(stored, password) == Ok::<(), VerifyError>(()),
{
}

/// Law: any two encoded hashes produced for one password — two calls draw
/// two salts, so the strings may well differ — both verify against it.
pub proof fn lemma_two_hashes_both_verify(first: Seq<char>, second: Seq<char>, password: Seq<u8>)
    requires
        phc_parses(first),
        phc_matches(first, password),
        phc_parses(second),
        phc_matches(second, password),
    ensures
        spec_verify(first, password) == Ok::<(), VerifyError>(()),
        spec_verify(second, password) == Ok::<(), VerifyError>(()),
{
}

/// Law: verification against a well-formed stored hash rejects exactly the
/// candidates that do not match it.
pub proof fn lemma_verify_rejects_mismatch(stored: Seq<char>, candidate: Seq<u8>)
    requires
        phc_parses(stored),
        !phc_matches(stored, candidate),
    ensures
        spec_verify(stored, candidate) == Err::<(), VerifyError>(VerifyError::Mismatch),
{
}

} // verus!
