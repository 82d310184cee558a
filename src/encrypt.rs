//! Password hashing and verification with a minimum-length policy.

use vstd::prelude::*;

verus! {

/// What `bcrypt::verify` returns for a password and a digest: `Some(v)` for
/// `Ok(v)`, `None` for an error (a malformed digest).
pub uninterp spec fn bcrypt_verdict(password: Seq<char>, digest: Seq<char>) -> Option<bool>;

/// How every digest made here starts: bcrypt version 2b at cost 12.
pub const DIGEST_PREFIX: &'static str = "$2b$12$";

/// Shortest password, in characters, that may be hashed.
pub const MIN_PASSWORD_CHARS: usize = 8;

/// Why hashing or verification failed.
#[derive(Debug, Clone, Copy, PartialEq, Eq)]
pub enum HashError {
    /// An empty argument, or a password shorter than the minimum.
    InvalidInput,
    /// The digest is not a bcrypt digest.
    MalformedDigest,
    /// The hashing library could not produce a digest (no randomness for a
    /// salt).
    DependencyFailed,
}

/// Relies on `bcrypt::hash` at `bcrypt::DEFAULT_COST`: the salt is drawn at
/// random, so no result is named; a digest it returns is 60 characters long,
/// starts with the version and cost (`$2b$12$`), and `bcrypt::verify`
/// accepts the same password against it.
#[verifier::external_body]
fn bcrypt_hash(plain: &str) -> (r: Option<String>)
    ensures
        r matches Some(h) ==> h@.len() == 60 && DIGEST_PREFIX@.is_prefix_of(h@) && bcrypt_verdict(
            plain@,
            h@,
        ) == Some(true),
{
    bcrypt::hash(plain, bcrypt::DEFAULT_COST).ok()
}

/// Relies on `bcrypt::verify`: salt and cost are read from the digest, so the
/// outcome depends on the password and the digest alone.
#[verifier::external_body]
fn bcrypt_verify(plain: &str, digest: &str) -> (r: Option<bool>)
    ensures
        r == bcrypt_verdict(plain@, digest@),
{
    bcrypt::verify(plain, digest).ok()
}

/// What [`Bcrypt::verify`] returns for a password and a digest.
pub open spec fn verify_outcome(plain: Seq<char>, digest: Seq<char>) -> Result<bool, HashError> {
    if plain.len() == 0 || digest.len() == 0 {
        Err(HashError::InvalidInput)
    } else {
        match bcrypt_verdict(plain, digest) {
            Some(v) => Ok(v),
            None => Err(HashError::MalformedDigest),
        }
    }
}

/// Salted, cost-parameterised one-way password hashing.
pub struct Bcrypt;

impl Bcrypt {
    /// Hashes a password of at least eight characters.
    pub fn hash(plain: &str) -> (r: Result<String, HashError>)
        ensures
            r == Err::<String, HashError>(HashError::InvalidInput) <==> plain@.len()
                < MIN_PASSWORD_CHARS,
            r matches Ok(h) ==> h@.len() == 60 && DIGEST_PREFIX@.is_prefix_of(h@) && verify_outcome(plain@, h@) == Ok::<
                bool,
                HashError,
            >(true),
            r matches Err(e) ==> e == HashError::InvalidInput || e == HashError::DependencyFailed,
    {
        if plain.unicode_len() < MIN_PASSWORD_CHARS {
            return Err(HashError::InvalidInput);
        }
        match bcrypt_hash(plain) {
            Some(h) => Ok(h),
            None => Err(HashError::DependencyFailed),
        }
    }

    /// Checks a password against a digest made by [`Bcrypt::hash`] (at any
    /// cost factor).
    pub fn verify(plain: &str, hash: &str) -> (r: Result<bool, HashError>)
        ensures
            r == verify_outcome(plain@, hash@),
    {
        if plain.unicode_len() == 0 || hash.unicode_len() == 0 {
            return Err(HashError::InvalidInput);
        }
        match bcrypt_verify(plain, hash) {
            Some(v) => Ok(v),
            None => Err(HashError::MalformedDigest),
        }
    }
}

/// A digest that [`Bcrypt::hash`] returned for a password verifies against
/// that password.
pub proof fn lemma_hash_round_trip(plain: Seq<char>, digest: Seq<char>)
    requires
        plain.len() >= MIN_PASSWORD_CHARS,
        digest.len() == 60,
        bcrypt_verdict(plain, digest) == Some(true),
    ensures
        verify_outcome(plain, digest) == Ok::<bool, HashError>(true),
{
}

} // verus!
