use std::sync::Arc;
use vstd::prelude::*;

verus! {

/// Shared, read-only holder of the two long-lived secrets: the password-hashing
/// key and the token-signing key. Cloning it shares the underlying strings.
#[derive(Clone)]
pub struct CryptoService {
    pub key: Arc<String>,
    pub jwt_secret: Arc<String>,
}

/// Failure of the password-hashing backend.
#[derive(Clone, Copy, Debug, PartialEq, Eq, Structural)]
pub enum HashError {
    Backend,
}

/// Number of random salt bytes drawn for each new hash.
pub const SALT_LEN: usize = 16;

/// Encoded Argon2 hash of `password` under `salt` and the keyed `secret`,
/// with the default parameters; `None` where the backend rejects the inputs.
pub uninterp spec fn argon2_hash_of(password: Seq<char>, salt: Seq<u8>, secret: Seq<char>) -> Option<Seq<char>>;

/// Whether `password` matches the encoded hash `encoded` under `secret`;
/// `None` where the encoding cannot be read or the backend fails.
pub uninterp spec fn argon2_verify_of(password: Seq<char>, encoded: Seq<char>, secret: Seq<char>) -> Option<bool>;

/// Relies on rand::random: a fresh array of salt bytes from the thread-local
/// generator. Nothing is known of the bytes but their number.
#[verifier::external_body]
fn fresh_salt() -> (r: Vec<u8>)
    ensures
        r@.len() == SALT_LEN,
{
    rand::random::<[u8; 16]>().to_vec()
}

/// Relies on argon2::hash_encoded with argon2::Config::default() and the
/// secret set: the encoded hash depends on password, salt and secret alone.
#[verifier::external_body]
fn argon2_hash(password: &str, salt: &Vec<u8>, secret: &str) -> (r: Option<String>)
    ensures
        r is Some <==> argon2_hash_of(password@, salt@, secret@) is Some,
        r is Some ==> argon2_hash_of(password@, salt@, secret@) == Some(r->Some_0@),
{
    let config = argon2::Config { secret: secret.as_bytes(), ..argon2::Config::default() };
    argon2::hash_encoded(password.as_bytes(), salt, &config).ok()
}

/// Relies on argon2::verify_encoded_ext with the secret and no associated
/// data: the outcome depends on the encoded hash, password and secret alone.
#[verifier::external_body]
fn argon2_verify(password: &str, encoded: &str, secret: &str) -> (r: Option<bool>)
    ensures
        r == argon2_verify_of(password@, encoded@, secret@),
{
    argon2::verify_encoded_ext(encoded, password.as_bytes(), secret.as_bytes(), &[]).ok()
}

/// What verifying `password` against `stored` under `secret` gives.
pub open spec fn verify_outcome(password: Seq<char>, stored: Seq<char>, secret: Seq<char>) -> Result<bool, HashError> {
    match argon2_verify_of(password, stored, secret) {
        Some(b) => Ok(b),
        None => Err(HashError::Backend),
    }
}

impl CryptoService {
    /// The password-hashing key.
    pub fn hash_key(&self) -> (r: &Arc<String>)
        ensures
            r == &self.key,
    {
        &self.key
    }

    /// The token-signing key.
    pub fn signing_key(&self) -> (r: &Arc<String>)
        ensures
            r == &self.jwt_secret,
    {
        &self.jwt_secret
    }

    /// Hashes `password` with a freshly drawn salt, keyed by the hash key.
    /// The result is the Argon2 hash of the password under some salt of
    /// `SALT_LEN` bytes; an error means the backend refused that salt.
    pub fn hash_password(&self, password: &str) -> (r: Result<String, HashError>)
        ensures
            exists|salt: Seq<u8>|
                #![trigger argon2_hash_of(password@, salt, (*self.key)@)]
                salt.len() == SALT_LEN && match r {
                    Ok(h) => argon2_hash_of(password@, salt, (*self.key)@) == Some(h@),
                    Err(e) => e == HashError::Backend && argon2_hash_of(
                        password@,
                        salt,
                        (*self.key)@,
                    ) is None,
                },
    {
        let salt = fresh_salt();
        let key: &String = &self.key;
        match argon2_hash(password, &salt, key.as_str()) {
            Some(h) => Ok(h),
            None => Err(HashError::Backend),
        }
    }

    /// Checks `password` against the stored hash under the hash key. A
    /// mismatch is `Ok(false)`; an unreadable hash or a backend failure is an
    /// error.
    pub fn verify_password(&self, password: &str, stored: &str) -> (r: Result<bool, HashError>)
        ensures
            r == verify_outcome(password@, stored@, (*self.key)@),
    {
        let key: &String = &self.key;
        match argon2_verify(password, stored, key.as_str()) {
            Some(b) => Ok(b),
            None => Err(HashError::Backend),
        }
    }
}

} // verus!
