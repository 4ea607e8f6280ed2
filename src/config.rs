use std::sync::Arc;
use vstd::prelude::*;
use crate::crypto::CryptoService;

verus! {

/// Process configuration: listen address, persistence connection string and
/// the two secrets.
pub struct Config {
    pub host: String,
    pub port: i32,
    pub database_url: String,
    pub secret_key: String,
    pub jwt_secret: String,
}

impl Config {
    /// Builds the secret store from the configured hash key and signing key,
    /// each wrapped on its own.
    pub fn crypto_service(&self) -> (r: CryptoService)
        ensures
            (*r.key)@ == self.secret_key@,
            (*r.jwt_secret)@ == self.jwt_secret@,
    {
        CryptoService {
            key: Arc::new(self.secret_key.clone()),
            jwt_secret: Arc::new(self.jwt_secret.clone()),
        }
    }
}

} // verus!
