//! Credential and authentication core of a user service: the secret store,
//! password hashing, signed expiring tokens and the user-directory steps.
use vstd::prelude::*;

pub mod config;
pub mod crypto;
pub mod hex;
pub mod token;
pub mod user;
