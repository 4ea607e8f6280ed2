use vstd::prelude::*;
use crate::crypto::{argon2_hash_of, CryptoService, HashError, SALT_LEN};
use crate::token::AuthError;

verus! {

/// A registration request: consumed once, the password never stored.
pub struct NewUser {
    pub username: String,
    pub email: String,
    pub password: String,
}

/// A stored user record.
pub struct User {
    pub id: u128,
    pub username: String,
    pub email: String,
    pub pass_hash: String,
    pub created_at: i64,
}

/// The values handed to the persistence backend for one insert.
pub struct UserRow {
    pub username: String,
    pub email: String,
    pub pass_hash: String,
}

/// Failures of the user directory.
#[derive(Clone, Copy, Debug, PartialEq, Eq, Structural)]
pub enum UserError {
    UniquenessViolation,
    Persistence,
    Hashing,
}

/// Builds the row to insert once the password has been hashed; a hashing
/// failure is passed on and no row is built.
pub fn prepare_user(new_user: NewUser, hashed: Result<String, HashError>) -> (r: Result<UserRow, UserError>)
    ensures
        match hashed {
            Ok(h) => r is Ok && r->Ok_0.username@ == new_user.username@
                && r->Ok_0.email@ == new_user.email@ && r->Ok_0.pass_hash@ == h@,
            Err(_) => r == Err::<UserRow, UserError>(UserError::Hashing),
        },
{
    match hashed {
        Ok(h) => Ok(UserRow { username: new_user.username, email: new_user.email, pass_hash: h }),
        Err(_) => Err(UserError::Hashing),
    }
}

/// Classifies a failed insert: a violated unique constraint on username or
/// email is a conflict, anything else a persistence error.
pub fn insert_error(unique_violation: bool) -> (r: UserError)
    ensures
        r == (if unique_violation {
            UserError::UniquenessViolation
        } else {
            UserError::Persistence
        }),
{
    if unique_violation {
        UserError::UniquenessViolation
    } else {
        UserError::Persistence
    }
}

/// Binds a request to the directory handle it carries, or refuses it as not
/// authorized; nothing is partly granted.
pub fn resolve<T>(handle: Option<T>) -> (r: Result<T, AuthError>)
    ensures
        match handle {
            Some(h) => r == Ok::<T, AuthError>(h),
            None => r == Err::<T, AuthError>(AuthError::NotAuthorized),
        },
{
    match handle {
        Some(h) => Ok(h),
        None => Err(AuthError::NotAuthorized),
    }
}

impl CryptoService {
    /// Hashes the new user's password and builds the row to insert; the
    /// stored hash is the Argon2 hash of the password under a fresh salt.
    pub fn user_row(&self, new_user: NewUser) -> (r: Result<UserRow, UserError>)
        ensures
            exists|salt: Seq<u8>|
                #![trigger argon2_hash_of(new_user.password@, salt, (*self.key)@)]
                salt.len() == SALT_LEN && match r {
                    Ok(row) => row.username@ == new_user.username@ && row.email@
                        == new_user.email@ && argon2_hash_of(
                        new_user.password@,
                        salt,
                        (*self.key)@,
                    ) == Some(row.pass_hash@),
                    Err(e) => e == UserError::Hashing && argon2_hash_of(
                        new_user.password@,
                        salt,
                        (*self.key)@,
                    ) is None,
                },
    {
        let hashed = self.hash_password(new_user.password.as_str());
        prepare_user(new_user, hashed)
    }
}

} // verus!
