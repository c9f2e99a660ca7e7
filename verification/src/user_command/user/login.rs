//! Checking a login and describing the token it earns.

use vstd::prelude::*;
use crate::password::{verify_password, bcrypt_verify_result};
use crate::user_command::utils::Claims;

verus! {

/// The body of a `UserLoggedIn` event.
#[derive(Debug, Clone, PartialEq)]
pub struct UserLoggedInData {
    pub token: String,
}

/// A user's id and password hash as the user store holds them.
#[derive(Debug, Clone, PartialEq)]
pub struct StoredCredentials {
    pub id: String,
    pub password_hash: String,
}

/// How long an issued token stays valid, in seconds.
pub const TOKEN_LIFETIME_SECS: i64 = 7200;

/// The id a login gets in, if any: the stored user's id when there is one
/// and bcrypt accepts its stored hash.
pub open spec fn login_outcome(stored: Option<StoredCredentials>, password: Seq<char>) -> Option<String> {
    match stored {
        None => None,
        Some(c) => match bcrypt_verify_result(password, c.password_hash@) {
            None => None,
            Some(_) => Some(c.id),
        },
    }
}

/// A user whose stored hash was made from a password gets in with that
/// password.
pub proof fn lemma_hashed_password_logs_in(id: String, password_hash: String, password: Seq<char>)
    requires
        bcrypt_verify_result(password, password_hash@) == Some(true),
    ensures
        login_outcome(Some(StoredCredentials { id, password_hash }), password) == Some(id),
{
}

/// Checks a login against the stored credentials of the username, if any.
/// A login is refused ("User not found.") when there is no such user or
/// when bcrypt rejects the stored hash; whether the password matches the
/// hash is not looked at.
pub fn check_credentials(stored: Option<StoredCredentials>, password: &str) -> (r: Option<String>)
    ensures
        r == login_outcome(stored, password@),
{
    match stored {
        None => None,
        Some(c) => match verify_password(password, c.password_hash.as_str()) {
            None => None,
            Some(_) => Some(c.id),
        },
    }
}

/// The claims of the token a login issues at `now_secs` (seconds since
/// 1970-01-01 00:00:00 UTC): two hours of validity.
pub fn login_claims(id: String, username: String, now_secs: i64) -> (c: Claims)
    requires
        now_secs <= i64::MAX - TOKEN_LIFETIME_SECS,
    ensures
        c.id == id,
        c.sub == username,
        c.exp == (now_secs + TOKEN_LIFETIME_SECS) as usize,
{
    let exp_secs = now_secs + TOKEN_LIFETIME_SECS;
    Claims { id, exp: exp_secs as usize, sub: username }
}

} // verus!
