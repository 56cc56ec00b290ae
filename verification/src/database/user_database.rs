//! Checking a password against what the user store holds.
//!
//! The store keeps each password as an Argon2 hash in the PHC string
//! format. Reading that string and computing the hash is the work of the
//! `argon2` crate; the library knows the outcome by name only.

use crate::database::user::User;
use argon2::password_hash::{PasswordHash, PasswordVerifier};
use argon2::Argon2;
use vstd::prelude::*;
use vstd::string::StringSliceAdditionalSpecFns;

verus! {

/// Whether `stored` parses as a PHC string with `PasswordHash::new` and
/// `Argon2::default().verify_password` then accepts `password` for it.
pub uninterp spec fn argon2_verifies(password: Seq<u8>, stored: Seq<char>) -> bool;

/// `PasswordHash::new` on the stored text, then `verify_password` of the
/// default `Argon2` on the password and the parsed hash. Both depend on
/// their arguments alone: the parameters and the salt are read from the
/// stored text. A text that does not parse verifies nothing.
#[verifier::external_body]
fn verifies(password: &[u8], stored: &str) -> (ok: bool)
    ensures
        ok == argon2_verifies(password@, stored@),
{
    match PasswordHash::new(stored) {
        Ok(parsed) => Argon2::default().verify_password(password, &parsed).is_ok(),
        Err(_) => false,
    }
}

/// What the store's record and a password amount to: the user, where
/// there is a record and the password verifies against its hash.
pub open spec fn authenticated(user: Option<User>, password: Seq<u8>) -> Option<User> {
    match user {
        Some(found) if argon2_verifies(password, found.password@) => Some(found),
        _ => None,
    }
}

/// Check that `password` is correct for the user that the store returned.
/// If the user does not exist or the password is wrong, `None` is returned.
pub fn authenticate_user(user: Option<User>, password: &str) -> (r: Option<User>)
    ensures
        r == authenticated(user, password.spec_bytes()),
{
    match user {
        Some(found) => {
            // Verify that the password matches
            if verifies(password.as_bytes(), found.password.as_str()) {
                Some(found)
            } else {
                None
            }
        },
        None => None,
    }
}

} // verus!
