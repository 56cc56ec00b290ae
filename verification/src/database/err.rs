//! Errors of the user store.

use vstd::prelude::*;

verus! {

#[derive(PartialEq, Eq, Debug, Clone, Copy, Structural)]
pub enum DbError {
    UserDoesNotExist,
}

impl DbError {
    /// The text that describes this error.
    pub fn message(&self) -> (text: String)
        ensures
            text@ == "specified user is not in database"@,
    {
        match self {
            DbError::UserDoesNotExist => "specified user is not in database".to_owned(),
        }
    }
}

} // verus!
