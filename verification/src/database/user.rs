//! The record of one user.

use vstd::prelude::*;

verus! {

/// A user as the store holds it: the address that names the mailbox, and
/// the password in hashed form.
#[derive(Debug)]
pub struct User {
    pub email_address: String,
    pub password: String,
}

/// A user record with the text of each field.
pub struct UserView {
    pub email_address: Seq<char>,
    pub password: Seq<char>,
}

impl View for User {
    type V = UserView;

    open spec fn view(&self) -> UserView {
        UserView { email_address: self.email_address@, password: self.password@ }
    }
}

impl Clone for User {
    fn clone(&self) -> (copy: Self)
        ensures
            copy@ == self@,
    {
        User { email_address: self.email_address.clone(), password: self.password.clone() }
    }
}

} // verus!
