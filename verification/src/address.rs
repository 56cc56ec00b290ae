//! Mail addresses.
//!
//! Whether a text is a mail address is decided by the `email_address` crate.
//! The library keeps the text of an address that passed, and knows of it
//! only that it did.

use crate::buffer::utf8_text;
use email_address::EmailAddress;
use std::str::FromStr;
use vstd::prelude::*;
use vstd::utf8::{decode_utf8, valid_utf8};

verus! {

/// Whether `EmailAddress::from_str` accepts `text` as a mail address.
pub uninterp spec fn is_email_address(text: Seq<char>) -> bool;

/// `EmailAddress::from_str`, asked only whether it accepts the text: it
/// parses with the crate's default options and depends on the text alone.
#[verifier::external_body]
fn accepts(text: &str) -> (ok: bool)
    ensures
        ok == is_email_address(text@),
{
    EmailAddress::from_str(text).is_ok()
}

/// The address that bytes name: their text, where they are UTF-8 and spell
/// a mail address.
pub open spec fn address_of(bytes: Seq<u8>) -> Option<Seq<char>> {
    if valid_utf8(bytes) && is_email_address(decode_utf8(bytes)) {
        Some(decode_utf8(bytes))
    } else {
        None
    }
}

/// The text of a mail address, checked when the value was made.
#[derive(Debug)]
pub struct MailAddress {
    text: String,
}

impl View for MailAddress {
    type V = Seq<char>;

    closed spec fn view(&self) -> Seq<char> {
        self.text@
    }
}

impl MailAddress {
    #[verifier::type_invariant]
    spec fn well_formed(&self) -> bool {
        is_email_address(self.text@)
    }

    /// Read a mail address: `Some` exactly where the text is one.
    pub fn parse(text: &str) -> (address: Option<MailAddress>)
        ensures
            address is Some <==> is_email_address(text@),
            address matches Some(a) ==> a@ == text@,
    {
        if accepts(text) {
            Some(MailAddress { text: text.to_owned() })
        } else {
            None
        }
    }

    /// Read a mail address from bytes: `Some` exactly where they are UTF-8
    /// and their text is one.
    pub fn from_bytes(bytes: &[u8]) -> (address: Option<MailAddress>)
        ensures
            match address_of(bytes@) {
                Some(text) => address matches Some(a) && a@ == text,
                None => address is None,
            },
    {
        broadcast use vstd::utf8::encode_utf8_decode_utf8;

        match utf8_text(bytes) {
            Some(text) => MailAddress::parse(text),
            None => None,
        }
    }

    /// The entire address as a string reference.
    pub fn as_str(&self) -> (text: &str)
        ensures
            text@ == self@,
            is_email_address(text@),
    {
        proof {
            use_type_invariant(self);
        }
        self.text.as_str()
    }
}

impl Clone for MailAddress {
    fn clone(&self) -> (copy: Self)
        ensures
            copy@ == self@,
    {
        proof {
            use_type_invariant(self);
        }
        MailAddress { text: self.text.clone() }
    }
}

} // verus!
