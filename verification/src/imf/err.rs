//! Errors of the message parser.

use vstd::prelude::*;

verus! {

#[derive(PartialEq, Eq, Debug, Clone, Copy, Structural)]
pub struct MailParseError;

impl MailParseError {
    /// The text that describes this error.
    pub fn message(&self) -> (text: String)
        ensures
            text@ == "couldn't parse RFC 5322 mail message"@,
    {
        "couldn't parse RFC 5322 mail message".to_owned()
    }
}

} // verus!
