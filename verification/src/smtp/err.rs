//! Errors of the reply parser.

use crate::buffer::{char_text, decimal_text, usize_text};
use vstd::prelude::*;
use vstd::string::StringExecFns;

verus! {

#[derive(PartialEq, Eq, Debug, Clone, Copy, Structural)]
pub enum SMTPReplyParseError {
    InvalidResponseCode(usize),
    InvalidSyntax,
    /// Indicates that the separator between the response code
    /// and the text is something other than ' ' or '-'
    InvalidSeparator(char),
    /// Indicates that the response did not follow the correct
    /// format for a multiline SMTP response.
    InvalidMultilineResponse,
    /// Indicates that the response is incomplete. Either missing
    /// a trailing CRLF or missing the final lines of a multiline
    /// response.
    IncompleteResponse,
}

impl SMTPReplyParseError {
    /// The text that describes this error.
    pub fn message(&self) -> (text: String)
        ensures
            text@ == match *self {
                SMTPReplyParseError::InvalidResponseCode(n) => "SMTP response code \""@
                    + decimal_text(n as nat) + "\" not recognized"@,
                SMTPReplyParseError::InvalidSyntax => "SMTP reply syntax is invalid"@,
                SMTPReplyParseError::InvalidSeparator(c) => "SMTP response separator '"@ + seq![c]
                    + "' not valid"@,
                SMTPReplyParseError::InvalidMultilineResponse =>
                    "SMTP multiline response is invalid"@,
                SMTPReplyParseError::IncompleteResponse => "SMTP response is incomplete"@,
            },
    {
        match self {
            SMTPReplyParseError::InvalidResponseCode(n) => "SMTP response code \"".to_owned().concat(
                usize_text(*n).as_str(),
            ).concat("\" not recognized"),
            SMTPReplyParseError::InvalidSyntax => "SMTP reply syntax is invalid".to_owned(),
            SMTPReplyParseError::InvalidSeparator(c) => "SMTP response separator '".to_owned().concat(
                char_text(*c).as_str(),
            ).concat("' not valid"),
            SMTPReplyParseError::InvalidMultilineResponse =>
                "SMTP multiline response is invalid".to_owned(),
            SMTPReplyParseError::IncompleteResponse => "SMTP response is incomplete".to_owned(),
        }
    }
}

} // verus!
