//! Names and bodies of header fields.

use crate::buffer::same_text;
use vstd::prelude::*;
use vstd::std_specs::convert::FromSpecImpl;

verus! {

/// Represents a header in an Internet Message Format message
pub struct ImfHeader {
    pub name: HeaderName,
    pub body: HeaderBody,
}

/// Enumerates all the header names specified in RFC 5322
#[derive(Debug)]
pub enum HeaderName {
    Date,
    From,
    Sender,
    ReplyTo,
    To,
    Cc,
    Bcc,
    MessageID,
    InReplyTo,
    References,
    Subject,
    Comments,
    Keywords,
    ResentDate,
    ResentFrom,
    ResentSender,
    ResentTo,
    ResentCc,
    ResentBcc,
    ResentMessageID,
    ReturnPath,
    Other(String),
}

#[derive(Debug)]
pub enum HeaderBody {
    Unstructured(String),
}

/// Whether `name` is one of the header names that RFC 5322 specifies,
/// letter for letter.
pub open spec fn is_specified(name: Seq<char>) -> bool {
    ||| name == "Date"@
    ||| name == "From"@
    ||| name == "Sender"@
    ||| name == "Reply-To"@
    ||| name == "To"@
    ||| name == "Cc"@
    ||| name == "Bcc"@
    ||| name == "Message-ID"@
    ||| name == "In-Reply-To"@
    ||| name == "References"@
    ||| name == "Subject"@
    ||| name == "Comments"@
    ||| name == "Keywords"@
    ||| name == "Resent-Date"@
    ||| name == "Resent-From"@
    ||| name == "Resent-Sender"@
    ||| name == "Resent-To"@
    ||| name == "Resent-Cc"@
    ||| name == "Resent-Bcc"@
    ||| name == "Resent-Message-ID"@
    ||| name == "Return-Path"@
}

impl HeaderName {
    /// The name as it stands in a message.
    pub open spec fn text(&self) -> Seq<char> {
        match *self {
            HeaderName::Date => "Date"@,
            HeaderName::From => "From"@,
            HeaderName::Sender => "Sender"@,
            HeaderName::ReplyTo => "Reply-To"@,
            HeaderName::To => "To"@,
            HeaderName::Cc => "Cc"@,
            HeaderName::Bcc => "Bcc"@,
            HeaderName::MessageID => "Message-ID"@,
            HeaderName::InReplyTo => "In-Reply-To"@,
            HeaderName::References => "References"@,
            HeaderName::Subject => "Subject"@,
            HeaderName::Comments => "Comments"@,
            HeaderName::Keywords => "Keywords"@,
            HeaderName::ResentDate => "Resent-Date"@,
            HeaderName::ResentFrom => "Resent-From"@,
            HeaderName::ResentSender => "Resent-Sender"@,
            HeaderName::ResentTo => "Resent-To"@,
            HeaderName::ResentCc => "Resent-Cc"@,
            HeaderName::ResentBcc => "Resent-Bcc"@,
            HeaderName::ResentMessageID => "Resent-Message-ID"@,
            HeaderName::ReturnPath => "Return-Path"@,
            HeaderName::Other(name) => name@,
        }
    }
}

impl<'a> From<&'a str> for HeaderName {
    /// The header name that a text spells: the one that RFC 5322 specifies
    /// under that very text, and `Other` with the text where there is none.
    fn from(string: &'a str) -> (name: Self)
        ensures
            name.text() == string@,
            name is Other <==> !is_specified(string@),
    {
        if same_text(string, "Date") {
            HeaderName::Date
        } else if same_text(string, "From") {
            HeaderName::From
        } else if same_text(string, "Sender") {
            HeaderName::Sender
        } else if same_text(string, "Reply-To") {
            HeaderName::ReplyTo
        } else if same_text(string, "To") {
            HeaderName::To
        } else if same_text(string, "Cc") {
            HeaderName::Cc
        } else if same_text(string, "Bcc") {
            HeaderName::Bcc
        } else if same_text(string, "Message-ID") {
            HeaderName::MessageID
        } else if same_text(string, "In-Reply-To") {
            HeaderName::InReplyTo
        } else if same_text(string, "References") {
            HeaderName::References
        } else if same_text(string, "Subject") {
            HeaderName::Subject
        } else if same_text(string, "Comments") {
            HeaderName::Comments
        } else if same_text(string, "Keywords") {
            HeaderName::Keywords
        } else if same_text(string, "Resent-Date") {
            HeaderName::ResentDate
        } else if same_text(string, "Resent-From") {
            HeaderName::ResentFrom
        } else if same_text(string, "Resent-Sender") {
            HeaderName::ResentSender
        } else if same_text(string, "Resent-To") {
            HeaderName::ResentTo
        } else if same_text(string, "Resent-Cc") {
            HeaderName::ResentCc
        } else if same_text(string, "Resent-Bcc") {
            HeaderName::ResentBcc
        } else if same_text(string, "Resent-Message-ID") {
            HeaderName::ResentMessageID
        } else if same_text(string, "Return-Path") {
            HeaderName::ReturnPath
        } else {
            HeaderName::Other(string.to_owned())
        }
    }
}

/// The conversion states its result on the method itself, over the text.
impl<'a> FromSpecImpl<&'a str> for HeaderName {
    open spec fn obeys_from_spec() -> bool {
        false
    }

    open spec fn from_spec(string: &'a str) -> Self {
        HeaderName::Date
    }
}

} // verus!
