//! Errors of the POP3 parsers.

use crate::buffer::{as_slice, bytes_seq, debug_text, debug_bytes};
use bytes::Bytes;
use vstd::prelude::*;
use vstd::string::StringExecFns;

verus! {

/// Why a server response could not be decoded.
#[derive(PartialEq, Eq, Debug, Clone, Copy, Structural)]
pub enum POP3ResponseErr {
    /// The response does not start with `+OK` or `-ERR`, or a message
    /// follows the status without a space in between.
    InvalidSyntax,
    /// The terminator of the response has not been received yet.
    IncompleteResponse,
}

impl POP3ResponseErr {
    /// The text that describes this error.
    pub fn message(&self) -> (text: String)
        ensures
            text@ == match *self {
                POP3ResponseErr::InvalidSyntax => "POP3 server response is invalid"@,
                POP3ResponseErr::IncompleteResponse =>
                    "POP3 server multiline response is incomplete"@,
            },
    {
        match self {
            POP3ResponseErr::InvalidSyntax => "POP3 server response is invalid".to_owned(),
            POP3ResponseErr::IncompleteResponse =>
                "POP3 server multiline response is incomplete".to_owned(),
        }
    }
}

/// Why a client frame could not be turned into a command.
#[derive(PartialEq, Debug)]
pub enum POP3CommandErr {
    /// The frame holds a line terminator and nothing else.
    InvalidSyntax,
    /// The verb, as the client wrote it, is none of the known ones.
    UnknownCommand(Bytes),
    /// A required argument is missing or is not an unsigned decimal number.
    InvalidArguments,
    /// The frame does not end in CRLF yet.
    IncompleteResponse,
}

/// A command error with the bytes of the offending verb in place of the buffer.
pub enum CommandErrView {
    InvalidSyntax,
    UnknownCommand(Seq<u8>),
    InvalidArguments,
    IncompleteResponse,
}

impl View for POP3CommandErr {
    type V = CommandErrView;

    open spec fn view(&self) -> CommandErrView {
        match *self {
            POP3CommandErr::InvalidSyntax => CommandErrView::InvalidSyntax,
            POP3CommandErr::UnknownCommand(verb) => CommandErrView::UnknownCommand(bytes_seq(verb)),
            POP3CommandErr::InvalidArguments => CommandErrView::InvalidArguments,
            POP3CommandErr::IncompleteResponse => CommandErrView::IncompleteResponse,
        }
    }
}

impl POP3CommandErr {
    /// The text that describes this error. For an unknown command it quotes
    /// the verb's bytes in the debug notation of a byte slice.
    pub fn message(&self) -> (text: String)
        ensures
            text@ == match self@ {
                CommandErrView::InvalidSyntax => "POP3 client command syntax is invalid"@,
                CommandErrView::UnknownCommand(verb) => "POP3 command '"@ + debug_text(verb)
                    + "' is unknown or unsupported"@,
                CommandErrView::InvalidArguments =>
                    "POP3 client did not supply the required arguments for a command"@,
                CommandErrView::IncompleteResponse => "POP3 cient command is incomplete"@,
            },
    {
        match self {
            POP3CommandErr::InvalidSyntax => "POP3 client command syntax is invalid".to_owned(),
            POP3CommandErr::UnknownCommand(verb) => {
                let quoted = debug_bytes(as_slice(verb));
                "POP3 command '".to_owned().concat(quoted.as_str()).concat(
                    "' is unknown or unsupported",
                )
            },
            POP3CommandErr::InvalidArguments =>
                "POP3 client did not supply the required arguments for a command".to_owned(),
            POP3CommandErr::IncompleteResponse => "POP3 cient command is incomplete".to_owned(),
        }
    }
}

/// A token is not an unsigned decimal number that fits the machine word.
#[derive(PartialEq, Eq, Debug, Clone, Copy, Structural)]
pub struct ParseError;

impl ParseError {
    /// The text that describes this error.
    pub fn message(&self) -> (text: String)
        ensures
            text@ == "failed to parse"@,
    {
        "failed to parse".to_owned()
    }
}

} // verus!
