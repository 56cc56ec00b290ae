//! Commands of a mail-transfer client, and the parser that reads them.
//!
//! A command is a verb, matched without regard to ASCII case, and what the
//! verb asks for behind it, set apart by white space. `DATA` differs: the
//! message follows on the next lines, up to a line made of a single dot.

use crate::address::{address_of, MailAddress};
use crate::buffer::text_of;
use crate::pop3::command::{is_verb, upper_byte, to_upper};
use crate::pop3::response::{crlf_at, multiline_end};
use crate::text::{
    after_word, find_line_end, find_word_end, find_word_start, lemma_line_end, line_end, word_at,
};
use vstd::prelude::*;
use vstd::slice::slice_subrange;
use vstd::std_specs::convert::TryFromSpecImpl;
use vstd::string::StringSliceAdditionalSpecFns;
use vstd::utf8::{decode_utf8, valid_utf8};

verus! {

/// The opening angle bracket of a path.
pub const PATH_OPEN: u8 = 60;

/// The closing angle bracket of a path.
pub const PATH_CLOSE: u8 = 62;

#[derive(Debug)]
pub enum SMTPCommand {
    /// `MAIL FROM:`; Initiate transaction and specify the address of the
    /// sender
    MailFrom { sender: MailAddress },
    /// `RCPT TO:`; Specify a recipient of the message.
    Recipient { recipient: MailAddress },
    /// `DATA`; The mail data, which begins on the line after the verb
    Data { data: String },
    /// `RSET`; Abort the current mail transaction
    Reset,
    /// `VRFY`; Verify that the user exists on the server
    Verify { address: String },
    /// `EXPN`; List all the recipients on a mailing list
    Expand { mailing_list: String },
    /// `HELP`; Send helpful information to the client
    Help,
    /// `NOOP`; Do nothing. May be followed by a string argument
    Noop,
    /// `QUIT`; End the transaction.
    Quit,
}

/// A command with the text of what it carries.
pub enum SMTPCommandView {
    MailFrom { sender: Seq<char> },
    Recipient { recipient: Seq<char> },
    Data { data: Seq<char> },
    Reset,
    Verify { address: Seq<char> },
    Expand { mailing_list: Seq<char> },
    Help,
    Noop,
    Quit,
}

impl View for SMTPCommand {
    type V = SMTPCommandView;

    open spec fn view(&self) -> SMTPCommandView {
        match *self {
            SMTPCommand::MailFrom { sender } => SMTPCommandView::MailFrom { sender: sender@ },
            SMTPCommand::Recipient { recipient } => SMTPCommandView::Recipient {
                recipient: recipient@,
            },
            SMTPCommand::Data { data } => SMTPCommandView::Data { data: data@ },
            SMTPCommand::Reset => SMTPCommandView::Reset,
            SMTPCommand::Verify { address } => SMTPCommandView::Verify { address: address@ },
            SMTPCommand::Expand { mailing_list } => SMTPCommandView::Expand {
                mailing_list: mailing_list@,
            },
            SMTPCommand::Help => SMTPCommandView::Help,
            SMTPCommand::Noop => SMTPCommandView::Noop,
            SMTPCommand::Quit => SMTPCommandView::Quit,
        }
    }
}

#[derive(PartialEq, Eq, Debug, Clone, Copy, Structural)]
pub enum SMTPCommandParseError {
    IncompleteCommand,
    InvalidArguments,
    InvalidCommand,
}

/// The view of a parser's result.
pub open spec fn command_view(r: Result<SMTPCommand, SMTPCommandParseError>) -> Result<
    SMTPCommandView,
    SMTPCommandParseError,
> {
    match r {
        Ok(command) => Ok(command@),
        Err(e) => Err(e),
    }
}

/// The address in an argument of the form `FROM:<address>` or
/// `TO:<address>`, where `keyword` is the part up to the colon, matched
/// without regard to case. The angle brackets may be left out.
pub open spec fn path_address(argument: Seq<u8>, keyword: &str) -> Option<Seq<char>> {
    let n = keyword.spec_bytes().len() as int;
    if argument.len() >= n && is_verb(argument.take(n), keyword) {
        let path = argument.skip(n);
        if path.len() >= 2 && path[0] == PATH_OPEN && path.last() == PATH_CLOSE {
            address_of(path.subrange(1, path.len() - 1))
        } else {
            address_of(path)
        }
    } else {
        None
    }
}

/// The text of an argument that a command requires: it must be there, and
/// be UTF-8.
pub open spec fn required_text(argument: Seq<u8>) -> Option<Seq<char>> {
    if argument.len() > 0 && valid_utf8(argument) {
        Some(decode_utf8(argument))
    } else {
        None
    }
}

/// The mail data in the input of a `DATA` command: what stands between the
/// line of the verb and the line of the single dot.
pub open spec fn mail_data(input: Seq<u8>) -> Seq<u8> {
    let start = line_end(input, 0) + 2;
    let end = input.len() - 5;
    if start <= end {
        input.subrange(start, end)
    } else {
        Seq::empty()
    }
}

/// What the input of a client parses to.
///
/// Input without a word in it is an incomplete command, and so is a `DATA`
/// command whose input does not end in the line of the single dot. A verb
/// that is not known is an invalid command. An argument that is missing or
/// cannot be read makes the arguments invalid.
pub open spec fn parse_command(input: Seq<u8>) -> Result<SMTPCommandView, SMTPCommandParseError> {
    let verb = word_at(input, 0);
    let argument = word_at(input, after_word(input, 0));
    if verb.len() == 0 {
        Err(SMTPCommandParseError::IncompleteCommand)
    } else if is_verb(verb, "MAIL") {
        match path_address(argument, "FROM:") {
            Some(sender) => Ok(SMTPCommandView::MailFrom { sender }),
            None => Err(SMTPCommandParseError::InvalidArguments),
        }
    } else if is_verb(verb, "RCPT") {
        match path_address(argument, "TO:") {
            Some(recipient) => Ok(SMTPCommandView::Recipient { recipient }),
            None => Err(SMTPCommandParseError::InvalidArguments),
        }
    } else if is_verb(verb, "DATA") {
        if !multiline_end().is_suffix_of(input) {
            Err(SMTPCommandParseError::IncompleteCommand)
        } else if !valid_utf8(mail_data(input)) {
            Err(SMTPCommandParseError::InvalidArguments)
        } else {
            Ok(SMTPCommandView::Data { data: decode_utf8(mail_data(input)) })
        }
    } else if is_verb(verb, "RSET") {
        Ok(SMTPCommandView::Reset)
    } else if is_verb(verb, "VRFY") {
        match required_text(argument) {
            Some(address) => Ok(SMTPCommandView::Verify { address }),
            None => Err(SMTPCommandParseError::InvalidArguments),
        }
    } else if is_verb(verb, "EXPN") {
        match required_text(argument) {
            Some(mailing_list) => Ok(SMTPCommandView::Expand { mailing_list }),
            None => Err(SMTPCommandParseError::InvalidArguments),
        }
    } else if is_verb(verb, "HELP") {
        Ok(SMTPCommandView::Help)
    } else if is_verb(verb, "NOOP") {
        Ok(SMTPCommandView::Noop)
    } else if is_verb(verb, "QUIT") {
        Ok(SMTPCommandView::Quit)
    } else {
        Err(SMTPCommandParseError::InvalidCommand)
    }
}

/// Whether `token` spells `verb` once its letters are folded to upper case.
fn spells(token: &[u8], verb: &str) -> (yes: bool)
    ensures
        yes == is_verb(token@, verb),
{
    let expected = verb.as_bytes();
    if token.len() != expected.len() {
        return false;
    }
    let mut i: usize = 0;
    while i < token.len()
        invariant
            expected@ == verb.spec_bytes(),
            token.len() == expected.len(),
            i <= token.len(),
            forall|j: int| 0 <= j < i ==> upper_byte(token@[j]) == expected@[j],
        decreases token.len() - i,
    {
        let c = token[i];
        let folded: u8 = if 97 <= c && c <= 122 {
            c - 32
        } else {
            c
        };
        if folded != expected[i] {
            assert(to_upper(token@)[i as int] != expected@[i as int]);
            return false;
        }
        i += 1;
    }
    assert(to_upper(token@) =~= expected@);
    true
}

/// The address in an argument of the form `keyword<address>`.
fn read_path(argument: &[u8], keyword: &str) -> (address: Option<MailAddress>)
    ensures
        match path_address(argument@, keyword) {
            Some(text) => address matches Some(a) && a@ == text,
            None => address is None,
        },
{
    let n = keyword.as_bytes().len();
    if argument.len() < n {
        return None;
    }
    let head = slice_subrange(argument, 0, n);
    assert(head@ =~= argument@.take(n as int));
    if !spells(head, keyword) {
        return None;
    }
    let path = slice_subrange(argument, n, argument.len());
    assert(path@ =~= argument@.skip(n as int));
    if path.len() >= 2 && path[0] == PATH_OPEN && path[path.len() - 1] == PATH_CLOSE {
        MailAddress::from_bytes(slice_subrange(path, 1, path.len() - 1))
    } else {
        MailAddress::from_bytes(path)
    }
}

/// The text of an argument that a command requires.
fn read_required(argument: &[u8]) -> (text: Option<String>)
    ensures
        match required_text(argument@) {
            Some(expected) => text matches Some(t) && t@ == expected,
            None => text is None,
        },
{
    if argument.len() == 0 {
        return None;
    }
    text_of(argument)
}

/// Whether `raw` ends in the line of the single dot.
fn ends_in_dot_line(raw: &[u8]) -> (yes: bool)
    ensures
        yes == multiline_end().is_suffix_of(raw@),
{
    let n = raw.len();
    if n < 5 {
        return false;
    }
    let yes = raw[n - 5] == 13 && raw[n - 4] == 10 && raw[n - 3] == 46 && raw[n - 2] == 13 && raw[n
        - 1] == 10;
    proof {
        let tail = raw@.skip(n - 5);
        assert(tail.len() == 5);
        assert(tail[0] == raw@[n - 5] && tail[1] == raw@[n - 4] && tail[2] == raw@[n - 3]
            && tail[3] == raw@[n - 2] && tail[4] == raw@[n - 1]);
        if yes {
            assert(tail =~= multiline_end());
        } else {
            assert(tail != multiline_end());
        }
    }
    yes
}

impl<'a> TryFrom<&'a str> for SMTPCommand {
    type Error = SMTPCommandParseError;

    /// Read a command from its text. The result is the one that
    /// [`parse_command`] gives for the bytes of the text.
    fn try_from(input: &'a str) -> (r: Result<Self, SMTPCommandParseError>)
        ensures
            command_view(r) == parse_command(input.spec_bytes()),
    {
        let raw = input.as_bytes();
        let verb_start = find_word_start(raw, 0);
        let verb_end = find_word_end(raw, verb_start);
        let verb = slice_subrange(raw, verb_start, verb_end);
        let argument_start = find_word_start(raw, verb_end);
        let argument_end = find_word_end(raw, argument_start);
        let argument = slice_subrange(raw, argument_start, argument_end);
        assert(verb@ == word_at(raw@, 0));
        assert(argument@ == word_at(raw@, after_word(raw@, 0)));

        if verb.len() == 0 {
            Err(SMTPCommandParseError::IncompleteCommand)
        } else if spells(verb, "MAIL") {
            match read_path(argument, "FROM:") {
                Some(sender) => Ok(SMTPCommand::MailFrom { sender }),
                None => Err(SMTPCommandParseError::InvalidArguments),
            }
        } else if spells(verb, "RCPT") {
            match read_path(argument, "TO:") {
                Some(recipient) => Ok(SMTPCommand::Recipient { recipient }),
                None => Err(SMTPCommandParseError::InvalidArguments),
            }
        } else if spells(verb, "DATA") {
            // Make sure the input ends in "CRLF.CRLF"
            if !ends_in_dot_line(raw) {
                return Err(SMTPCommandParseError::IncompleteCommand);
            }
            let first_break = find_line_end(raw, 0);
            proof {
                lemma_line_end(raw@, 0);
                assert(crlf_at(raw@, raw.len() - 5)) by {
                    let tail = raw@.skip(raw.len() - 5);
                    assert(tail[0] == raw@[raw.len() - 5] && tail[1] == raw@[raw.len() - 4]);
                }
            }
            let start = first_break + 2;
            let end = raw.len() - 5;
            let body = if start <= end {
                slice_subrange(raw, start, end)
            } else {
                slice_subrange(raw, 0, 0)
            };
            assert(body@ =~= mail_data(raw@));
            match text_of(body) {
                Some(data) => Ok(SMTPCommand::Data { data }),
                None => Err(SMTPCommandParseError::InvalidArguments),
            }
        } else if spells(verb, "RSET") {
            Ok(SMTPCommand::Reset)
        } else if spells(verb, "VRFY") {
            match read_required(argument) {
                Some(address) => Ok(SMTPCommand::Verify { address }),
                None => Err(SMTPCommandParseError::InvalidArguments),
            }
        } else if spells(verb, "EXPN") {
            match read_required(argument) {
                Some(mailing_list) => Ok(SMTPCommand::Expand { mailing_list }),
                None => Err(SMTPCommandParseError::InvalidArguments),
            }
        } else if spells(verb, "HELP") {
            Ok(SMTPCommand::Help)
        } else if spells(verb, "NOOP") {
            Ok(SMTPCommand::Noop)
        } else if spells(verb, "QUIT") {
            Ok(SMTPCommand::Quit)
        } else {
            Err(SMTPCommandParseError::InvalidCommand)
        }
    }
}

/// The conversion states its result on the method itself, over the bytes of
/// the text.
impl<'a> TryFromSpecImpl<&'a str> for SMTPCommand {
    open spec fn obeys_try_from_spec() -> bool {
        false
    }

    open spec fn try_from_spec(input: &'a str) -> Result<Self, SMTPCommandParseError> {
        Err(SMTPCommandParseError::IncompleteCommand)
    }
}

} // verus!
