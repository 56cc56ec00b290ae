//! The receiving end of a mail transfer, without its socket.

use crate::smtp::command::{
    command_view, parse_command, SMTPCommand, SMTPCommandParseError, SMTPCommandView,
};
use vstd::prelude::*;
use vstd::string::StringExecFns;
use vstd::utf8::encode_utf8;

verus! {

/// What reading from the socket led to.
#[derive(Debug)]
pub enum SMTPReadOutcome {
    /// The command is not complete: read more.
    Incomplete,
    /// A command was read.
    Command(SMTPCommand),
    /// What was received is no command; it stays in the buffer.
    Invalid(SMTPCommandParseError),
    /// The peer has closed the connection: stop reading.
    Terminated,
}

/// A read outcome with the view of what it carries.
pub enum SMTPReadOutcomeView {
    Incomplete,
    Command(SMTPCommandView),
    Invalid(SMTPCommandParseError),
    Terminated,
}

impl View for SMTPReadOutcome {
    type V = SMTPReadOutcomeView;

    open spec fn view(&self) -> SMTPReadOutcomeView {
        match *self {
            SMTPReadOutcome::Incomplete => SMTPReadOutcomeView::Incomplete,
            SMTPReadOutcome::Command(command) => SMTPReadOutcomeView::Command(command@),
            SMTPReadOutcome::Invalid(e) => SMTPReadOutcomeView::Invalid(e),
            SMTPReadOutcome::Terminated => SMTPReadOutcomeView::Terminated,
        }
    }
}

/// What the text received so far amounts to.
pub open spec fn framed(received: Seq<char>) -> SMTPReadOutcomeView {
    match parse_command(encode_utf8(received)) {
        Ok(command) => SMTPReadOutcomeView::Command(command),
        Err(SMTPCommandParseError::IncompleteCommand) => SMTPReadOutcomeView::Incomplete,
        Err(e) => SMTPReadOutcomeView::Invalid(e),
    }
}

/// Handles an incoming SMTP connection from another email server or an email client.
#[derive(Debug)]
pub struct IncomingSMTPConnection {
    // Socket state
    buffer: String,
}

impl IncomingSMTPConnection {
    /// The text received so far that is no command yet.
    pub closed spec fn buffered(&self) -> Seq<char> {
        self.buffer@
    }

    /// A connection that has received nothing.
    pub fn new() -> (connection: Self)
        ensures
            connection.buffered() == Seq::<char>::empty(),
    {
        Self { buffer: String::new() }
    }

    /// Take in what a read from the socket returned, and say what it
    /// amounts to together with what was received before.
    ///
    /// A read of nothing means that the peer has closed the connection.
    /// Otherwise the text is added to the buffer, and the buffer is held
    /// against [`framed`]. It is emptied where a command was read, and kept
    /// in every other case.
    pub fn read_command(&mut self, received: &str) -> (outcome: SMTPReadOutcome)
        ensures
            received@.len() == 0 ==> {
                &&& outcome@ == SMTPReadOutcomeView::Terminated
                &&& final(self).buffered() == old(self).buffered()
            },
            received@.len() > 0 ==> {
                &&& outcome@ == framed(old(self).buffered() + received@)
                &&& final(self).buffered() == if outcome@ is Command {
                    Seq::<char>::empty()
                } else {
                    old(self).buffered() + received@
                }
            },
    {
        if received.is_empty() {
            // Connection aborted
            return SMTPReadOutcome::Terminated;
        }
        self.buffer.append(received);
        let parsed = SMTPCommand::try_from(self.buffer.as_str());
        assert(command_view(parsed) == parse_command(encode_utf8(self.buffer@)));
        match parsed {
            Ok(command) => {
                self.buffer = String::new();
                SMTPReadOutcome::Command(command)
            },
            Err(SMTPCommandParseError::IncompleteCommand) => SMTPReadOutcome::Incomplete,
            Err(e) => SMTPReadOutcome::Invalid(e),
        }
    }
}

} // verus!
