//! The rules of a session: its states, what can happen to it, and what
//! follows.
//!
//! Whoever owns the socket reads from it and writes to it. The session is
//! told what was read and what the user store answered, keeps the state of
//! the conversation, and says what to do next: which response to send,
//! whether to ask the user store, whether to close.

use crate::address::{address_of, MailAddress};
use crate::database::user::{User, UserView};
use crate::pop3::command::{decimal_digits, parse_frame, CommandView, POP3Command, SPACE};
use crate::pop3::err::CommandErrView;
use crate::pop3::response::{crlf, POP3Response, POP3ResponseStatus, ResponseView};
use vstd::prelude::*;
use vstd::string::StringSliceAdditionalSpecFns;
use vstd::utf8::{decode_utf8, valid_utf8};

verus! {

// ---------------------------------------------------------------------------
// States, events and actions
// ---------------------------------------------------------------------------

/// The phase a session is in, with what that phase remembers.
#[derive(Debug)]
pub enum SessionState {
    /// The client has not proved who it is. The address that the last
    /// `USER` gave is kept, if it was one.
    Authorization { pending_username: Option<MailAddress> },
    /// The client is the given user.
    Transaction { authenticated_user: User },
    /// The conversation is over.
    Closed,
}

/// A session state with the text of each field.
pub enum SessionStateView {
    Authorization { pending_username: Option<Seq<char>> },
    Transaction { authenticated_user: UserView },
    Closed,
}

impl View for SessionState {
    type V = SessionStateView;

    open spec fn view(&self) -> SessionStateView {
        match *self {
            SessionState::Authorization { pending_username } => SessionStateView::Authorization {
                pending_username: match pending_username {
                    Some(address) => Some(address@),
                    None => None,
                },
            },
            SessionState::Transaction { authenticated_user } => SessionStateView::Transaction {
                authenticated_user: authenticated_user@,
            },
            SessionState::Closed => SessionStateView::Closed,
        }
    }
}

/// What the owner of the socket is to do after a step of the session.
#[derive(Debug)]
pub enum SessionAction {
    /// Send the response and read the next command.
    Respond(POP3Response),
    /// Send the response, then close the connection.
    RespondAndClose(POP3Response),
    /// Close the connection without a response.
    Close,
    /// Ask the user store whether `password` is the password of the user
    /// at `address`, and hand its answer to the session.
    Verify { address: MailAddress, password: String },
}

/// An action with the bytes and the text of what it carries.
pub enum ActionView {
    Respond(ResponseView),
    RespondAndClose(ResponseView),
    Close,
    Verify { address: Seq<char>, password: Seq<char> },
}

impl View for SessionAction {
    type V = ActionView;

    open spec fn view(&self) -> ActionView {
        match *self {
            SessionAction::Respond(response) => ActionView::Respond(response@),
            SessionAction::RespondAndClose(response) => ActionView::RespondAndClose(response@),
            SessionAction::Close => ActionView::Close,
            SessionAction::Verify { address, password } => ActionView::Verify {
                address: address@,
                password: password@,
            },
        }
    }
}

/// What reading from the socket led to.
#[derive(Debug)]
pub enum ReadOutcome {
    /// The frame is not complete: read more.
    Incomplete,
    /// A command was read.
    Command(POP3Command),
    /// The verb is unknown: send the response and go on reading.
    Rejected(POP3Response),
    /// The frame was faulty in another way, and is forgotten.
    Discarded,
    /// The peer has closed the connection: stop reading.
    Terminated,
}

/// A read outcome with the view of what it carries.
pub enum ReadOutcomeView {
    Incomplete,
    Command(CommandView),
    Rejected(ResponseView),
    Discarded,
    Terminated,
}

impl View for ReadOutcome {
    type V = ReadOutcomeView;

    open spec fn view(&self) -> ReadOutcomeView {
        match *self {
            ReadOutcome::Incomplete => ReadOutcomeView::Incomplete,
            ReadOutcome::Command(command) => ReadOutcomeView::Command(command@),
            ReadOutcome::Rejected(response) => ReadOutcomeView::Rejected(response@),
            ReadOutcome::Discarded => ReadOutcomeView::Discarded,
            ReadOutcome::Terminated => ReadOutcomeView::Terminated,
        }
    }
}

/// What happens to a session: the client sends a command, or the user
/// store answers a request to verify a password.
pub enum SessionEvent {
    Command(CommandView),
    Answer(Option<UserView>),
}

// ---------------------------------------------------------------------------
// The rules
// ---------------------------------------------------------------------------

/// The bytes of a text.
pub open spec fn text(s: &str) -> Seq<u8> {
    s.spec_bytes()
}

/// The positive response with the given message.
pub open spec fn positive(message: Seq<u8>) -> ResponseView {
    ResponseView { status: POP3ResponseStatus::Positive, message }
}

/// The negative response with the given message.
pub open spec fn negative(message: Seq<u8>) -> ResponseView {
    ResponseView { status: POP3ResponseStatus::Negative, message }
}

/// The response to a command that is known but has no place in the phase
/// in which it arrived.
pub open spec fn out_of_phase(state: SessionStateView) -> ActionView {
    match state {
        SessionStateView::Authorization { .. } => ActionView::Respond(
            negative(text("command not valid during authentication")),
        ),
        SessionStateView::Transaction { .. } => ActionView::Respond(
            negative(text("command not valid during transaction")),
        ),
        SessionStateView::Closed => ActionView::Close,
    }
}

/// The state after a command that arrived during authorization.
///
/// `USER` replaces the remembered address, by nothing if its argument is no
/// address. `APOP` and `QUIT` end the conversation. No command leads on to
/// the transaction phase: only the user store's answer does.
pub open spec fn authorization_state(
    pending: Option<Seq<char>>,
    command: CommandView,
) -> SessionStateView {
    match command {
        CommandView::Username { username } => SessionStateView::Authorization {
            pending_username: address_of(username),
        },
        CommandView::APop { .. } => SessionStateView::Closed,
        CommandView::Quit => SessionStateView::Closed,
        _ => SessionStateView::Authorization { pending_username: pending },
    }
}

/// The action after a command that arrived during authorization.
///
/// `USER` is acknowledged whatever its argument, so that the answer does
/// not tell which addresses exist. `PASS` leads to a question to the user
/// store where an address is remembered and the password is UTF-8, and is
/// refused otherwise, in the words used for a wrong password.
pub open spec fn authorization_action(
    pending: Option<Seq<char>>,
    command: CommandView,
) -> ActionView {
    match command {
        CommandView::Username { .. } => ActionView::Respond(positive(text(""))),
        CommandView::Password { password } => match pending {
            Some(address) if valid_utf8(password) => ActionView::Verify {
                address,
                password: decode_utf8(password),
            },
            _ => ActionView::Respond(negative(text("Username or password is not valid"))),
        },
        CommandView::APop { .. } => ActionView::RespondAndClose(positive(text(""))),
        CommandView::Quit => ActionView::Close,
        CommandView::Capabilities => ActionView::Respond(positive(text("\r\nUSER"))),
        _ => ActionView::Respond(negative(text("command not valid during authentication"))),
    }
}

/// The state after the user store's answer: the transaction phase where
/// the session was in authorization and the store found the user; the
/// state as it was in every other case.
pub open spec fn answer_state(
    state: SessionStateView,
    answer: Option<UserView>,
) -> SessionStateView {
    match (state, answer) {
        (SessionStateView::Authorization { .. }, Some(user)) => SessionStateView::Transaction {
            authenticated_user: user,
        },
        _ => state,
    }
}

/// The action after the user store's answer. A refusal does not say
/// whether the user or the password was wrong.
pub open spec fn answer_action(state: SessionStateView, answer: Option<UserView>) -> ActionView {
    match state {
        SessionStateView::Authorization { .. } => match answer {
            Some(_) => ActionView::Respond(positive(text("Authenticated"))),
            None => ActionView::Respond(negative(text("Username or password is not valid"))),
        },
        _ => out_of_phase(state),
    }
}

/// The state after a command that arrived during the transaction phase:
/// `QUIT` ends the conversation, and nothing else changes the state.
pub open spec fn transaction_state(state: SessionStateView, command: CommandView) -> SessionStateView {
    match command {
        CommandView::Quit => SessionStateView::Closed,
        _ => state,
    }
}

/// The state after one event.
pub open spec fn next_state(state: SessionStateView, event: SessionEvent) -> SessionStateView {
    match event {
        SessionEvent::Command(command) => match state {
            SessionStateView::Authorization { pending_username } => authorization_state(
                pending_username,
                command,
            ),
            SessionStateView::Transaction { .. } => transaction_state(state, command),
            SessionStateView::Closed => state,
        },
        SessionEvent::Answer(answer) => answer_state(state, answer),
    }
}

/// The state after a run of events, the first of them first.
pub open spec fn state_after(state: SessionStateView, events: Seq<SessionEvent>) -> SessionStateView
    decreases events.len(),
{
    if events.len() == 0 {
        state
    } else {
        next_state(state_after(state, events.drop_last()), events.last())
    }
}

/// Whether an event is the user store's finding of a user.
pub open spec fn is_acceptance(event: SessionEvent) -> bool {
    event matches SessionEvent::Answer(Some(_))
}

/// Without an answer of the user store that names a user there is no way into the
/// transaction phase: a session that is not in it stays out of it, whatever
/// commands and refusals it is given, and however many.
pub proof fn lemma_authorization_holds(state: SessionStateView, events: Seq<SessionEvent>)
    requires
        !(state is Transaction),
        forall|i: int| 0 <= i < events.len() ==> !is_acceptance(#[trigger] events[i]),
    ensures
        !(state_after(state, events) is Transaction),
    decreases events.len(),
{
    if events.len() > 0 {
        lemma_authorization_holds(state, events.drop_last());
        assert(!is_acceptance(events.last()));
    }
}

/// The phases follow one another: no run of events leads out of a closed
/// session, and none leads from the transaction phase back to authorization.
pub proof fn lemma_phases_in_order(state: SessionStateView, events: Seq<SessionEvent>)
    ensures
        state is Closed ==> state_after(state, events) is Closed,
        state is Transaction ==> !(state_after(state, events) is Authorization),
    decreases events.len(),
{
    if events.len() > 0 {
        lemma_phases_in_order(state, events.drop_last());
    }
}

/// `NOOP` changes no state, in any phase.
pub proof fn lemma_noop_keeps_state(state: SessionStateView)
    ensures
        next_state(state, SessionEvent::Command(CommandView::NoOp)) == state,
{
}

/// `NOOP` sent any number of times leaves the state as it was.
pub proof fn lemma_noop_idempotent(state: SessionStateView, times: nat)
    ensures
        state_after(state, Seq::new(times, |i: int| SessionEvent::Command(CommandView::NoOp)))
            == state,
    decreases times,
{
    let events = Seq::new(times, |i: int| SessionEvent::Command(CommandView::NoOp));
    if times > 0 {
        let fewer = Seq::new((times - 1) as nat, |i: int| SessionEvent::Command(CommandView::NoOp));
        assert(events.drop_last() =~= fewer);
        lemma_noop_idempotent(state, (times - 1) as nat);
    }
}

// ---------------------------------------------------------------------------
// The transaction phase
// ---------------------------------------------------------------------------
//
// Clients number the messages of a maildrop from one. `DELE` marks a
// message; a marked message is out of sight until `RSET` takes the marks
// off, and leaves the maildrop only at `QUIT`.

/// Whether the message at `index`, counted from zero, is marked as deleted.
pub open spec fn is_marked(marks: Seq<bool>, index: int) -> bool {
    0 <= index < marks.len() && marks[index]
}

/// Whether `index`, counted from zero, is that of a message that is there
/// and not marked as deleted.
pub open spec fn is_live(messages: Seq<Seq<u8>>, marks: Seq<bool>, index: int) -> bool {
    0 <= index < messages.len() && !is_marked(marks, index)
}

/// The number of live messages among the first `upto`.
pub open spec fn live_count(messages: Seq<Seq<u8>>, marks: Seq<bool>, upto: int) -> nat
    decreases upto,
{
    if upto <= 0 {
        0
    } else {
        live_count(messages, marks, upto - 1) + if is_live(messages, marks, upto - 1) {
            1nat
        } else {
            0nat
        }
    }
}

/// The octets of the live messages among the first `upto`, added up.
pub open spec fn live_size(messages: Seq<Seq<u8>>, marks: Seq<bool>, upto: int) -> nat
    decreases upto,
{
    if upto <= 0 {
        0
    } else {
        live_size(messages, marks, upto - 1) + if is_live(messages, marks, upto - 1) {
            messages[upto - 1].len()
        } else {
            0nat
        }
    }
}

/// `n`, or the largest machine word where `n` is beyond it.
pub open spec fn saturated(n: nat) -> usize {
    if n <= usize::MAX {
        n as usize
    } else {
        usize::MAX
    }
}

/// What `STAT` reports: the number of live messages, a space, and their
/// octets added up, which stop at the largest machine word.
pub open spec fn stat_text(messages: Seq<Seq<u8>>, marks: Seq<bool>) -> Seq<u8> {
    decimal_digits(live_count(messages, marks, messages.len() as int)) + seq![SPACE]
        + decimal_digits(saturated(live_size(messages, marks, messages.len() as int)) as nat)
}

/// A message's number, a space, and its size in octets.
pub open spec fn scan_line(number: nat, size: nat) -> Seq<u8> {
    decimal_digits(number) + seq![SPACE] + decimal_digits(size)
}

/// What `LIST` without a number reports for the first `upto` messages: for
/// each live one a line break and its scan line.
pub open spec fn scan_listing(messages: Seq<Seq<u8>>, marks: Seq<bool>, upto: int) -> Seq<u8>
    decreases upto,
{
    if upto <= 0 {
        Seq::empty()
    } else {
        scan_listing(messages, marks, upto - 1) + if is_live(messages, marks, upto - 1) {
            crlf() + scan_line(upto as nat, messages[upto - 1].len())
        } else {
            Seq::empty()
        }
    }
}

/// The messages from index `from` on that are not marked, in order.
pub open spec fn kept_from(messages: Seq<Seq<u8>>, marks: Seq<bool>, from: int) -> Seq<Seq<u8>>
    decreases messages.len() - from,
{
    if from < 0 || from >= messages.len() {
        Seq::empty()
    } else if is_marked(marks, from) {
        kept_from(messages, marks, from + 1)
    } else {
        seq![messages[from]] + kept_from(messages, marks, from + 1)
    }
}

/// `marks` with the message at `index` marked as well.
pub open spec fn with_mark(marks: Seq<bool>, index: int) -> Seq<bool> {
    Seq::new(
        if index < marks.len() {
            marks.len()
        } else {
            (index + 1) as nat
        },
        |i: int| i == index || is_marked(marks, i),
    )
}

/// The marks after a command of the transaction phase: `DELE` marks a live
/// message, `RSET` and `QUIT` leave no mark, and nothing else touches them.
pub open spec fn transaction_marks(
    messages: Seq<Seq<u8>>,
    marks: Seq<bool>,
    command: CommandView,
) -> Seq<bool> {
    match command {
        CommandView::Delete { message_number } => if is_live(messages, marks, message_number - 1) {
            with_mark(marks, message_number - 1)
        } else {
            marks
        },
        CommandView::Reset => Seq::empty(),
        CommandView::Quit => Seq::empty(),
        _ => marks,
    }
}

/// The maildrop after a command of the transaction phase: `QUIT` removes
/// the marked messages, and nothing else changes the maildrop.
pub open spec fn transaction_maildrop(
    messages: Seq<Seq<u8>>,
    marks: Seq<bool>,
    command: CommandView,
) -> Seq<Seq<u8>> {
    match command {
        CommandView::Quit => kept_from(messages, marks, 0),
        _ => messages,
    }
}

/// The answer to a command that names a message which is not there, or is
/// marked as deleted.
pub open spec fn no_such_message() -> ActionView {
    ActionView::Respond(negative(text("no such message")))
}

/// The action after a command of the transaction phase.
pub open spec fn transaction_action(
    messages: Seq<Seq<u8>>,
    marks: Seq<bool>,
    command: CommandView,
) -> ActionView {
    match command {
        CommandView::Stat => ActionView::Respond(positive(stat_text(messages, marks))),
        CommandView::List { message_number: None } => ActionView::Respond(
            positive(scan_listing(messages, marks, messages.len() as int)),
        ),
        CommandView::List { message_number: Some(number) } => if is_live(
            messages,
            marks,
            number - 1,
        ) {
            ActionView::Respond(positive(scan_line(number as nat, messages[number - 1].len())))
        } else {
            no_such_message()
        },
        CommandView::Retrieve { message_number } => if is_live(messages, marks, message_number - 1) {
            ActionView::Respond(positive(crlf() + messages[message_number - 1]))
        } else {
            no_such_message()
        },
        CommandView::Delete { message_number } => if is_live(messages, marks, message_number - 1) {
            ActionView::Respond(positive(text("")))
        } else {
            no_such_message()
        },
        CommandView::NoOp => ActionView::Respond(positive(text(""))),
        CommandView::Reset => ActionView::Respond(positive(text(""))),
        CommandView::Top { .. } => ActionView::Respond(negative(text("unsupported"))),
        CommandView::UniqueIDListing { .. } => ActionView::Respond(negative(text("unsupported"))),
        CommandView::Quit => ActionView::Close,
        _ => ActionView::Respond(negative(text("command not valid during transaction"))),
    }
}

/// `NOOP` leaves the marks and the maildrop as they were.
pub proof fn lemma_noop_keeps_maildrop(messages: Seq<Seq<u8>>, marks: Seq<bool>)
    ensures
        transaction_marks(messages, marks, CommandView::NoOp) == marks,
        transaction_maildrop(messages, marks, CommandView::NoOp) == messages,
{
}

// ---------------------------------------------------------------------------
// The frame buffer
// ---------------------------------------------------------------------------

/// What the bytes received so far amount to.
///
/// A frame that is not complete yet is waited for. An unknown verb is
/// answered with a negative response that names it. A frame that is faulty
/// in any other way is dropped without an answer.
pub open spec fn framed(received: Seq<u8>) -> ReadOutcomeView {
    match parse_frame(received) {
        Ok(command) => ReadOutcomeView::Command(command),
        Err(CommandErrView::IncompleteResponse) => ReadOutcomeView::Incomplete,
        Err(CommandErrView::UnknownCommand(verb)) => ReadOutcomeView::Rejected(
            negative(text("unknown command ") + verb),
        ),
        Err(_) => ReadOutcomeView::Discarded,
    }
}

} // verus!
