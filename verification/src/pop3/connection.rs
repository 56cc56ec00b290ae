//! The session of one connection, without its socket.

use crate::address::MailAddress;
use crate::buffer::{as_slice, bytes_seq, from_static_str, from_vec, utf8_text};
use crate::database::user::User;
use crate::mailbox::MailBox;
use crate::pop3::command::{push_decimal, CommandView, POP3Command, CR, LF, SPACE};
use crate::pop3::err::POP3CommandErr;
use crate::pop3::response::{crlf, encode, POP3Response};
use crate::pop3::session::{
    answer_action, answer_state, authorization_action, authorization_state, framed, is_marked,
    kept_from, live_count, live_size, next_state, out_of_phase, positive, saturated, scan_line,
    scan_listing, stat_text, text, transaction_action, transaction_maildrop, transaction_marks,
    transaction_state, with_mark, ActionView, ReadOutcome, ReadOutcomeView, SessionAction,
    SessionEvent, SessionState, SessionStateView,
};
use bytes::Bytes;
use vstd::prelude::*;

verus! {

/// The session of one connection: what was received and is no whole frame
/// yet, the state of the conversation, and the marks on the maildrop.
#[derive(Debug)]
pub struct POP3Connection {
    // Socket state
    buffer: Vec<u8>,
    // Connection state
    state: SessionState,
    marks: Vec<bool>,
}

/// The number of messages in a maildrop.
fn message_count<M: MailBox>(mailbox: &M) -> (count: usize)
    ensures
        count == mailbox.messages().len(),
{
    broadcast use vstd::std_specs::hash::group_hash_axioms;

    let found = mailbox.get_messages();
    let mut count: usize = 0;
    while found.contains_key(&count)
        invariant
            count <= mailbox.messages().len() <= usize::MAX,
            forall|i: usize| found@.contains_key(i) <==> i < mailbox.messages().len(),
        decreases mailbox.messages().len() - count,
    {
        count += 1;
    }
    count
}

impl POP3Connection {
    /// The bytes received so far that are no whole frame yet.
    pub closed spec fn buffered(&self) -> Seq<u8> {
        self.buffer@
    }

    /// The state of the conversation.
    pub closed spec fn state_view(&self) -> SessionStateView {
        self.state@
    }

    /// For each message of the maildrop, by index, whether it is marked as
    /// deleted; an index beyond the end is not marked.
    pub closed spec fn marks(&self) -> Seq<bool> {
        self.marks@
    }

    /// A session at its start: nothing received, nobody authenticated, no
    /// address remembered, nothing marked.
    pub fn new() -> (connection: Self)
        ensures
            connection.buffered() == Seq::<u8>::empty(),
            connection.state_view() == (SessionStateView::Authorization { pending_username: None }),
            connection.marks() == Seq::<bool>::empty(),
    {
        Self {
            buffer: Vec::new(),
            state: SessionState::Authorization { pending_username: None },
            marks: Vec::new(),
        }
    }

    /// The state of the conversation.
    pub fn state(&self) -> (state: &SessionState)
        ensures
            state@ == self.state_view(),
    {
        &self.state
    }

    /// Commence the interaction with the client: the greeting to send
    /// before the first command is read.
    pub fn begin(&self) -> (greeting: POP3Response)
        ensures
            greeting@ == positive(text("hello")),
    {
        POP3Response::positive(from_static_str("hello"))
    }

    /// Close the connection: the conversation is over, whatever its state
    /// was. The marks stay; nothing leaves the maildrop.
    pub fn close(&mut self)
        ensures
            final(self).state_view() == SessionStateView::Closed,
            final(self).buffered() == old(self).buffered(),
            final(self).marks() == old(self).marks(),
    {
        self.state = SessionState::Closed;
    }

    /// Take in what a read from the socket returned, and say what it
    /// amounts to together with what was received before.
    ///
    /// A read of no bytes means that the peer has closed the connection:
    /// the session is closed. Otherwise the bytes are added to the buffer,
    /// and the buffer is held against [`framed`]. It is kept where the frame
    /// is incomplete, and emptied in every other case, so whatever followed
    /// the first frame in the same read is lost.
    pub fn read_command(&mut self, received: &[u8]) -> (outcome: ReadOutcome)
        ensures
            final(self).marks() == old(self).marks(),
            received@.len() == 0 ==> {
                &&& outcome@ == ReadOutcomeView::Terminated
                &&& final(self).state_view() == SessionStateView::Closed
                &&& final(self).buffered() == old(self).buffered()
            },
            received@.len() > 0 ==> {
                &&& outcome@ == framed(old(self).buffered() + received@)
                &&& final(self).state_view() == old(self).state_view()
                &&& final(self).buffered() == if outcome@ == ReadOutcomeView::Incomplete {
                    old(self).buffered() + received@
                } else {
                    Seq::<u8>::empty()
                }
            },
    {
        if received.len() == 0 {
            self.state = SessionState::Closed;
            return ReadOutcome::Terminated;
        }
        // Write the bytes from the client into the buffer
        self.buffer.extend_from_slice(received);
        let copy = self.buffer.clone();
        assert(copy@ =~= self.buffer@);
        let frame = from_vec(copy);
        let parsed = POP3Command::parse(frame);
        assert(self.buffer@ == old(self).buffer@ + received@);
        assert(copy@ == self.buffer@);
        assert(bytes_seq(frame) == old(self).buffered() + received@);
        match parsed {
            Ok(command) => {
                self.buffer.clear();
                ReadOutcome::Command(command)
            },
            Err(POP3CommandErr::IncompleteResponse) => ReadOutcome::Incomplete,
            Err(POP3CommandErr::UnknownCommand(verb)) => {
                self.buffer.clear();
                let mut message: Vec<u8> = Vec::new();
                message.extend_from_slice("unknown command ".as_bytes());
                message.extend_from_slice(as_slice(&verb));
                assert(message@ =~= text("unknown command ") + bytes_seq(verb));
                ReadOutcome::Rejected(POP3Response::negative(from_vec(message)))
            },
            Err(_) => {
                self.buffer.clear();
                ReadOutcome::Discarded
            },
        }
    }

    /// The answer to an input that has no place in the current phase.
    fn refuse(&self) -> (action: SessionAction)
        ensures
            action@ == out_of_phase(self.state_view()),
    {
        match &self.state {
            SessionState::Authorization { .. } => SessionAction::Respond(
                POP3Response::negative(from_static_str("command not valid during authentication")),
            ),
            SessionState::Transaction { .. } => SessionAction::Respond(
                POP3Response::negative(from_static_str("command not valid during transaction")),
            ),
            SessionState::Closed => SessionAction::Close,
        }
    }

    /// The question to the user store that a `PASS` with the given secret
    /// leads to, if an address is remembered and the secret is UTF-8.
    fn verification(&self, password: &Bytes) -> (request: Option<SessionAction>)
        requires
            self.state_view() is Authorization,
        ensures
            match authorization_action(
                self.state_view()->Authorization_pending_username,
                CommandView::Password { password: bytes_seq(*password) },
            ) {
                ActionView::Verify { address, password } => request matches Some(action)
                    && action@ == (ActionView::Verify { address, password }),
                _ => request is None,
            },
    {
        broadcast use vstd::utf8::encode_utf8_decode_utf8;

        match &self.state {
            SessionState::Authorization { pending_username: Some(address) } => {
                match utf8_text(as_slice(password)) {
                    Some(secret) => Some(
                        SessionAction::Verify {
                            address: address.clone(),
                            password: secret.to_owned(),
                        },
                    ),
                    None => None,
                }
            },
            _ => None,
        }
    }

    /// Authentication phase of the POP3 connection. During this phase, the
    /// server verifies the identity of the client.
    ///
    /// Handles one command. Where the session is in authorization, the
    /// state and the action are those of [`authorization_state`] and
    /// [`authorization_action`]; in another phase the command is refused
    /// and changes nothing.
    pub fn authenticate(&mut self, command: POP3Command) -> (action: SessionAction)
        ensures
            final(self).buffered() == old(self).buffered(),
            final(self).marks() == old(self).marks(),
            old(self).state_view() matches SessionStateView::Authorization { pending_username }
                ==> {
                &&& final(self).state_view() == authorization_state(pending_username, command@)
                &&& action@ == authorization_action(pending_username, command@)
            },
            !(old(self).state_view() is Authorization) ==> {
                &&& final(self).state_view() == old(self).state_view()
                &&& action@ == out_of_phase(old(self).state_view())
            },
    {
        broadcast use vstd::utf8::encode_utf8_decode_utf8;

        match &self.state {
            SessionState::Authorization { .. } => {},
            _ => {
                return self.refuse();
            },
        }
        // Handle the commands valid in the authentication state
        match command {
            POP3Command::Username { username } => {
                // Parse the bytes into a string and remember them
                let pending_username = MailAddress::from_bytes(as_slice(&username));
                self.state = SessionState::Authorization { pending_username };
                SessionAction::Respond(POP3Response::positive(from_static_str("")))
            },
            POP3Command::Password { password } => {
                match self.verification(&password) {
                    Some(request) => request,
                    None => SessionAction::Respond(
                        POP3Response::negative(from_static_str("Username or password is not valid")),
                    ),
                }
            },
            POP3Command::APop { username: _, md5_digest: _ } => {
                self.state = SessionState::Closed;
                SessionAction::RespondAndClose(POP3Response::positive(from_static_str("")))
            },
            POP3Command::Quit => {
                self.state = SessionState::Closed;
                SessionAction::Close
            },
            POP3Command::Capabilities => SessionAction::Respond(
                POP3Response::positive(from_static_str("\r\nUSER")),
            ),
            _ => self.refuse(),
        }
    }

    /// Take in the user store's answer to a [`SessionAction::Verify`].
    ///
    /// Where the session is in authorization, a user leads on to the
    /// transaction phase, with no message marked, and no user leaves the
    /// session where it was. In another phase the answer is refused and
    /// changes nothing.
    pub fn authenticated(&mut self, answer: Option<User>) -> (action: SessionAction)
        ensures
            final(self).buffered() == old(self).buffered(),
            final(self).state_view() == answer_state(
                old(self).state_view(),
                match answer {
                    Some(user) => Some(user@),
                    None => None,
                },
            ),
            action@ == answer_action(
                old(self).state_view(),
                match answer {
                    Some(user) => Some(user@),
                    None => None,
                },
            ),
            final(self).marks() == if old(self).state_view() is Authorization && answer is Some {
                Seq::<bool>::empty()
            } else {
                old(self).marks()
            },
    {
        match &self.state {
            SessionState::Authorization { .. } => {},
            _ => {
                return self.refuse();
            },
        }
        match answer {
            // User is authenticated, so exit the authentication phase
            Some(authenticated_user) => {
                self.state = SessionState::Transaction { authenticated_user };
                self.marks.clear();
                SessionAction::Respond(POP3Response::positive(from_static_str("Authenticated")))
            },
            None => SessionAction::Respond(
                POP3Response::negative(from_static_str("Username or password is not valid")),
            ),
        }
    }
}

impl POP3Connection {
    /// Whether the message at `index` is marked as deleted.
    fn marked(&self, index: usize) -> (yes: bool)
        ensures
            yes == is_marked(self.marks(), index as int),
    {
        index < self.marks.len() && self.marks[index]
    }

    /// Whether `number`, as a client counts, names a live message of a
    /// maildrop of `count` messages.
    fn names_live(&self, count: usize, number: usize) -> (yes: bool)
        ensures
            yes == (1 <= number <= count && !is_marked(self.marks(), number - 1)),
    {
        1 <= number && number <= count && !self.marked(number - 1)
    }

    /// The response to `STAT`.
    fn stat<M: MailBox>(&self, mailbox: &M) -> (response: POP3Response)
        ensures
            response@ == positive(stat_text(mailbox.messages(), self.marks())),
    {
        broadcast use vstd::std_specs::hash::group_hash_axioms;

        let found = mailbox.get_messages();
        let ghost messages = mailbox.messages();
        let mut count: usize = 0;
        let mut size: usize = 0;
        let mut i: usize = 0;
        while found.contains_key(&i)
            invariant
                messages == mailbox.messages(),
                messages.len() <= usize::MAX,
                forall|k: usize| found@.contains_key(k) <==> k < messages.len(),
                forall|k: usize| k < messages.len() ==> (#[trigger] found@[k])@ == messages[k as int],
                i <= messages.len(),
                count == live_count(messages, self.marks(), i as int),
                count <= i,
                size == saturated(live_size(messages, self.marks(), i as int)),
            decreases messages.len() - i,
        {
            match found.get(&i) {
                Some(mail) => {
                    if !self.marked(i) {
                        count += 1;
                        size = size.saturating_add(mail.content_len());
                    }
                },
                None => {},
            }
            i += 1;
        }
        let mut out: Vec<u8> = Vec::new();
        push_decimal(&mut out, count);
        out.push(SPACE);
        push_decimal(&mut out, size);
        assert(out@ =~= stat_text(messages, self.marks()));
        POP3Response::positive(from_vec(out))
    }

    /// The response to `LIST` without a number.
    fn list<M: MailBox>(&self, mailbox: &M) -> (response: POP3Response)
        ensures
            response@ == positive(
                scan_listing(mailbox.messages(), self.marks(), mailbox.messages().len() as int),
            ),
    {
        broadcast use vstd::std_specs::hash::group_hash_axioms;

        let found = mailbox.get_messages();
        let ghost messages = mailbox.messages();
        let mut out: Vec<u8> = Vec::new();
        let mut i: usize = 0;
        while found.contains_key(&i)
            invariant
                messages == mailbox.messages(),
                messages.len() <= usize::MAX,
                forall|k: usize| found@.contains_key(k) <==> k < messages.len(),
                forall|k: usize| k < messages.len() ==> (#[trigger] found@[k])@ == messages[k as int],
                i <= messages.len(),
                out@ == scan_listing(messages, self.marks(), i as int),
            decreases messages.len() - i,
        {
            match found.get(&i) {
                Some(mail) => {
                    if !self.marked(i) {
                        let ghost before = out@;
                        out.push(CR);
                        out.push(LF);
                        push_decimal(&mut out, i + 1);
                        out.push(SPACE);
                        push_decimal(&mut out, mail.content_len());
                        assert(out@ =~= before + (crlf() + scan_line(
                            (i + 1) as nat,
                            messages[i as int].len(),
                        )));
                    }
                },
                None => {},
            }
            i += 1;
        }
        POP3Response::positive(from_vec(out))
    }

    /// The action for `LIST` with a number.
    fn scan<M: MailBox>(&self, mailbox: &M, number: usize) -> (action: SessionAction)
        ensures
            action@ == transaction_action(
                mailbox.messages(),
                self.marks(),
                CommandView::List { message_number: Some(number) },
            ),
    {
        broadcast use vstd::std_specs::hash::group_hash_axioms;

        let found = mailbox.get_messages();
        if number >= 1 && !self.marked(number - 1) {
            match found.get(&(number - 1)) {
                Some(mail) => {
                    let mut out: Vec<u8> = Vec::new();
                    push_decimal(&mut out, number);
                    out.push(SPACE);
                    push_decimal(&mut out, mail.content_len());
                    assert(out@ =~= scan_line(
                        number as nat,
                        mailbox.messages()[number - 1].len(),
                    ));
                    return SessionAction::Respond(POP3Response::positive(from_vec(out)));
                },
                None => {},
            }
        }
        SessionAction::Respond(POP3Response::negative(from_static_str("no such message")))
    }

    /// The action for `RETR`.
    fn retrieve<M: MailBox>(&self, mailbox: &M, number: usize) -> (action: SessionAction)
        ensures
            action@ == transaction_action(
                mailbox.messages(),
                self.marks(),
                CommandView::Retrieve { message_number: number },
            ),
    {
        broadcast use vstd::std_specs::hash::group_hash_axioms;

        let found = mailbox.get_messages();
        if number >= 1 && !self.marked(number - 1) {
            match found.get(&(number - 1)) {
                Some(mail) => {
                    let content = mail.content();
                    let mut out: Vec<u8> = Vec::new();
                    out.push(CR);
                    out.push(LF);
                    out.extend_from_slice(as_slice(&content));
                    assert(out@ =~= crlf() + mailbox.messages()[number - 1]);
                    return SessionAction::Respond(POP3Response::positive(from_vec(out)));
                },
                None => {},
            }
        }
        SessionAction::Respond(POP3Response::negative(from_static_str("no such message")))
    }

    /// Mark the message at `index` as deleted.
    fn mark(&mut self, index: usize)
        ensures
            final(self).marks() == with_mark(old(self).marks(), index as int),
            final(self).state_view() == old(self).state_view(),
            final(self).buffered() == old(self).buffered(),
    {
        while self.marks.len() <= index
            invariant
                self.state == old(self).state,
                self.buffer == old(self).buffer,
                old(self).marks@.len() <= self.marks@.len(),
                self.marks@.len() <= index + 1 || self.marks@.len() == old(self).marks@.len(),
                forall|i: int|
                    0 <= i < self.marks@.len() ==> self.marks@[i] == is_marked(old(self).marks@, i),
            decreases index + 1 - self.marks.len(),
        {
            self.marks.push(false);
        }
        self.marks.set(index, true);
        assert(self.marks@ =~= with_mark(old(self).marks@, index as int));
    }

    /// Remove the marked messages from the maildrop.
    fn purge<M: MailBox>(&self, mailbox: &mut M)
        ensures
            final(mailbox).messages() == kept_from(old(mailbox).messages(), self.marks(), 0),
    {
        let count = message_count(mailbox);
        let ghost messages = mailbox.messages();
        let mut i: usize = count;
        assert(messages.take(count as int) + kept_from(messages, self.marks(), count as int)
            =~= messages);
        // From the last message to the first, so that the messages still
        // to be looked at keep their places.
        while i > 0
            invariant
                messages == old(mailbox).messages(),
                i <= messages.len(),
                mailbox.messages() == messages.take(i as int) + kept_from(
                    messages,
                    self.marks(),
                    i as int,
                ),
            decreases i,
        {
            i -= 1;
            let ghost rest = kept_from(messages, self.marks(), i + 1);
            assert(messages.take(i + 1) =~= messages.take(i as int).push(messages[i as int]));
            if self.marked(i) {
                let removed = mailbox.delete_message(i);
                assert(mailbox.messages() =~= messages.take(i as int) + rest);
            } else {
                assert(mailbox.messages() =~= messages.take(i as int) + (seq![messages[i as int]]
                    + rest));
            }
        }
        assert(messages.take(0) + kept_from(messages, self.marks(), 0) =~= kept_from(
            messages,
            self.marks(),
            0,
        ));
    }

    /// Transaction phase of the POP3 connection. During this phase, the
    /// client looks at the maildrop of the user it authenticated as.
    ///
    /// Handles one command. Where the session is in the transaction phase,
    /// the state, the marks, the maildrop and the action are those of
    /// [`transaction_state`], [`transaction_marks`],
    /// [`transaction_maildrop`] and [`transaction_action`]; in another
    /// phase the command is refused and changes nothing.
    pub fn transaction<M: MailBox>(&mut self, mailbox: &mut M, command: POP3Command) -> (action:
        SessionAction)
        ensures
            final(self).buffered() == old(self).buffered(),
            old(self).state_view() is Transaction ==> {
                &&& final(self).state_view() == transaction_state(old(self).state_view(), command@)
                &&& final(self).marks() == transaction_marks(
                    old(mailbox).messages(),
                    old(self).marks(),
                    command@,
                )
                &&& final(mailbox).messages() == transaction_maildrop(
                    old(mailbox).messages(),
                    old(self).marks(),
                    command@,
                )
                &&& action@ == transaction_action(
                    old(mailbox).messages(),
                    old(self).marks(),
                    command@,
                )
            },
            !(old(self).state_view() is Transaction) ==> {
                &&& final(self).state_view() == old(self).state_view()
                &&& final(self).marks() == old(self).marks()
                &&& final(mailbox).messages() == old(mailbox).messages()
                &&& action@ == out_of_phase(old(self).state_view())
            },
    {
        match &self.state {
            SessionState::Transaction { .. } => {},
            _ => {
                return self.refuse();
            },
        }
        match command {
            POP3Command::Stat => SessionAction::Respond(self.stat(mailbox)),
            POP3Command::List { message_number: None } => SessionAction::Respond(self.list(mailbox)),
            POP3Command::List { message_number: Some(number) } => self.scan(mailbox, number),
            POP3Command::Retrieve { message_number } => self.retrieve(mailbox, message_number),
            POP3Command::Delete { message_number } => {
                let count = message_count(mailbox);
                if self.names_live(count, message_number) {
                    self.mark(message_number - 1);
                    SessionAction::Respond(POP3Response::positive(from_static_str("")))
                } else {
                    SessionAction::Respond(
                        POP3Response::negative(from_static_str("no such message")),
                    )
                }
            },
            POP3Command::NoOp => SessionAction::Respond(
                POP3Response::positive(from_static_str("")),
            ),
            POP3Command::Reset => {
                self.marks.clear();
                SessionAction::Respond(POP3Response::positive(from_static_str("")))
            },
            POP3Command::Quit => {
                self.purge(mailbox);
                self.marks.clear();
                self.state = SessionState::Closed;
                SessionAction::Close
            },
            POP3Command::Top { message_number: _, n: _ } => SessionAction::Respond(
                POP3Response::negative(from_static_str("unsupported")),
            ),
            POP3Command::UniqueIDListing { message_number: _ } => SessionAction::Respond(
                POP3Response::negative(from_static_str("unsupported")),
            ),
            _ => self.refuse(),
        }
    }

    /// Handle one command, in whatever phase the session is in: as
    /// [`POP3Connection::authenticate`] does during authorization, as
    /// [`POP3Connection::transaction`] does during the transaction phase,
    /// and not at all once the session is closed.
    pub fn handle<M: MailBox>(&mut self, mailbox: &mut M, command: POP3Command) -> (action:
        SessionAction)
        ensures
            final(self).buffered() == old(self).buffered(),
            final(self).state_view() == next_state(
                old(self).state_view(),
                SessionEvent::Command(command@),
            ),
            old(self).state_view() matches SessionStateView::Authorization { pending_username }
                ==> {
                &&& action@ == authorization_action(pending_username, command@)
                &&& final(self).marks() == old(self).marks()
                &&& final(mailbox).messages() == old(mailbox).messages()
            },
            old(self).state_view() is Transaction ==> {
                &&& action@ == transaction_action(
                    old(mailbox).messages(),
                    old(self).marks(),
                    command@,
                )
                &&& final(self).marks() == transaction_marks(
                    old(mailbox).messages(),
                    old(self).marks(),
                    command@,
                )
                &&& final(mailbox).messages() == transaction_maildrop(
                    old(mailbox).messages(),
                    old(self).marks(),
                    command@,
                )
            },
            old(self).state_view() is Closed ==> {
                &&& action@ == ActionView::Close
                &&& final(self).marks() == old(self).marks()
                &&& final(mailbox).messages() == old(mailbox).messages()
            },
    {
        match &self.state {
            SessionState::Authorization { .. } => self.authenticate(command),
            SessionState::Transaction { .. } => self.transaction(mailbox, command),
            SessionState::Closed => SessionAction::Close,
        }
    }

    /// The bytes to send for a response or greeting.
    pub fn send_response(&self, response: POP3Response) -> (wire: Bytes)
        ensures
            bytes_seq(wire) == encode(response@),
    {
        Bytes::from(response)
    }
}

} // verus!
