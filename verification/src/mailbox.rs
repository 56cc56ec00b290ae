//! The maildrop: the messages stored for one user.

use crate::buffer::{bytes_seq, from_static_str};
use bytes::Bytes;
use std::collections::HashMap;
use vstd::prelude::*;
use vstd::string::StringSliceAdditionalSpecFns;

verus! {

#[derive(PartialEq, Eq, Debug, Clone, Copy, Structural)]
pub enum MailboxError {
    MessageDoesNotExist,
}

impl MailboxError {
    /// The text that describes this error.
    pub fn message(&self) -> (text: String)
        ensures
            text@ == "specified message does not exist"@,
    {
        match self {
            MailboxError::MessageDoesNotExist => "specified message does not exist".to_owned(),
        }
    }
}

/// A stored message.
pub struct Mail {
    content: Bytes,
}

impl View for Mail {
    type V = Seq<u8>;

    /// The octets of the message.
    closed spec fn view(&self) -> Seq<u8> {
        bytes_seq(self.content)
    }
}

impl Mail {
    pub fn new(content: Bytes) -> (mail: Self)
        ensures
            mail@ == bytes_seq(content),
    {
        Self { content }
    }

    pub fn content(&self) -> (content: Bytes)
        ensures
            bytes_seq(content) == self@,
    {
        self.content.clone()
    }

    /// Return the length of the message in octets.
    pub fn content_len(&self) -> (len: usize)
        ensures
            len == self@.len(),
    {
        self.content.len()
    }
}

/// The octets of each message of `mails`.
pub open spec fn mail_views(mails: Seq<Mail>) -> Seq<Seq<u8>> {
    mails.map_values(|m: Mail| m@)
}

/// A maildrop. Its messages are numbered from zero, in the order in which
/// they are stored, and removing one moves those behind it up by one.
pub trait MailBox {
    /// The octets of each stored message, in order.
    spec fn messages(&self) -> Seq<Seq<u8>>;

    /// Every stored message under its number.
    fn get_messages(&self) -> (found: HashMap<usize, &Mail>)
        ensures
            self.messages().len() <= usize::MAX,
            forall|i: usize| found@.contains_key(i) <==> i < self.messages().len(),
            forall|i: usize|
                i < self.messages().len() ==> (#[trigger] found@[i])@ == self.messages()[i as int],
    ;

    /// Remove the message with the given number. A number that no message
    /// has is an error, and leaves the maildrop as it was.
    fn delete_message(&mut self, message: usize) -> (r: Result<(), MailboxError>)
        ensures
            message < old(self).messages().len() ==> r is Ok && final(self).messages() == old(
                self,
            ).messages().remove(message as int),
            message >= old(self).messages().len() ==> r == Err::<(), MailboxError>(
                MailboxError::MessageDoesNotExist,
            ) && final(self).messages() == old(self).messages(),
    ;
}

/// A maildrop held in memory.
pub struct TestMailBox {
    db: Vec<Mail>,
}

impl TestMailBox {
    /// A maildrop that holds one short plain-text message.
    pub fn new() -> (mailbox: Self)
        ensures
            mailbox.messages() == seq!["This is a plaintext, non MIME message".spec_bytes()],
    {
        let mut db: Vec<Mail> = Vec::new();
        db.push(Mail::new(from_static_str("This is a plaintext, non MIME message")));
        assert(mail_views(db@) =~= seq!["This is a plaintext, non MIME message".spec_bytes()]);
        Self { db }
    }

    /// A maildrop that holds the given messages, in their order.
    pub fn with_messages(db: Vec<Mail>) -> (mailbox: Self)
        ensures
            mailbox.messages() == mail_views(db@),
    {
        Self { db }
    }
}

impl MailBox for TestMailBox {
    closed spec fn messages(&self) -> Seq<Seq<u8>> {
        mail_views(self.db@)
    }

    fn get_messages(&self) -> (found: HashMap<usize, &Mail>) {
        broadcast use vstd::std_specs::hash::group_hash_axioms;

        let mut out: HashMap<usize, &Mail> = HashMap::new();
        let mut i: usize = 0;
        while i < self.db.len()
            invariant
                i <= self.db.len(),
                forall|k: usize| out@.contains_key(k) <==> k < i,
                forall|k: usize| k < i ==> *(#[trigger] out@[k]) == self.db@[k as int],
            decreases self.db.len() - i,
        {
            out.insert(i, &self.db[i]);
            i += 1;
        }
        out
    }

    fn delete_message(&mut self, message: usize) -> (r: Result<(), MailboxError>) {
        if message >= self.db.len() {
            return Err(MailboxError::MessageDoesNotExist);
        }
        self.db.remove(message);
        assert(mail_views(self.db@) =~= mail_views(old(self).db@).remove(message as int));
        Ok(())
    }
}

} // verus!
