use bytes::Bytes;
use mailroom::config::{default_postgres_host, TlsSettings};
use mailroom::config_editor::tree::{Node, SimpleNode};
use mailroom::database::err::DbError;
use mailroom::mailbox::{Mail, MailBox, MailboxError, TestMailBox};
use std::rc::Rc;

#[test]
fn configuration_defaults() {
    assert_eq!(default_postgres_host(), "localhost");
    assert_eq!(TlsSettings::default(), TlsSettings::Disabled);
}

#[test]
fn tree_of_nodes() {
    let root = Rc::new(SimpleNode::new(None, "root".to_owned()));
    assert_eq!(root.name(), "root");
    assert!(root.parent().is_none());
    assert!(root.children().is_empty());

    let first = Rc::new(SimpleNode::new(Some(root.clone()), "first".to_owned()));
    let second = Rc::new(SimpleNode::new(Some(root.clone()), "second".to_owned()));
    let node = SimpleNode::new(None, "node".to_owned())
        .child(first)
        .child(second);
    assert_eq!(node.name(), "node");
    let names: Vec<&str> = node.children().iter().map(|c| c.name()).collect();
    assert_eq!(names, vec!["first", "second"]);
    assert_eq!(node.children()[0].parent().as_ref().unwrap().name(), "root");
}

#[test]
fn maildrop_in_memory() {
    let mut mailbox = TestMailBox::new();
    {
        let found = mailbox.get_messages();
        assert_eq!(found.len(), 1);
        assert_eq!(
            found[&0].content(),
            Bytes::from("This is a plaintext, non MIME message")
        );
        assert_eq!(found[&0].content_len(), 37);
    }
    assert_eq!(
        mailbox.delete_message(1),
        Err(MailboxError::MessageDoesNotExist)
    );
    assert_eq!(mailbox.get_messages().len(), 1);
    assert_eq!(mailbox.delete_message(0), Ok(()));
    assert!(mailbox.get_messages().is_empty());
    assert_eq!(
        mailbox.delete_message(0),
        Err(MailboxError::MessageDoesNotExist)
    );

    let mut mailbox = TestMailBox::with_messages(vec![
        Mail::new(Bytes::from("a")),
        Mail::new(Bytes::from("bb")),
        Mail::new(Bytes::from("ccc")),
    ]);
    assert_eq!(mailbox.delete_message(1), Ok(()));
    let found = mailbox.get_messages();
    assert_eq!(found.len(), 2);
    assert_eq!(found[&0].content(), Bytes::from("a"));
    assert_eq!(found[&1].content(), Bytes::from("ccc"));
}

#[test]
fn error_messages() {
    assert_eq!(
        MailboxError::MessageDoesNotExist.message(),
        "specified message does not exist"
    );
    assert_eq!(
        DbError::UserDoesNotExist.message(),
        "specified user is not in database"
    );
}
