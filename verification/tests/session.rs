use bytes::Bytes;
use mailroom::address::MailAddress;
use mailroom::database::user::User;
use mailroom::mailbox::{Mail, MailBox, TestMailBox};
use mailroom::pop3::command::POP3Command;
use mailroom::pop3::connection::POP3Connection;
use mailroom::pop3::session::{ReadOutcome, SessionAction, SessionState};
use mailroom::pop3::response::POP3Response;

fn alice() -> User {
    User {
        email_address: "alice@example.org".to_owned(),
        password: "$argon2id$stored".to_owned(),
    }
}

fn maildrop(messages: &[&'static str]) -> TestMailBox {
    TestMailBox::with_messages(messages.iter().map(|m| Mail::new(Bytes::from(*m))).collect())
}

fn contents(mailbox: &TestMailBox) -> Vec<Bytes> {
    let found = mailbox.get_messages();
    (0..found.len()).map(|i| found[&i].content()).collect()
}

fn command(connection: &mut POP3Connection, frame: &'static str) -> POP3Command {
    match connection.read_command(frame.as_bytes()) {
        ReadOutcome::Command(command) => command,
        other => panic!("{:?}", other),
    }
}

fn response(action: SessionAction) -> POP3Response {
    match action {
        SessionAction::Respond(response) => response,
        other => panic!("{:?}", other),
    }
}

fn signed_in() -> POP3Connection {
    let mut connection = POP3Connection::new();
    connection.authenticate(POP3Command::Username {
        username: Bytes::from("alice@example.org"),
    });
    connection.authenticate(POP3Command::Password {
        password: Bytes::from("correct"),
    });
    connection.authenticated(Some(alice()));
    assert!(matches!(connection.state(), SessionState::Transaction { .. }));
    connection
}

#[test]
fn end_to_end() {
    let mut connection = POP3Connection::new();
    let mut mailbox = maildrop(&["first message", "second"]);
    assert!(matches!(
        connection.state(),
        SessionState::Authorization { pending_username: None }
    ));

    // connect -> greeting
    assert_eq!(
        Bytes::from(connection.begin()),
        Bytes::from("+OK hello\r\n")
    );

    // USER alice -> positive
    let user = command(&mut connection, "USER alice@example.org\r\n");
    assert_eq!(
        response(connection.authenticate(user)),
        POP3Response::positive(Bytes::from(""))
    );
    match connection.state() {
        SessionState::Authorization { pending_username: Some(address) } => {
            assert_eq!(address.as_str(), "alice@example.org")
        }
        other => panic!("{:?}", other),
    }

    // PASS wrong -> negative, state remains Authorization
    let pass = command(&mut connection, "PASS wrong\r\n");
    match connection.authenticate(pass) {
        SessionAction::Verify { address, password } => {
            assert_eq!(address.as_str(), "alice@example.org");
            assert_eq!(password, "wrong");
        }
        other => panic!("{:?}", other),
    }
    assert_eq!(
        response(connection.authenticated(None)),
        POP3Response::negative(Bytes::from("Username or password is not valid"))
    );
    assert!(matches!(
        connection.state(),
        SessionState::Authorization { pending_username: Some(_) }
    ));

    // PASS correct -> positive, state becomes Transaction
    let pass = command(&mut connection, "PASS correct\r\n");
    match connection.authenticate(pass) {
        SessionAction::Verify { address, password } => {
            assert_eq!(address.as_str(), "alice@example.org");
            assert_eq!(password, "correct");
        }
        other => panic!("{:?}", other),
    }
    assert_eq!(
        response(connection.authenticated(Some(alice()))),
        POP3Response::positive(Bytes::from("Authenticated"))
    );
    match connection.state() {
        SessionState::Transaction { authenticated_user } => {
            assert_eq!(authenticated_user.email_address, "alice@example.org")
        }
        other => panic!("{:?}", other),
    }

    // STAT -> positive with count and size
    let stat = command(&mut connection, "STAT\r\n");
    let answer = response(connection.transaction(&mut mailbox, stat));
    assert_eq!(Bytes::from(answer), Bytes::from("+OK 2 19\r\n"));

    // QUIT -> connection closes
    let quit = command(&mut connection, "QUIT\r\n");
    assert!(matches!(
        connection.transaction(&mut mailbox, quit),
        SessionAction::Close
    ));
    assert!(matches!(connection.state(), SessionState::Closed));
    assert_eq!(contents(&mailbox).len(), 2);
}

#[test]
fn authorization_commands() {
    let mut connection = POP3Connection::new();
    assert_eq!(
        response(connection.authenticate(POP3Command::Capabilities)),
        POP3Response::positive(Bytes::from("\r\nUSER"))
    );
    for command in [
        POP3Command::Stat,
        POP3Command::List { message_number: None },
        POP3Command::Retrieve { message_number: 1 },
        POP3Command::Delete { message_number: 1 },
        POP3Command::NoOp,
        POP3Command::Reset,
        POP3Command::Top { message_number: 1, n: 1 },
        POP3Command::UniqueIDListing { message_number: None },
    ] {
        assert_eq!(
            response(connection.authenticate(command)),
            POP3Response::negative(Bytes::from("command not valid during authentication"))
        );
        assert!(matches!(
            connection.state(),
            SessionState::Authorization { pending_username: None }
        ));
    }
    // A password without an address is refused like a wrong one
    assert_eq!(
        response(connection.authenticate(POP3Command::Password {
            password: Bytes::from("secret")
        })),
        POP3Response::negative(Bytes::from("Username or password is not valid"))
    );
    // What is no address is acknowledged and forgotten
    for name in [&b"alice"[..], &b"alice@"[..], &b"\xffalice@example.org"[..]] {
        assert_eq!(
            response(connection.authenticate(POP3Command::Username {
                username: Bytes::copy_from_slice(name)
            })),
            POP3Response::positive(Bytes::from(""))
        );
        assert!(matches!(
            connection.state(),
            SessionState::Authorization { pending_username: None }
        ));
    }
    // A password that is not UTF-8 is refused
    connection.authenticate(POP3Command::Username {
        username: Bytes::from("alice@example.org"),
    });
    assert_eq!(
        response(connection.authenticate(POP3Command::Password {
            password: Bytes::from(vec![0xc3u8, 0x28])
        })),
        POP3Response::negative(Bytes::from("Username or password is not valid"))
    );
    // A new USER replaces the address
    connection.authenticate(POP3Command::Username {
        username: Bytes::from("bob@example.org"),
    });
    match connection.state() {
        SessionState::Authorization { pending_username: Some(address) } => {
            assert_eq!(address.as_str(), "bob@example.org")
        }
        other => panic!("{:?}", other),
    }
}

#[test]
fn authorization_ends() {
    let mut connection = POP3Connection::new();
    assert!(matches!(
        connection.authenticate(POP3Command::Quit),
        SessionAction::Close
    ));
    assert!(matches!(connection.state(), SessionState::Closed));
    // Nothing happens once the session is closed
    assert!(matches!(
        connection.authenticate(POP3Command::NoOp),
        SessionAction::Close
    ));
    assert!(matches!(
        connection.authenticated(Some(alice())),
        SessionAction::Close
    ));
    let mut mailbox = maildrop(&["m"]);
    assert!(matches!(
        connection.transaction(&mut mailbox, POP3Command::Stat),
        SessionAction::Close
    ));
    assert!(matches!(connection.state(), SessionState::Closed));

    let mut connection = POP3Connection::new();
    match connection.authenticate(POP3Command::APop {
        username: Bytes::from("mrose"),
        md5_digest: Bytes::from("c4c9334bac560ecc979e58001b3e22fb"),
    }) {
        SessionAction::RespondAndClose(response) => {
            assert_eq!(response, POP3Response::positive(Bytes::from("")))
        }
        other => panic!("{:?}", other),
    }
    assert!(matches!(connection.state(), SessionState::Closed));

    let mut connection = POP3Connection::new();
    connection.close();
    assert!(matches!(connection.state(), SessionState::Closed));
}

#[test]
fn no_transaction_without_acceptance() {
    let mut connection = POP3Connection::new();
    let mut mailbox = maildrop(&["m"]);
    let frames = [
        "USER alice@example.org\r\n",
        "NOOP\r\n",
        "PASS one\r\n",
        "CAPA\r\n",
        "STAT\r\n",
        "PASS two\r\n",
        "USER bob@example.org\r\n",
        "PASS three\r\n",
    ];
    for frame in frames {
        let next = command(&mut connection, frame);
        if let SessionAction::Verify { .. } = connection.authenticate(next) {
            connection.authenticated(None);
        }
        assert!(matches!(connection.state(), SessionState::Authorization { .. }));
        // Commands of the other phase are refused and change nothing
        assert_eq!(
            response(connection.transaction(&mut mailbox, POP3Command::Delete { message_number: 1 })),
            POP3Response::negative(Bytes::from("command not valid during authentication"))
        );
        assert!(matches!(connection.state(), SessionState::Authorization { .. }));
    }
    assert_eq!(contents(&mailbox), vec![Bytes::from("m")]);
}

#[test]
fn noop_changes_nothing() {
    let mut connection = POP3Connection::new();
    connection.authenticate(POP3Command::Username {
        username: Bytes::from("alice@example.org"),
    });
    for _ in 0..5 {
        connection.authenticate(POP3Command::NoOp);
        match connection.state() {
            SessionState::Authorization { pending_username: Some(address) } => {
                assert_eq!(address.as_str(), "alice@example.org")
            }
            other => panic!("{:?}", other),
        }
    }

    let mut connection = signed_in();
    let mut mailbox = maildrop(&["one", "two", "three"]);
    connection.transaction(&mut mailbox, POP3Command::Delete { message_number: 2 });
    for _ in 0..5 {
        assert_eq!(
            response(connection.transaction(&mut mailbox, POP3Command::NoOp)),
            POP3Response::positive(Bytes::from(""))
        );
        assert!(matches!(connection.state(), SessionState::Transaction { .. }));
        assert_eq!(
            response(connection.transaction(&mut mailbox, POP3Command::Stat)),
            POP3Response::positive(Bytes::from("2 8"))
        );
        assert_eq!(contents(&mailbox).len(), 3);
    }
}

#[test]
fn transaction_commands() {
    let mut connection = signed_in();
    let mut mailbox = maildrop(&["one", "second", "the third"]);
    let ask = |connection: &mut POP3Connection, mailbox: &mut TestMailBox, command| {
        Bytes::from(response(connection.transaction(mailbox, command)))
    };
    assert_eq!(
        ask(&mut connection, &mut mailbox, POP3Command::Stat),
        Bytes::from("+OK 3 18\r\n")
    );
    assert_eq!(
        ask(&mut connection, &mut mailbox, POP3Command::List { message_number: None }),
        Bytes::from("+OK \r\n1 3\r\n2 6\r\n3 9\r\n.\r\n")
    );
    assert_eq!(
        ask(&mut connection, &mut mailbox, POP3Command::List { message_number: Some(2) }),
        Bytes::from("+OK 2 6\r\n")
    );
    assert_eq!(
        ask(&mut connection, &mut mailbox, POP3Command::Retrieve { message_number: 3 }),
        Bytes::from("+OK \r\nthe third\r\n.\r\n")
    );
    for number in [0usize, 4, usize::MAX] {
        for command in [
            POP3Command::List { message_number: Some(number) },
            POP3Command::Retrieve { message_number: number },
            POP3Command::Delete { message_number: number },
        ] {
            assert_eq!(
                ask(&mut connection, &mut mailbox, command),
                Bytes::from("-ERR no such message\r\n")
            );
        }
    }
    assert_eq!(
        ask(&mut connection, &mut mailbox, POP3Command::Delete { message_number: 2 }),
        Bytes::from("+OK\r\n")
    );
    // A marked message is out of sight
    assert_eq!(
        ask(&mut connection, &mut mailbox, POP3Command::Delete { message_number: 2 }),
        Bytes::from("-ERR no such message\r\n")
    );
    assert_eq!(
        ask(&mut connection, &mut mailbox, POP3Command::Retrieve { message_number: 2 }),
        Bytes::from("-ERR no such message\r\n")
    );
    assert_eq!(
        ask(&mut connection, &mut mailbox, POP3Command::Stat),
        Bytes::from("+OK 2 12\r\n")
    );
    assert_eq!(
        ask(&mut connection, &mut mailbox, POP3Command::List { message_number: None }),
        Bytes::from("+OK \r\n1 3\r\n3 9\r\n.\r\n")
    );
    // ... until the marks are taken off
    assert_eq!(
        ask(&mut connection, &mut mailbox, POP3Command::Reset),
        Bytes::from("+OK\r\n")
    );
    assert_eq!(
        ask(&mut connection, &mut mailbox, POP3Command::Stat),
        Bytes::from("+OK 3 18\r\n")
    );
    assert_eq!(
        ask(&mut connection, &mut mailbox, POP3Command::Top { message_number: 1, n: 2 }),
        Bytes::from("-ERR unsupported\r\n")
    );
    assert_eq!(
        ask(
            &mut connection,
            &mut mailbox,
            POP3Command::UniqueIDListing { message_number: None }
        ),
        Bytes::from("-ERR unsupported\r\n")
    );
    for command in [
        POP3Command::Capabilities,
        POP3Command::Username { username: Bytes::from("bob@example.org") },
        POP3Command::Password { password: Bytes::from("x") },
        POP3Command::APop { username: Bytes::from("a"), md5_digest: Bytes::from("b") },
    ] {
        assert_eq!(
            ask(&mut connection, &mut mailbox, command),
            Bytes::from("-ERR command not valid during transaction\r\n")
        );
    }
    // The user stays who it is
    assert_eq!(
        response(connection.authenticated(None)),
        POP3Response::negative(Bytes::from("command not valid during transaction"))
    );
    match connection.state() {
        SessionState::Transaction { authenticated_user } => {
            assert_eq!(authenticated_user.email_address, "alice@example.org")
        }
        other => panic!("{:?}", other),
    }
    assert_eq!(contents(&mailbox).len(), 3);
}

#[test]
fn quit_removes_marked_messages() {
    let mut connection = signed_in();
    let mut mailbox = maildrop(&["a", "b", "c", "d", "e"]);
    for number in [4usize, 1, 5] {
        connection.transaction(&mut mailbox, POP3Command::Delete { message_number: number });
    }
    // Nothing leaves the maildrop before QUIT
    assert_eq!(contents(&mailbox).len(), 5);
    assert!(matches!(
        connection.transaction(&mut mailbox, POP3Command::Quit),
        SessionAction::Close
    ));
    assert_eq!(contents(&mailbox), vec![Bytes::from("b"), Bytes::from("c")]);

    // Closing without QUIT removes nothing
    let mut connection = signed_in();
    let mut mailbox = maildrop(&["a", "b"]);
    connection.transaction(&mut mailbox, POP3Command::Delete { message_number: 1 });
    connection.close();
    assert_eq!(contents(&mailbox).len(), 2);
}

#[test]
fn one_way_in_for_every_phase() {
    let mut connection = POP3Connection::new();
    let mut mailbox = maildrop(&["one"]);
    let refused = response(connection.handle(&mut mailbox, POP3Command::Stat));
    assert_eq!(
        connection.send_response(refused),
        Bytes::from("-ERR command not valid during authentication\r\n")
    );
    connection.handle(
        &mut mailbox,
        POP3Command::Username { username: Bytes::from("alice@example.org") },
    );
    assert!(matches!(
        connection.handle(&mut mailbox, POP3Command::Password { password: Bytes::from("x") }),
        SessionAction::Verify { .. }
    ));
    connection.authenticated(Some(alice()));
    let counted = response(connection.handle(&mut mailbox, POP3Command::Stat));
    assert_eq!(connection.send_response(counted), Bytes::from("+OK 1 3\r\n"));
    connection.handle(&mut mailbox, POP3Command::Delete { message_number: 1 });
    assert!(matches!(
        connection.handle(&mut mailbox, POP3Command::Quit),
        SessionAction::Close
    ));
    assert!(matches!(connection.state(), SessionState::Closed));
    assert!(contents(&mailbox).is_empty());
    assert!(matches!(
        connection.handle(&mut mailbox, POP3Command::Stat),
        SessionAction::Close
    ));
}

#[test]
fn empty_maildrop() {
    let mut connection = signed_in();
    let mut mailbox = maildrop(&[]);
    assert_eq!(
        Bytes::from(response(connection.transaction(&mut mailbox, POP3Command::Stat))),
        Bytes::from("+OK 0 0\r\n")
    );
    assert_eq!(
        Bytes::from(response(
            connection.transaction(&mut mailbox, POP3Command::List { message_number: None })
        )),
        Bytes::from("+OK\r\n")
    );
}

#[test]
fn frames() {
    let mut connection = POP3Connection::new();
    // A frame in pieces
    assert!(matches!(connection.read_command(b"NO"), ReadOutcome::Incomplete));
    assert!(matches!(connection.read_command(b"OP\r"), ReadOutcome::Incomplete));
    match connection.read_command(b"\n") {
        ReadOutcome::Command(command) => assert_eq!(command, POP3Command::NoOp),
        other => panic!("{:?}", other),
    }
    // The buffer is empty again
    match connection.read_command(b"QUIT\r\n") {
        ReadOutcome::Command(command) => assert_eq!(command, POP3Command::Quit),
        other => panic!("{:?}", other),
    }
    // An unknown verb is named in the answer
    match connection.read_command(b"FROB 1\r\n") {
        ReadOutcome::Rejected(response) => assert_eq!(
            Bytes::from(response),
            Bytes::from("-ERR unknown command FROB\r\n")
        ),
        other => panic!("{:?}", other),
    }
    // A faulty frame is dropped
    assert!(matches!(connection.read_command(b"RETR x\r\n"), ReadOutcome::Discarded));
    assert!(matches!(connection.read_command(b"\r\n"), ReadOutcome::Discarded));
    match connection.read_command(b"STAT\r\n") {
        ReadOutcome::Command(command) => assert_eq!(command, POP3Command::Stat),
        other => panic!("{:?}", other),
    }
    // Two frames in one read are one frame, with the second in its arguments
    match connection.read_command(b"NOOP 1\r\nQUIT\r\n") {
        ReadOutcome::Command(command) => assert_eq!(command, POP3Command::NoOp),
        other => panic!("{:?}", other),
    }
    match connection.read_command(b"NOOP\r\nQUIT\r\n") {
        ReadOutcome::Rejected(response) => assert_eq!(
            Bytes::from(response),
            Bytes::from("-ERR unknown command NOOP\r\nQUIT\r\n.\r\n")
        ),
        other => panic!("{:?}", other),
    }
    assert!(matches!(
        connection.state(),
        SessionState::Authorization { pending_username: None }
    ));
    // A read of nothing ends the session
    assert!(matches!(connection.read_command(b""), ReadOutcome::Terminated));
    assert!(matches!(connection.state(), SessionState::Closed));
}

#[test]
fn mail_addresses() {
    assert_eq!(
        MailAddress::parse("alice@example.org").unwrap().as_str(),
        "alice@example.org"
    );
    assert!(MailAddress::parse("alice").is_none());
    assert!(MailAddress::parse("").is_none());
    assert!(MailAddress::parse("@example.org").is_none());
    // Whatever the text, the answer is yes or no
    for text in [
        "a@[", "a@]", "a@[]", "\"@x", "\"\"@x", "<", " <>", "a <b", "a <b>", "@", "a@", "a@b@c",
        "a b@c", "\u{e9}@\u{e9}.example", "a@b..c", ".a@b", "a@-b",
    ] {
        let parsed = MailAddress::parse(text);
        if let Some(address) = parsed {
            assert_eq!(address.as_str(), text);
        }
    }
    let address = MailAddress::parse("Bob.Smith@localhost").unwrap();
    assert_eq!(address.clone().as_str(), "Bob.Smith@localhost");
}
