use mailroom::smtp::command::{SMTPCommand, SMTPCommandParseError};
use mailroom::smtp::err::SMTPReplyParseError;
use mailroom::smtp::incoming_connection::{IncomingSMTPConnection, SMTPReadOutcome};

#[test]
fn smtp_verbs() {
    assert!(matches!(SMTPCommand::try_from("RSET\r\n"), Ok(SMTPCommand::Reset)));
    assert!(matches!(SMTPCommand::try_from("  help me\r\n"), Ok(SMTPCommand::Help)));
    assert!(matches!(SMTPCommand::try_from("noop"), Ok(SMTPCommand::Noop)));
    assert!(matches!(SMTPCommand::try_from("\u{2003}Quit\u{a0}now"), Ok(SMTPCommand::Quit)));
    assert!(matches!(
        SMTPCommand::try_from("EHLO example.org\r\n"),
        Err(SMTPCommandParseError::InvalidCommand)
    ));
    assert!(matches!(
        SMTPCommand::try_from("QUITE\r\n"),
        Err(SMTPCommandParseError::InvalidCommand)
    ));
    assert!(matches!(
        SMTPCommand::try_from(""),
        Err(SMTPCommandParseError::IncompleteCommand)
    ));
    assert!(matches!(
        SMTPCommand::try_from(" \r\n\t \u{3000}"),
        Err(SMTPCommandParseError::IncompleteCommand)
    ));
}

#[test]
fn smtp_paths() {
    match SMTPCommand::try_from("MAIL FROM:<alice@example.org>\r\n") {
        Ok(SMTPCommand::MailFrom { sender }) => assert_eq!(sender.as_str(), "alice@example.org"),
        other => panic!("{:?}", other),
    }
    match SMTPCommand::try_from("mail from:alice@example.org SIZE=100\r\n") {
        Ok(SMTPCommand::MailFrom { sender }) => assert_eq!(sender.as_str(), "alice@example.org"),
        other => panic!("{:?}", other),
    }
    match SMTPCommand::try_from("RCPT To:<bob@example.net>\r\n") {
        Ok(SMTPCommand::Recipient { recipient }) => {
            assert_eq!(recipient.as_str(), "bob@example.net")
        }
        other => panic!("{:?}", other),
    }
    for input in [
        "MAIL\r\n",
        "MAIL alice@example.org\r\n",
        "MAIL TO:<alice@example.org>\r\n",
        "MAIL FROM:<alice>\r\n",
        "MAIL FROM:<>\r\n",
        "MAIL FROM: <alice@example.org>\r\n",
        "RCPT FROM:<bob@example.net>\r\n",
        "RCPT TO:\r\n",
        "VRFY\r\n",
        "EXPN  \r\n",
    ] {
        assert!(
            matches!(
                SMTPCommand::try_from(input),
                Err(SMTPCommandParseError::InvalidArguments)
            ),
            "{:?}",
            input
        );
    }
    match SMTPCommand::try_from("VRFY Smith extra\r\n") {
        Ok(SMTPCommand::Verify { address }) => assert_eq!(address, "Smith"),
        other => panic!("{:?}", other),
    }
    match SMTPCommand::try_from("expn staff\u{e9}\r\n") {
        Ok(SMTPCommand::Expand { mailing_list }) => assert_eq!(mailing_list, "staff\u{e9}"),
        other => panic!("{:?}", other),
    }
}

#[test]
fn smtp_data() {
    match SMTPCommand::try_from("DATA\r\nSubject: hi\r\n\r\nbody\r\n.\r\n") {
        Ok(SMTPCommand::Data { data }) => assert_eq!(data, "Subject: hi\r\n\r\nbody"),
        other => panic!("{:?}", other),
    }
    match SMTPCommand::try_from("DATA\r\n.\r\n") {
        Ok(SMTPCommand::Data { data }) => assert_eq!(data, ""),
        other => panic!("{:?}", other),
    }
    match SMTPCommand::try_from("data\r\n\r\n.\r\n") {
        Ok(SMTPCommand::Data { data }) => assert_eq!(data, ""),
        other => panic!("{:?}", other),
    }
    for input in ["DATA", "DATA\r\n", "DATA\r\nbody\r\n", "DATA\r\nbody\r\n.", "DATA\r\nbody.\r\n"] {
        assert!(
            matches!(
                SMTPCommand::try_from(input),
                Err(SMTPCommandParseError::IncompleteCommand)
            ),
            "{:?}",
            input
        );
    }
}

#[test]
fn smtp_frames() {
    let mut connection = IncomingSMTPConnection::new();
    assert!(matches!(connection.read_command("DATA\r\nbo"), SMTPReadOutcome::Incomplete));
    assert!(matches!(connection.read_command("dy\r\n."), SMTPReadOutcome::Incomplete));
    match connection.read_command("\r\n") {
        SMTPReadOutcome::Command(SMTPCommand::Data { data }) => assert_eq!(data, "body"),
        other => panic!("{:?}", other),
    }
    match connection.read_command("QUIT\r\n") {
        SMTPReadOutcome::Command(SMTPCommand::Quit) => {}
        other => panic!("{:?}", other),
    }
    // What is no command stays in the buffer
    assert!(matches!(
        connection.read_command("FROB\r\n"),
        SMTPReadOutcome::Invalid(SMTPCommandParseError::InvalidCommand)
    ));
    assert!(matches!(
        connection.read_command("QUIT\r\n"),
        SMTPReadOutcome::Invalid(SMTPCommandParseError::InvalidCommand)
    ));
    assert!(matches!(connection.read_command(""), SMTPReadOutcome::Terminated));
}

#[test]
fn smtp_error_messages() {
    assert_eq!(
        SMTPReplyParseError::InvalidResponseCode(680).message(),
        "SMTP response code \"680\" not recognized"
    );
    assert_eq!(
        SMTPReplyParseError::InvalidResponseCode(0).message(),
        "SMTP response code \"0\" not recognized"
    );
    assert_eq!(
        SMTPReplyParseError::InvalidSyntax.message(),
        "SMTP reply syntax is invalid"
    );
    assert_eq!(
        SMTPReplyParseError::InvalidSeparator('_').message(),
        "SMTP response separator '_' not valid"
    );
    assert_eq!(
        SMTPReplyParseError::InvalidMultilineResponse.message(),
        "SMTP multiline response is invalid"
    );
    assert_eq!(
        SMTPReplyParseError::IncompleteResponse.message(),
        "SMTP response is incomplete"
    );
}
