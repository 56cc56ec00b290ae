use mailroom::imf::err::MailParseError;
use mailroom::imf::mail::Mail;

#[test]
fn mail_parse() {
    let parsed: Mail =
        "From: John Doe <jdoe@machine.example>\r\nTo: Mary Smith <mary@example.net>\r\nSubject: Saying Hello\r\nDate: Fri, 21 Nov 1997 09:55:06 -0600\r\nMessage-ID: <1234@local.machine.example>\r\n\r\nThis is a message just to say hello.\r\nSo, \"Hello\"."
    .to_owned().try_into().unwrap();

    let mut headers: Vec<(String, String)> = Vec::new();

    let mut insert = |k: &str, v: &str| {
        headers.push((k.trim().to_owned(), v.trim().to_owned()));
    };

    insert("From", "John Doe <jdoe@machine.example>");
    insert("To", "Mary Smith <mary@example.net>");
    insert("Subject", "Saying Hello");
    insert("Date", "Fri, 21 Nov 1997 09:55:06 -0600");
    insert("Message-ID", "<1234@local.machine.example>");

    let expected = Mail::new(
        headers,
        "This is a message just to say hello.\r\nSo, \"Hello\".".to_owned(),
    );

    assert_eq!(parsed, expected);
}

#[test]
fn mail_headers() {
    let mail = Mail::try_from(
        "Subject: first\r\n  and more \r\nX-Note\u{a0}:\t a:b \u{2003}\r\nSubject:second\r\n\r\n\r\nbody\r\n\r\nend"
            .to_owned(),
    )
    .unwrap();
    // The field given last counts
    assert_eq!(mail.header("Subject"), Some("second"));
    assert_eq!(mail.header("X-Note"), Some("a:b"));
    assert_eq!(mail.header("subject"), None);
    assert_eq!(mail.header(""), None);
    assert_eq!(mail.content(), "\r\nbody\r\n\r\nend");
    assert_eq!(mail.content_len(), 13);
}

#[test]
fn mail_without_content() {
    // Without an empty line all is header, and the white space around it is dropped
    let mail = Mail::try_from(" \r\n\tA: b\r\nC:\r\n \u{3000}\r\n".to_owned()).unwrap();
    assert_eq!(mail.header("A"), Some("b"));
    assert_eq!(mail.header("C"), Some(""));
    assert_eq!(mail.content(), "");
    assert_eq!(mail.content_len(), 0);

    let mail = Mail::try_from("A: b\r\n\r\n".to_owned()).unwrap();
    assert_eq!(mail.header("A"), Some("b"));
    assert_eq!(mail.content(), "");
}

#[test]
fn mail_errors() {
    // A field without a colon
    assert_eq!(Mail::try_from("A: b\r\nno colon\r\n\r\nbody".to_owned()), Err(MailParseError));
    assert_eq!(Mail::try_from("".to_owned()), Err(MailParseError));
    // A continuation line with nothing to continue
    assert_eq!(Mail::try_from(" A: b\r\n\r\nbody".to_owned()), Err(MailParseError));
    assert_eq!(Mail::try_from("\r\n\r\nbody".to_owned()), Err(MailParseError));
}
