use bytes::Bytes;
use mailroom::pop3::err::POP3ResponseErr;
use mailroom::pop3::response::{contains_crlf, POP3Response, POP3ResponseStatus};

#[test]
fn response_bytes_to_pop3_response() {
    // These should parse with no problem
    assert_eq!(
        POP3Response::parse_oneline(Bytes::from("+OK\r\n")).unwrap(),
        POP3Response::positive(Bytes::from(""))
    );
    assert_eq!(
        POP3Response::parse_oneline(Bytes::from("-ERR\r\n")).unwrap(),
        POP3Response::negative(Bytes::from(""))
    );
    assert_eq!(
        POP3Response::parse_oneline(Bytes::from("+OK Hello, world!\r\n")).unwrap(),
        POP3Response::positive(Bytes::from("Hello, world!"))
    );
    assert_eq!(
        POP3Response::parse_multiline(Bytes::from(
            "+OK This\r\nis\r\na\r\nmulti.line\r\n.f\r\nmessage\r\n.\r\n"
        ))
        .unwrap(),
        POP3Response::positive(Bytes::from(
            "This\r\nis\r\na\r\nmulti.line\r\n.f\r\nmessage"
        ))
    );

    // These will not parse for syntactical reasons
    assert_eq!(
        POP3Response::parse_oneline(Bytes::from("+ok\r\n"))
            .err()
            .unwrap(),
        POP3ResponseErr::InvalidSyntax
    );
    assert_eq!(
        POP3Response::parse_oneline(Bytes::from("-eRr\r\n"))
            .err()
            .unwrap(),
        POP3ResponseErr::InvalidSyntax
    );
    assert_eq!(
        POP3Response::parse_oneline(Bytes::from("+OKHello, World\r\n"))
            .err()
            .unwrap(),
        POP3ResponseErr::InvalidSyntax
    );

    // This will not parse because it excludes the termination sequence "CRLF.CRLF"
    assert_eq!(
        POP3Response::parse_multiline(Bytes::from("+OK 2 messages\r\n1 200\r\n 2 200"))
            .err()
            .unwrap(),
        POP3ResponseErr::IncompleteResponse
    );
}

#[test]
fn pop3_response_to_bytes() {
    assert_eq!(
        Bytes::from(POP3Response::positive(Bytes::from("this is a test"))),
        Bytes::from("+OK this is a test\r\n")
    );
    assert_eq!(
        Bytes::from(POP3Response::negative(Bytes::from(
            "this is a\r\nmultiline test"
        ))),
        Bytes::from("-ERR this is a\r\nmultiline test\r\n.\r\n")
    );
}

#[test]
fn multiline_encode() {
    assert_eq!(
        Bytes::from(POP3Response::positive(Bytes::from("This\r\nis\r\nmulti"))),
        Bytes::from("+OK This\r\nis\r\nmulti\r\n.\r\n")
    );
}

#[test]
fn encode_without_message() {
    assert_eq!(
        Bytes::from(POP3Response::positive(Bytes::from(""))),
        Bytes::from("+OK\r\n")
    );
    assert_eq!(
        Bytes::from(POP3Response::negative(Bytes::from(""))),
        Bytes::from("-ERR\r\n")
    );
    assert_eq!(
        Bytes::from(POP3Response::new(
            POP3ResponseStatus::Negative,
            Bytes::from("\r\n")
        )),
        Bytes::from("-ERR \r\n\r\n.\r\n")
    );
}

#[test]
fn decode_undoes_encode() {
    let messages: [&'static [u8]; 9] = [
        b"",
        b"x",
        b" ",
        b"\r",
        b"\n\r",
        b"\r\n",
        b"+OK",
        b"a\r\n.\r\nb",
        b"\r\n.",
    ];
    for message in messages {
        for positive in [true, false] {
            let make = || {
                if positive {
                    POP3Response::positive(Bytes::from(message))
                } else {
                    POP3Response::negative(Bytes::from(message))
                }
            };
            let wire = Bytes::from(make());
            assert_eq!(POP3Response::try_from(wire.clone()), Ok(make()));
            if contains_crlf(&Bytes::from(message)) {
                assert_eq!(POP3Response::parse_multiline(wire), Ok(make()));
            } else {
                assert_eq!(POP3Response::parse_oneline(wire.clone()), Ok(make()));
                assert_eq!(
                    POP3Response::parse_multiline(wire),
                    Err(POP3ResponseErr::IncompleteResponse)
                );
            }
        }
    }
}

#[test]
fn decode_errors() {
    assert_eq!(
        POP3Response::parse_oneline(Bytes::from("+OK")),
        Err(POP3ResponseErr::IncompleteResponse)
    );
    assert_eq!(
        POP3Response::parse_oneline(Bytes::from("")),
        Err(POP3ResponseErr::IncompleteResponse)
    );
    assert_eq!(
        POP3Response::parse_oneline(Bytes::from("\r\n")),
        Err(POP3ResponseErr::InvalidSyntax)
    );
    assert_eq!(
        POP3Response::parse_oneline(Bytes::from("-ER\r\n")),
        Err(POP3ResponseErr::InvalidSyntax)
    );
    assert_eq!(
        POP3Response::parse_oneline(Bytes::from("-ERRor\r\n")),
        Err(POP3ResponseErr::InvalidSyntax)
    );
    assert_eq!(
        POP3Response::parse_multiline(Bytes::from("+ok\r\n.\r\n")),
        Err(POP3ResponseErr::InvalidSyntax)
    );
    assert_eq!(
        POP3Response::try_from(Bytes::from("+OK 2 messages\r\n1 200\r\n 2 200")),
        Err(POP3ResponseErr::IncompleteResponse)
    );
    assert_eq!(
        POP3Response::parse_oneline(Bytes::from("+OK  two spaces\r\n")),
        Ok(POP3Response::positive(Bytes::from(" two spaces")))
    );
}

#[test]
fn crlf_detection() {
    assert!(!contains_crlf(&Bytes::from("")));
    assert!(!contains_crlf(&Bytes::from("\r")));
    assert!(!contains_crlf(&Bytes::from("\n\r")));
    assert!(!contains_crlf(&Bytes::from("\r \n")));
    assert!(contains_crlf(&Bytes::from("\r\n")));
    assert!(contains_crlf(&Bytes::from("ab\r\n")));
    assert!(contains_crlf(&Bytes::from("\r\r\nab")));
}

#[test]
fn response_error_messages() {
    assert_eq!(
        POP3ResponseErr::InvalidSyntax.message(),
        "POP3 server response is invalid"
    );
    assert_eq!(
        POP3ResponseErr::IncompleteResponse.message(),
        "POP3 server multiline response is incomplete"
    );
}
