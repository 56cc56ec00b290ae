use mailroom::smtp::err::SMTPReplyParseError;
use mailroom::smtp::reply::{parse_smtp_reply, parse_u16, SMTPReply, SMTPReplyCode};

#[test]
fn u16_to_smtp_reply_code() {
    let tests: Vec<(u16, Result<SMTPReplyCode, SMTPReplyParseError>)> = vec![
        (200, Ok(SMTPReplyCode::TwoHundredCode(0))),
        (300, Ok(SMTPReplyCode::ThreeHundredCode(0))),
        (400, Ok(SMTPReplyCode::FourHundredCode(0))),
        (500, Ok(SMTPReplyCode::FiveHundredCode(0))),
        (220, Ok(SMTPReplyCode::TwoHundredCode(20))),
        (354, Ok(SMTPReplyCode::ThreeHundredCode(54))),
        (504, Ok(SMTPReplyCode::FiveHundredCode(4))),
        (4, Err(SMTPReplyParseError::InvalidResponseCode(4))),
        (0, Err(SMTPReplyParseError::InvalidResponseCode(0))),
        (31, Err(SMTPReplyParseError::InvalidResponseCode(31))),
        (123, Err(SMTPReplyParseError::InvalidResponseCode(123))),
        (680, Err(SMTPReplyParseError::InvalidResponseCode(680))),
    ];

    for test in tests {
        assert_eq!(test.0.try_into(), test.1);
    }
}

#[test]
fn str_to_smtp_reply_code() {
    assert_eq!(
        SMTPReplyCode::try_from("220"),
        Ok(SMTPReplyCode::TwoHundredCode(20))
    );
    assert_eq!(
        SMTPReplyCode::try_from("599"),
        Ok(SMTPReplyCode::FiveHundredCode(99))
    );
    assert_eq!(
        SMTPReplyCode::try_from("+354"),
        Ok(SMTPReplyCode::ThreeHundredCode(54))
    );
    assert_eq!(
        SMTPReplyCode::try_from("0000421"),
        Ok(SMTPReplyCode::FourHundredCode(21))
    );
    assert_eq!(
        SMTPReplyCode::try_from("123"),
        Err(SMTPReplyParseError::InvalidResponseCode(123))
    );
    assert_eq!(
        SMTPReplyCode::try_from("65535"),
        Err(SMTPReplyParseError::InvalidResponseCode(65535))
    );
    for text in ["", "+", "-220", "22o", " 220", "220 ", "65536", "2_0"] {
        assert_eq!(
            SMTPReplyCode::try_from(text),
            Err(SMTPReplyParseError::InvalidSyntax),
            "{:?}",
            text
        );
    }
}

#[test]
fn u16_parse_agrees_with_std() {
    for text in ["0", "7", "+7", "007", "65535", "65536", "99999", "", "+", "-1", "1a", "++1"] {
        assert_eq!(parse_u16(text.as_bytes()), text.parse::<u16>().ok(), "{:?}", text);
    }
}

#[test]
fn single_line_reply() {
    let reply = parse_smtp_reply("250 OK").unwrap();
    assert_eq!(reply.code(), SMTPReplyCode::TwoHundredCode(50));
    assert_eq!(reply.text(), "OK\r\n");

    let reply = SMTPReply::try_from("354").unwrap();
    assert_eq!(reply.code(), SMTPReplyCode::ThreeHundredCode(54));
    assert_eq!(reply.text(), "");

    let reply = parse_smtp_reply("221 ").unwrap();
    assert_eq!(reply.text(), "\r\n");
}

#[test]
fn multi_line_reply() {
    let reply =
        parse_smtp_reply("250-mail.example.org greets you\r\n250-SIZE 1000\r\n250 HELP").unwrap();
    assert_eq!(reply.code(), SMTPReplyCode::TwoHundredCode(50));
    assert_eq!(
        reply.text(),
        "mail.example.org greets you\r\nSIZE 1000\r\nHELP\r\n"
    );

    let reply = parse_smtp_reply("250-Gr\u{fc}\u{df}e\r\n250 \u{2028}").unwrap();
    assert_eq!(reply.text(), "Gr\u{fc}\u{df}e\r\n\u{2028}\r\n");
}

#[test]
fn reply_errors() {
    let error = |text: &str| parse_smtp_reply(text).err().unwrap();
    assert_eq!(error(""), SMTPReplyParseError::InvalidSyntax);
    assert_eq!(error("25"), SMTPReplyParseError::InvalidSyntax);
    assert_eq!(error("2x0 OK"), SMTPReplyParseError::InvalidSyntax);
    assert_eq!(error("\u{e9}0 OK"), SMTPReplyParseError::InvalidSyntax);
    assert_eq!(error("199 OK"), SMTPReplyParseError::InvalidResponseCode(199));
    assert_eq!(error("+25 OK"), SMTPReplyParseError::InvalidResponseCode(25));
    assert_eq!(error("250_OK"), SMTPReplyParseError::InvalidSeparator('_'));
    assert_eq!(
        error("250\u{e9}"),
        SMTPReplyParseError::InvalidSeparator('\u{c3}')
    );
    assert_eq!(error("250-first"), SMTPReplyParseError::IncompleteResponse);
    assert_eq!(
        error("250-first\r\n250-second"),
        SMTPReplyParseError::IncompleteResponse
    );
    assert_eq!(
        error("250-first\r\n251 second"),
        SMTPReplyParseError::InvalidMultilineResponse
    );
    // A line after the last line of the reply, an empty one too
    assert_eq!(
        error("250 OK\r\n"),
        SMTPReplyParseError::InvalidMultilineResponse
    );
    assert_eq!(
        error("250 first\r\n250 second"),
        SMTPReplyParseError::InvalidMultilineResponse
    );
    assert_eq!(error("250-first\r\n"), SMTPReplyParseError::InvalidSyntax);
}
