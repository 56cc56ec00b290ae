//! Replies of a mail-transfer server, and the parser that reads them.

use crate::buffer::utf8_text;
use crate::pop3::command::{
    all_digits, decimal_value, is_digit, lemma_decimal_prefix, CR, LF, SPACE,
};
use crate::pop3::response::crlf;
use crate::text::{
    find_line_end, lemma_crlf_is_utf8, lemma_line_end, lemma_text_is_utf8, line_end,
};
use crate::smtp::err::SMTPReplyParseError;
use vstd::prelude::*;
use vstd::slice::slice_subrange;
use vstd::std_specs::convert::TryFromSpecImpl;
use vstd::string::StringSliceAdditionalSpecFns;
use vstd::utf8::{encode_utf8, valid_utf8};

verus! {

/// The dash that follows the code on every line of a reply but the last.
pub const DASH: u8 = 45;

/// The plus sign, which may stand before a number.
pub const PLUS: u8 = 43;

/// Represents the three digit code in SMTP replies.
/// The u16 member holds the last two digits of the code.
///
/// 2yz codes indicate positive completion (i.e. the request completed successfully)
///
/// 3yz codes indicate positive intermediate (i.e. the request is pending further information)
///
/// 4zy codes indicate transient failure (i.e. the request failed but can be reattempted)
///
/// 5zy codes indicate permanent failure (i.e. the client should not reattempt the request)
#[derive(PartialEq, Eq, Debug, Clone, Copy, Structural)]
pub enum SMTPReplyCode {
    /// Indicates positive completion (i.e. the request completed successfully)
    TwoHundredCode(u16),
    /// Indicates positive intermediate (i.e. the request is pending further information)
    ThreeHundredCode(u16),
    /// Indicates transient failure (i.e. the request failed but can be reattempted)
    FourHundredCode(u16),
    /// Indicates permanent failure (i.e. the client should not reattempt the request)
    FiveHundredCode(u16),
}

/// The reply code that a number stands for: its hundreds select the class,
/// and the rest is kept. A number below 200 or above 599 is no code.
pub open spec fn code_of(value: u16) -> Result<SMTPReplyCode, SMTPReplyParseError> {
    if 200 <= value < 300 {
        Ok(SMTPReplyCode::TwoHundredCode((value - 200) as u16))
    } else if 300 <= value < 400 {
        Ok(SMTPReplyCode::ThreeHundredCode((value - 300) as u16))
    } else if 400 <= value < 500 {
        Ok(SMTPReplyCode::FourHundredCode((value - 400) as u16))
    } else if 500 <= value < 600 {
        Ok(SMTPReplyCode::FiveHundredCode((value - 500) as u16))
    } else {
        Err(SMTPReplyParseError::InvalidResponseCode(value as usize))
    }
}

impl TryFrom<u16> for SMTPReplyCode {
    type Error = SMTPReplyParseError;

    fn try_from(value: u16) -> (r: Result<Self, SMTPReplyParseError>)
        ensures
            r == code_of(value),
    {
        match value / 100 {
            2 => Ok(SMTPReplyCode::TwoHundredCode(value - 200)),
            3 => Ok(SMTPReplyCode::ThreeHundredCode(value - 300)),
            4 => Ok(SMTPReplyCode::FourHundredCode(value - 400)),
            5 => Ok(SMTPReplyCode::FiveHundredCode(value - 500)),
            _ => Err(SMTPReplyParseError::InvalidResponseCode(value as usize)),
        }
    }
}

impl TryFromSpecImpl<u16> for SMTPReplyCode {
    open spec fn obeys_try_from_spec() -> bool {
        true
    }

    open spec fn try_from_spec(value: u16) -> Result<Self, SMTPReplyParseError> {
        code_of(value)
    }
}

/// The number that a text denotes as a `u16`: an optional plus sign, then
/// one digit or more and nothing else, with a value that fits.
pub open spec fn u16_of(s: Seq<u8>) -> Option<u16> {
    let digits = if s.len() > 0 && s[0] == PLUS {
        s.skip(1)
    } else {
        s
    };
    if digits.len() > 0 && all_digits(digits) && decimal_value(digits) <= u16::MAX {
        Some(decimal_value(digits) as u16)
    } else {
        None
    }
}

/// Read a number as `u16::from_str` does.
pub fn parse_u16(raw: &[u8]) -> (r: Option<u16>)
    ensures
        r == u16_of(raw@),
{
    let first: usize = if raw.len() > 0 && raw[0] == PLUS {
        1
    } else {
        0
    };
    if raw.len() == first {
        return None;
    }
    let ghost digits = raw@.skip(first as int);
    let mut out: u32 = 0;
    let mut i: usize = first;
    assert(digits.take(0) =~= Seq::<u8>::empty());
    assert(raw@.skip(0) =~= raw@);
    while i < raw.len()
        invariant
            digits == raw@.skip(first as int),
            digits == if raw@.len() > 0 && raw@[0] == PLUS {
                raw@.skip(1)
            } else {
                raw@
            },
            first <= i <= raw.len(),
            first < raw.len(),
            all_digits(digits.take(i - first)),
            out == decimal_value(digits.take(i - first)),
            out <= u16::MAX,
        decreases raw.len() - i,
    {
        let c = raw[i];
        if c < 48 || c > 57 {
            assert(!is_digit(digits[i - first]));
            return None;
        }
        proof {
            let next = digits.take(i - first + 1);
            assert(next.drop_last() =~= digits.take(i - first));
            assert(next.last() == c);
            assert(decimal_value(next) == 10 * out + (c - 48));
            lemma_decimal_prefix(digits, i - first + 1);
            assert forall|j: int| 0 <= j < next.len() implies is_digit(#[trigger] next[j]) by {
                if j < i - first {
                    assert(next[j] == digits.take(i - first)[j]);
                }
            }
        }
        out = out * 10 + (c - 48) as u32;
        if out > 65535 {
            assert(decimal_value(digits) > u16::MAX);
            return None;
        }
        i += 1;
    }
    assert(digits.take(i - first) =~= digits);
    Some(out as u16)
}

impl<'a> TryFrom<&'a str> for SMTPReplyCode {
    type Error = SMTPReplyParseError;

    /// The code that a text denotes: it must read as a `u16`, which must
    /// be a code.
    fn try_from(value: &'a str) -> (r: Result<Self, SMTPReplyParseError>)
        ensures
            r == match u16_of(value.spec_bytes()) {
                Some(c) => code_of(c),
                None => Err(SMTPReplyParseError::InvalidSyntax),
            },
    {
        let c = match parse_u16(value.as_bytes()) {
            Some(c) => c,
            None => {
                return Err(SMTPReplyParseError::InvalidSyntax);
            },
        };
        Self::try_from(c)
    }
}

/// The conversion states its result on the method itself, over the bytes of
/// the text.
impl<'a> TryFromSpecImpl<&'a str> for SMTPReplyCode {
    open spec fn obeys_try_from_spec() -> bool {
        false
    }

    open spec fn try_from_spec(value: &'a str) -> Result<Self, SMTPReplyParseError> {
        Err(SMTPReplyParseError::InvalidSyntax)
    }
}

// ---------------------------------------------------------------------------
// Replies
// ---------------------------------------------------------------------------
//
// Single line SMTP replies are in the form
// "xxx words words words"
// where "xxx" is the reply code. They can also be of the form
// "xxx"
// with nothing behind the code.
//
// Multi line SMTP replies are in the form
// "xxx-words words words\r\n
// xxx-words words words\r\n
// xxx words words words"
// with a dash between the code and the text on every line but the last.

/// Represents an SMTP reply. See Section 4.2 of RFC 5321.
#[derive(Debug)]
pub struct SMTPReply {
    /// The three digit numeric code
    code: SMTPReplyCode,
    text: String,
}

/// A reply with the bytes of its text.
pub struct ReplyView {
    pub code: SMTPReplyCode,
    pub text: Seq<u8>,
}

impl View for SMTPReply {
    type V = ReplyView;

    closed spec fn view(&self) -> ReplyView {
        ReplyView { code: self.code, text: encode_utf8(self.text@) }
    }
}

impl SMTPReply {
    /// The three digit numeric code
    pub fn code(&self) -> (code: SMTPReplyCode)
        ensures
            code == self@.code,
    {
        self.code
    }

    /// The text of the reply: the text of each of its lines, each followed
    /// by a line break.
    pub fn text(&self) -> (text: &str)
        ensures
            text.spec_bytes() == self@.text,
    {
        self.text.as_str()
    }
}

/// The view of a parser's result.
pub open spec fn reply_view(r: Result<SMTPReply, SMTPReplyParseError>) -> Result<
    ReplyView,
    SMTPReplyParseError,
> {
    match r {
        Ok(reply) => Ok(reply@),
        Err(e) => Err(e),
    }
}

/// The code at the start of a line: its first three bytes, read as a
/// number. A line of fewer bytes has none.
pub open spec fn line_code(line: Seq<u8>) -> Result<SMTPReplyCode, SMTPReplyParseError> {
    if line.len() < 3 {
        Err(SMTPReplyParseError::InvalidSyntax)
    } else {
        match u16_of(line.take(3)) {
            Some(value) => code_of(value),
            None => Err(SMTPReplyParseError::InvalidSyntax),
        }
    }
}

/// What the lines of `bytes` from index `start` on parse to, where `code`
/// is the code of the lines before, if there were any, and `text` is the
/// text gathered from them.
///
/// Every line starts with the same code. A line that ends behind its code,
/// or has a space there, is the last one of the reply, and must be the last
/// one of `bytes`. A line with a dash there is followed by another. The
/// text of a line is what stands behind that fourth byte.
pub open spec fn reply_from(
    bytes: Seq<u8>,
    start: int,
    code: Option<SMTPReplyCode>,
    text: Seq<u8>,
) -> Result<ReplyView, SMTPReplyParseError>
    decreases bytes.len() - start,
{
    if start < 0 || start > bytes.len() {
        Err(SMTPReplyParseError::InvalidSyntax)
    } else {
        proof {
            lemma_line_end(bytes, start);
        }
        let end = line_end(bytes, start);
        let line = bytes.subrange(start, end);
        let last = end >= bytes.len();
        match line_code(line) {
            Err(e) => Err(e),
            Ok(this) => if code is Some && code != Some(this) {
                Err(SMTPReplyParseError::InvalidMultilineResponse)
            } else if line.len() == 3 {
                if last {
                    Ok(ReplyView { code: this, text })
                } else {
                    Err(SMTPReplyParseError::InvalidMultilineResponse)
                }
            } else if line[3] == SPACE {
                if last {
                    Ok(ReplyView { code: this, text: text + line.skip(4) + crlf() })
                } else {
                    Err(SMTPReplyParseError::InvalidMultilineResponse)
                }
            } else if line[3] == DASH {
                if last {
                    Err(SMTPReplyParseError::IncompleteResponse)
                } else {
                    reply_from(bytes, end + 2, Some(this), text + line.skip(4) + crlf())
                }
            } else {
                Err(SMTPReplyParseError::InvalidSeparator(line[3] as char))
            },
        }
    }
}

/// What the bytes of a reply parse to.
pub open spec fn parse_reply(bytes: Seq<u8>) -> Result<ReplyView, SMTPReplyParseError> {
    reply_from(bytes, 0, None, Seq::empty())
}

impl<'a> TryFrom<&'a str> for SMTPReply {
    type Error = SMTPReplyParseError;

    /// Read a reply from its text. The result is the one that
    /// [`parse_reply`] gives for the bytes of the text.
    fn try_from(s: &'a str) -> (r: Result<Self, SMTPReplyParseError>)
        ensures
            reply_view(r) == parse_reply(s.spec_bytes()),
    {
        broadcast use vstd::utf8::encode_utf8_valid_utf8, vstd::utf8::valid_utf8_concat;

        let raw = s.as_bytes();
        let mut reply_code: Option<SMTPReplyCode> = None;
        let mut reply_text: Vec<u8> = Vec::new();
        let mut start: usize = 0;
        assert(valid_utf8(raw@));
        assert(valid_utf8(reply_text@)) by {
            reveal_with_fuel(valid_utf8, 1);
        }
        loop
            invariant
                raw@ == s.spec_bytes(),
                valid_utf8(raw@),
                valid_utf8(reply_text@),
                start <= raw.len(),
                parse_reply(raw@) == reply_from(raw@, start as int, reply_code, reply_text@),
            decreases raw.len() - start,
        {
            let end = find_line_end(raw, start);
            let last = end >= raw.len();
            let ghost line = raw@.subrange(start as int, end as int);
            if end - start < 3 {
                return Err(SMTPReplyParseError::InvalidSyntax);
            }
            let digits = slice_subrange(raw, start, start + 3);
            assert(digits@ =~= line.take(3));
            let value = match parse_u16(digits) {
                Some(value) => value,
                None => {
                    return Err(SMTPReplyParseError::InvalidSyntax);
                },
            };
            let code = match SMTPReplyCode::try_from(value) {
                Ok(code) => code,
                Err(e) => {
                    return Err(e);
                },
            };
            // Make sure the reply code on this line is the same as the reply codes on previous lines
            match reply_code {
                Some(previous) => {
                    if previous != code {
                        return Err(SMTPReplyParseError::InvalidMultilineResponse);
                    }
                },
                None => {},
            }
            reply_code = Some(code);

            let separator: Option<u8> = if end - start == 3 {
                None
            } else {
                Some(raw[start + 3])
            };
            match separator {
                None => {},
                Some(byte) => {
                    assert(byte == line[3]);
                    if byte != SPACE && byte != DASH {
                        return Err(SMTPReplyParseError::InvalidSeparator(byte as char));
                    }
                    // Append the text on the current SMTP response line to the return string
                    let ghost before = reply_text@;
                    proof {
                        lemma_text_is_utf8(raw@, start + 4, end as int);
                        lemma_crlf_is_utf8();
                        assert(raw@.subrange(start + 4, end as int) =~= line.skip(4));
                        assert(valid_utf8(line.skip(4)));
                        vstd::utf8::valid_utf8_concat(before, line.skip(4));
                        vstd::utf8::valid_utf8_concat(before + line.skip(4), crlf());
                    }
                    reply_text.extend_from_slice(slice_subrange(raw, start + 4, end));
                    reply_text.push(CR);
                    reply_text.push(LF);
                    assert(reply_text@ =~= before + line.skip(4) + crlf());
                },
            }
            let closing = match separator {
                None => true,
                Some(byte) => byte == SPACE,
            };
            if closing {
                // A space between the code and the text means that this line is the last one
                if !last {
                    // If we didn't look at all the lines before finding one with a " " separator, then the response is invalid.
                    return Err(SMTPReplyParseError::InvalidMultilineResponse);
                }
                return match utf8_text(reply_text.as_slice()) {
                    Some(text) => Ok(SMTPReply { code, text: text.to_owned() }),
                    None => Err(SMTPReplyParseError::InvalidSyntax),
                };
            }
            // If this is the last line, and the separator is '-'...
            if last {
                // ... then the response is incomplete
                return Err(SMTPReplyParseError::IncompleteResponse);
            }
            start = end + 2;
        }
    }
}

/// The conversion states its result on the method itself, over the bytes of
/// the text.
impl<'a> TryFromSpecImpl<&'a str> for SMTPReply {
    open spec fn obeys_try_from_spec() -> bool {
        false
    }

    open spec fn try_from_spec(s: &'a str) -> Result<Self, SMTPReplyParseError> {
        Err(SMTPReplyParseError::InvalidSyntax)
    }
}

/// Read a reply of a mail-transfer server from its text.
pub fn parse_smtp_reply(s: &str) -> (r: Result<SMTPReply, SMTPReplyParseError>)
    ensures
        reply_view(r) == parse_reply(s.spec_bytes()),
{
    SMTPReply::try_from(s)
}

} // verus!
