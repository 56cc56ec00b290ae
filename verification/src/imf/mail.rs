//! Messages and their header fields.

use crate::buffer::{same_text, text_of, utf8_text};
use crate::pop3::command::{CR, LF};
use crate::pop3::response::crlf_at;
use crate::imf::err::MailParseError;
use crate::text::{
    find_line_end, lemma_line_end, lemma_text_is_utf8, line_end, starts_with_white_space, trim,
    trimmed, white_space_at,
};
use vstd::prelude::*;
use vstd::slice::slice_subrange;
use vstd::string::StringSliceAdditionalSpecFns;
use vstd::std_specs::convert::TryFromSpecImpl;
use vstd::utf8::{decode_utf8, encode_utf8, valid_utf8};

verus! {

/// The fields gathered so far, with `line` taken in: a new field where the
/// line starts without white space, more of the last field where it starts
/// with some.
pub open spec fn with_line(fields: Seq<Seq<u8>>, line: Seq<u8>) -> Seq<Seq<u8>>
    recommends
        fields.len() > 0 || !starts_with_white_space(line),
{
    if starts_with_white_space(line) {
        fields.update(fields.len() - 1, fields.last() + line)
    } else {
        fields.push(line)
    }
}

/// What the lines of `bytes` from index `start` on unfold to, where
/// `fields` are the fields gathered from the lines before.
pub open spec fn unfold_from(bytes: Seq<u8>, start: int, fields: Seq<Seq<u8>>) -> Result<
    Seq<Seq<u8>>,
    MailParseError,
>
    decreases bytes.len() - start,
{
    if start < 0 || start > bytes.len() {
        Err(MailParseError)
    } else {
        proof {
            lemma_line_end(bytes, start);
        }
        let end = line_end(bytes, start);
        let line = bytes.subrange(start, end);
        if fields.len() == 0 && starts_with_white_space(line) {
            Err(MailParseError)
        } else if end >= bytes.len() {
            Ok(with_line(fields, line))
        } else {
            unfold_from(bytes, end + 2, with_line(fields, line))
        }
    }
}

/// The header fields that the lines of `bytes` hold, in order. A line that
/// starts with white space continues the field before it, and is joined to
/// it as it stands, without the line break; such a line at the very start
/// has no field to continue, which is an error.
pub open spec fn unfolded(bytes: Seq<u8>) -> Result<Seq<Seq<u8>>, MailParseError> {
    unfold_from(bytes, 0, Seq::empty())
}

/// The bytes of each text of `fields`.
pub open spec fn field_bytes(fields: Seq<String>) -> Seq<Seq<u8>> {
    fields.map_values(|s: String| encode_utf8(s@))
}

/// The text that well-formed UTF-8 spells.
fn to_text(bytes: &Vec<u8>) -> (text: String)
    requires
        valid_utf8(bytes@),
    ensures
        encode_utf8(text@) == bytes@,
{
    match utf8_text(bytes.as_slice()) {
        Some(text) => text.to_owned(),
        None => String::new(),
    }
}

/// "Unfold" long header fields as described in RFC 5322 section 2.2.3
pub fn unfold(headers: &str) -> (r: Result<Vec<String>, MailParseError>)
    ensures
        match unfolded(headers.spec_bytes()) {
            Ok(fields) => r matches Ok(out) && field_bytes(out@) == fields,
            Err(e) => r == Err::<Vec<String>, MailParseError>(e),
        },
{
    broadcast use vstd::utf8::encode_utf8_valid_utf8, vstd::utf8::valid_utf8_concat;

    let raw = headers.as_bytes();
    let mut out: Vec<String> = Vec::new();
    // The field that the lines read last belong to, if any was begun
    let mut current: Vec<u8> = Vec::new();
    let mut begun = false;
    let mut start: usize = 0;
    assert(valid_utf8(current@)) by {
        reveal_with_fuel(valid_utf8, 1);
    }
    assert(field_bytes(out@) =~= Seq::<Seq<u8>>::empty());
    loop
        invariant
            raw@ == headers.spec_bytes(),
            valid_utf8(raw@),
            valid_utf8(current@),
            start <= raw.len(),
            start > 0 ==> raw@[start - 1] < 0x80,
            !begun ==> out@.len() == 0,
            unfolded(raw@) == unfold_from(
                raw@,
                start as int,
                if begun {
                    field_bytes(out@).push(current@)
                } else {
                    Seq::<Seq<u8>>::empty()
                },
            ),
        decreases raw.len() - start,
    {
        let end = find_line_end(raw, start);
        let ghost line = raw@.subrange(start as int, end as int);
        let ghost fields = if begun {
            field_bytes(out@).push(current@)
        } else {
            Seq::<Seq<u8>>::empty()
        };
        proof {
            lemma_text_is_utf8(raw@, start as int, end as int);
            assert(valid_utf8(line));
        }
        if white_space_at(raw, start, end) > 0 {
            if !begun {
                return Err(MailParseError);
            }
            let ghost before = current@;
            proof {
                vstd::utf8::valid_utf8_concat(before, line);
            }
            current.extend_from_slice(slice_subrange(raw, start, end));
            assert(current@ =~= before + line);
            assert(field_bytes(out@).push(current@) =~= with_line(fields, line));
        } else {
            // No leading whitespace was trimmed, therefore this is a new header
            if begun {
                let ghost before = field_bytes(out@);
                out.push(to_text(&current));
                assert(field_bytes(out@) =~= before.push(current@));
            }
            current = Vec::new();
            current.extend_from_slice(slice_subrange(raw, start, end));
            begun = true;
            assert(current@ =~= line);
            assert(field_bytes(out@).push(current@) =~= with_line(fields, line));
        }
        if end >= raw.len() {
            let ghost before = field_bytes(out@);
            out.push(to_text(&current));
            assert(field_bytes(out@) =~= before.push(current@));
            return Ok(out);
        }
        start = end + 2;
    }
}

// ---------------------------------------------------------------------------
// Messages
// ---------------------------------------------------------------------------

/// The colon between the name and the body of a header field.
pub const COLON: u8 = 58;

/// Represents an email message.
///
/// The header fields are kept in the order in which they were given; where
/// a name stands more than once, the field given last counts.
#[derive(PartialEq, Debug)]
pub struct Mail {
    headers: Vec<(String, String)>,
    content: String,
}

/// A message as what it says: the body of each header field under the
/// name of the field, and the content.
pub struct MailView {
    pub headers: Map<Seq<char>, Seq<char>>,
    pub content: Seq<char>,
}

/// The header fields that the first `upto` pairs of names and bodies give:
/// each pair under its name, a later one in place of an earlier one of the
/// same name.
pub open spec fn fields_of(pairs: Seq<(Seq<char>, Seq<char>)>, upto: int) -> Map<
    Seq<char>,
    Seq<char>,
>
    decreases upto,
{
    if upto <= 0 {
        Map::empty()
    } else {
        fields_of(pairs, upto - 1).insert(pairs[upto - 1].0, pairs[upto - 1].1)
    }
}

/// The text of each name and body of `pairs`.
pub open spec fn pair_views(pairs: Seq<(String, String)>) -> Seq<(Seq<char>, Seq<char>)> {
    pairs.map_values(|p: (String, String)| (p.0@, p.1@))
}

impl View for Mail {
    type V = MailView;

    closed spec fn view(&self) -> MailView {
        MailView {
            headers: fields_of(pair_views(self.headers@), self.headers@.len() as int),
            content: self.content@,
        }
    }
}

impl Mail {
    pub fn new(headers: Vec<(String, String)>, content: String) -> (mail: Self)
        ensures
            mail@.headers == fields_of(pair_views(headers@), headers@.len() as int),
            mail@.content == content@,
    {
        Self { headers, content }
    }

    pub fn content(&self) -> (content: String)
        ensures
            content@ == self@.content,
    {
        self.content.clone()
    }

    /// Return the length of the message in octets.
    pub fn content_len(&self) -> (len: usize)
        ensures
            len == encode_utf8(self@.content).len() as usize,
    {
        self.content.as_str().len()
    }

    /// The body of the header field of the given name, if there is one.
    pub fn header(&self, name: &str) -> (body: Option<&str>)
        ensures
            body is Some <==> self@.headers.contains_key(name@),
            body matches Some(text) ==> text@ == self@.headers[name@],
    {
        let mut i: usize = self.headers.len();
        let ghost pairs = pair_views(self.headers@);
        while i > 0
            invariant
                i <= self.headers.len(),
                pairs == pair_views(self.headers@),
                fields_of(pairs, self.headers@.len() as int).contains_key(name@) <==> fields_of(
                    pairs,
                    i as int,
                ).contains_key(name@),
                fields_of(pairs, i as int).contains_key(name@) ==> fields_of(
                    pairs,
                    self.headers@.len() as int,
                )[name@] == fields_of(pairs, i as int)[name@],
            decreases i,
        {
            i -= 1;
            assert(pairs[i as int] == (self.headers@[i as int].0@, self.headers@[i as int].1@));
            if same_text(self.headers[i].0.as_str(), name) {
                return Some(self.headers[i].1.as_str());
            }
        }
        None
    }
}

/// The index of the first empty line at or behind `from`: of a line break
/// that another one follows at once. Nothing where there is none.
pub open spec fn header_end(s: Seq<u8>, from: int) -> Option<int>
    decreases s.len() - from,
{
    if from < 0 || from + 4 > s.len() {
        None
    } else if crlf_at(s, from) && crlf_at(s, from + 2) {
        Some(from)
    } else {
        header_end(s, from + 1)
    }
}

/// The index of the first colon at or behind `from`, if there is one.
pub open spec fn colon_at(s: Seq<u8>, from: int) -> Option<int>
    decreases s.len() - from,
{
    if from < 0 || from >= s.len() {
        None
    } else if s[from] == COLON {
        Some(from)
    } else {
        colon_at(s, from + 1)
    }
}

/// The name and the body of a header field: what stands before its first
/// colon and what stands behind it, each without the white space around
/// it. A field without a colon is none, and so is one whose name or body is
/// not UTF-8.
pub open spec fn header_of(field: Seq<u8>) -> Option<(Seq<char>, Seq<char>)> {
    match colon_at(field, 0) {
        Some(i) => {
            let name = trimmed(field.take(i));
            let body = trimmed(field.skip(i + 1));
            if valid_utf8(name) && valid_utf8(body) {
                Some((decode_utf8(name), decode_utf8(body)))
            } else {
                None
            }
        },
        None => None,
    }
}

/// The names and bodies of the first `upto` fields, if each of them is a
/// header field.
pub open spec fn headers_of(fields: Seq<Seq<u8>>, upto: int) -> Option<Seq<(Seq<char>, Seq<char>)>>
    decreases upto,
{
    if upto <= 0 {
        Some(Seq::empty())
    } else {
        match (headers_of(fields, upto - 1), header_of(fields[upto - 1])) {
            (Some(before), Some(pair)) => Some(before.push(pair)),
            _ => None,
        }
    }
}

/// The part of a message that holds its header fields: what stands before
/// the first empty line, or all of it, without the white space around it,
/// where no line is empty.
pub open spec fn header_part(bytes: Seq<u8>) -> Seq<u8> {
    match header_end(bytes, 0) {
        Some(i) => bytes.take(i),
        None => trimmed(bytes),
    }
}

/// The content of a message: what stands behind the first empty line.
pub open spec fn content_part(bytes: Seq<u8>) -> Seq<u8> {
    match header_end(bytes, 0) {
        Some(i) => bytes.skip(i + 4),
        None => Seq::empty(),
    }
}

/// What the bytes of a message parse to.
///
/// The header part is unfolded, and each field of it is cut at its first
/// colon. It is an error where the header part or the content is not UTF-8,
/// where the header part does not unfold, and where one of its fields is
/// no header field.
pub open spec fn parse_mail(bytes: Seq<u8>) -> Result<MailView, MailParseError> {
    if !valid_utf8(header_part(bytes)) || !valid_utf8(content_part(bytes)) {
        Err(MailParseError)
    } else {
        match unfolded(header_part(bytes)) {
            Ok(fields) => match headers_of(fields, fields.len() as int) {
                Some(pairs) => Ok(
                    MailView {
                        headers: fields_of(pairs, pairs.len() as int),
                        content: decode_utf8(content_part(bytes)),
                    },
                ),
                None => Err(MailParseError),
            },
            Err(e) => Err(e),
        }
    }
}

/// Find the first empty line.
fn find_header_end(raw: &[u8]) -> (found: Option<usize>)
    ensures
        found is Some <==> header_end(raw@, 0) is Some,
        found matches Some(i) ==> header_end(raw@, 0) == Some(i as int) && i + 4 <= raw.len(),
{
    let mut i: usize = 0;
    while i < raw.len() && raw.len() - i >= 4
        invariant
            i <= raw.len(),
            header_end(raw@, 0) == header_end(raw@, i as int),
        decreases raw.len() - i,
    {
        if raw[i] == CR && raw[i + 1] == LF && raw[i + 2] == CR && raw[i + 3] == LF {
            assert(crlf_at(raw@, i as int) && crlf_at(raw@, i + 2));
            return Some(i);
        }
        assert(!(crlf_at(raw@, i as int) && crlf_at(raw@, i + 2)));
        i += 1;
    }
    assert(header_end(raw@, i as int) is None);
    None
}

/// Find the first colon.
fn find_colon(raw: &[u8]) -> (found: Option<usize>)
    ensures
        found is Some <==> colon_at(raw@, 0) is Some,
        found matches Some(i) ==> colon_at(raw@, 0) == Some(i as int) && i < raw.len(),
{
    let mut i: usize = 0;
    while i < raw.len()
        invariant
            i <= raw.len(),
            colon_at(raw@, 0) == colon_at(raw@, i as int),
        decreases raw.len() - i,
    {
        if raw[i] == COLON {
            assert(colon_at(raw@, i as int) == Some(i as int));
            return Some(i);
        }
        i += 1;
    }
    assert(colon_at(raw@, i as int) is None);
    None
}

/// Cut a header field into its name and its body.
fn read_header(field: &str) -> (pair: Option<(String, String)>)
    ensures
        match header_of(field.spec_bytes()) {
            Some(expected) => pair matches Some(p) && (p.0@, p.1@) == expected,
            None => pair is None,
        },
{
    let raw = field.as_bytes();
    let colon = match find_colon(raw) {
        Some(i) => i,
        None => {
            return None;
        },
    };
    let before = slice_subrange(raw, 0, colon);
    let behind = slice_subrange(raw, colon + 1, raw.len());
    assert(before@ =~= raw@.take(colon as int));
    assert(behind@ =~= raw@.skip(colon + 1));
    let name = match text_of(trim(before)) {
        Some(name) => name,
        None => {
            return None;
        },
    };
    match text_of(trim(behind)) {
        Some(body) => Some((name, body)),
        None => None,
    }
}

impl TryFrom<String> for Mail {
    type Error = MailParseError;

    /// Convert a `String` into `Mail`. The result is the one that
    /// [`parse_mail`] gives for the bytes of the text.
    fn try_from(string: String) -> (r: Result<Self, MailParseError>)
        ensures
            match parse_mail(encode_utf8(string@)) {
                Ok(mail) => r matches Ok(parsed) && parsed@ == mail,
                Err(e) => r == Err::<Mail, MailParseError>(e),
            },
    {
        broadcast use vstd::utf8::encode_utf8_decode_utf8;

        let raw = string.as_str().as_bytes();
        // Split the headers and content
        let (head, rest) = match find_header_end(raw) {
            Some(i) => {
                let head = slice_subrange(raw, 0, i);
                let rest = slice_subrange(raw, i + 4, raw.len());
                assert(head@ =~= raw@.take(i as int));
                assert(rest@ =~= raw@.skip(i + 4));
                (head, rest)
            },
            None => (trim(raw), slice_subrange(raw, 0, 0)),
        };
        assert(head@ == header_part(raw@));
        assert(rest@ =~= content_part(raw@));
        let header_str = match utf8_text(head) {
            Some(text) => text,
            None => {
                return Err(MailParseError);
            },
        };
        let content = match text_of(rest) {
            Some(text) => text,
            None => {
                return Err(MailParseError);
            },
        };
        let header_vec = match unfold(header_str) {
            Ok(fields) => fields,
            Err(e) => {
                return Err(e);
            },
        };
        let ghost fields = field_bytes(header_vec@);
        let mut headers: Vec<(String, String)> = Vec::new();
        let mut i: usize = 0;
        assert(pair_views(headers@) =~= Seq::<(Seq<char>, Seq<char>)>::empty());
        while i < header_vec.len()
            invariant
                i <= header_vec.len(),
                fields == field_bytes(header_vec@),
                raw@ == encode_utf8(string@),
                valid_utf8(header_part(raw@)),
                valid_utf8(content_part(raw@)),
                unfolded(header_part(raw@)) == Ok::<Seq<Seq<u8>>, MailParseError>(fields),
                headers_of(fields, i as int) == Some(pair_views(headers@)),
            decreases header_vec.len() - i,
        {
            assert(fields[i as int] == encode_utf8(header_vec@[i as int]@));
            match read_header(header_vec[i].as_str()) {
                Some(pair) => {
                    let ghost before = pair_views(headers@);
                    let ghost view = (pair.0@, pair.1@);
                    headers.push(pair);
                    assert(pair_views(headers@) =~= before.push(view));
                },
                None => {
                    proof {
                        lemma_headers_fail(fields, i as int + 1, fields.len() as int);
                    }
                    return Err(MailParseError);
                },
            }
            i += 1;
        }
        Ok(Mail::new(headers, content))
    }
}

/// Once the fields up to some place are no header fields, more of them
/// are none either.
proof fn lemma_headers_fail(fields: Seq<Seq<u8>>, upto: int, more: int)
    requires
        0 <= upto <= more,
        headers_of(fields, upto) is None,
    ensures
        headers_of(fields, more) is None,
    decreases more - upto,
{
    if upto < more {
        lemma_headers_fail(fields, upto, more - 1);
    }
}

/// The conversion states its result on the method itself, over the bytes of
/// the text.
impl TryFromSpecImpl<String> for Mail {
    open spec fn obeys_try_from_spec() -> bool {
        false
    }

    open spec fn try_from_spec(string: String) -> Result<Self, MailParseError> {
        Err(MailParseError)
    }
}

} // verus!
