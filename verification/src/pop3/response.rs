//! Server responses, their wire form, and the way back from the wire.
//!
//! A response goes out as its status indicator, a space and the message if
//! there is one, and a terminator. A message that holds a line break makes
//! the response a multi-line one, which ends in a line made of a single dot.

use crate::buffer::{as_slice, bytes_seq, from_vec, same_bytes, slice};
use crate::pop3::command::{CR, LF, SPACE};
use crate::pop3::err::POP3ResponseErr;
use bytes::Bytes;
use vstd::prelude::*;
use vstd::slice::slice_subrange;
use vstd::std_specs::convert::{FromSpecImpl, TryFromSpecImpl};
use vstd::string::StringSliceAdditionalSpecFns;

verus! {

/// The dot on the last line of a multi-line response.
pub const DOT: u8 = 46;

/// Represents the possible POP3 server status indicators
///
/// POP3 servers reply with only two response codes: "+OK" and "-ERR"
/// The "+OK" code is called the positive status indicator, and the
/// "-ERR" code is called the negative status indicator.
#[derive(PartialEq, Eq, Debug, Clone, Copy, Structural)]
pub enum POP3ResponseStatus {
    Positive,
    Negative,
}

/// Represents a POP3 server response, encapsulating the status indicator
/// and the message.
#[derive(PartialEq, Debug)]
pub struct POP3Response {
    pub status: POP3ResponseStatus,
    pub message: Bytes,
}

/// A response with the bytes of its message in place of the buffer.
pub struct ResponseView {
    pub status: POP3ResponseStatus,
    pub message: Seq<u8>,
}

impl View for POP3Response {
    type V = ResponseView;

    open spec fn view(&self) -> ResponseView {
        ResponseView { status: self.status, message: bytes_seq(self.message) }
    }
}

/// The view of a decoder's result.
pub open spec fn decoded_view(r: Result<POP3Response, POP3ResponseErr>) -> Result<
    ResponseView,
    POP3ResponseErr,
> {
    match r {
        Ok(response) => Ok(response@),
        Err(e) => Err(e),
    }
}

// ---------------------------------------------------------------------------
// The wire form
// ---------------------------------------------------------------------------

/// Whether a carriage return stands at index `i` of `s`, directly followed
/// by a line feed.
pub open spec fn crlf_at(s: Seq<u8>, i: int) -> bool {
    0 <= i && i + 1 < s.len() && s[i] == CR && s[i + 1] == LF
}

/// Whether `s` holds a CRLF pair anywhere.
pub open spec fn has_crlf(s: Seq<u8>) -> bool {
    exists|i: int| crlf_at(s, i)
}

/// The line terminator.
pub open spec fn crlf() -> Seq<u8> {
    seq![CR, LF]
}

/// The end of a multi-line response: a line that holds a dot and no more.
pub open spec fn multiline_end() -> Seq<u8> {
    seq![CR, LF, DOT, CR, LF]
}

/// The indicator that a response of the given status starts with.
pub open spec fn status_prefix(status: POP3ResponseStatus) -> Seq<u8> {
    match status {
        POP3ResponseStatus::Positive => "+OK".spec_bytes(),
        POP3ResponseStatus::Negative => "-ERR".spec_bytes(),
    }
}

/// The terminator that the message selects: the multi-line end where the
/// message holds a line break, the plain line terminator where it holds none.
pub open spec fn terminator(message: Seq<u8>) -> Seq<u8> {
    if has_crlf(message) {
        multiline_end()
    } else {
        crlf()
    }
}

/// The bytes that a response goes out as.
pub open spec fn encode(r: ResponseView) -> Seq<u8> {
    let separated = if r.message.len() > 0 {
        seq![SPACE] + r.message
    } else {
        Seq::<u8>::empty()
    };
    status_prefix(r.status) + separated + terminator(r.message)
}

/// The message that follows a status indicator: nothing, or a space and
/// then the message.
pub open spec fn decode_message(status: POP3ResponseStatus, rest: Seq<u8>) -> Result<
    ResponseView,
    POP3ResponseErr,
> {
    if rest.len() == 0 {
        Ok(ResponseView { status, message: Seq::<u8>::empty() })
    } else if rest[0] != SPACE {
        Err(POP3ResponseErr::InvalidSyntax)
    } else {
        Ok(ResponseView { status, message: rest.skip(1) })
    }
}

/// What a response without its terminator decodes to. The indicator is
/// matched byte for byte, so a lower-case letter in it is a syntax error.
pub open spec fn decode_body(body: Seq<u8>) -> Result<ResponseView, POP3ResponseErr> {
    let ok = status_prefix(POP3ResponseStatus::Positive);
    let err = status_prefix(POP3ResponseStatus::Negative);
    if ok.is_prefix_of(body) {
        decode_message(POP3ResponseStatus::Positive, body.skip(ok.len() as int))
    } else if err.is_prefix_of(body) {
        decode_message(POP3ResponseStatus::Negative, body.skip(err.len() as int))
    } else {
        Err(POP3ResponseErr::InvalidSyntax)
    }
}

/// What `bytes` decode to as a response that must end in `end`.
pub open spec fn decode_with_end(bytes: Seq<u8>, end: Seq<u8>) -> Result<
    ResponseView,
    POP3ResponseErr,
> {
    if end.is_suffix_of(bytes) {
        decode_body(bytes.take(bytes.len() - end.len()))
    } else {
        Err(POP3ResponseErr::IncompleteResponse)
    }
}

/// What `bytes` decode to as a one-line response.
pub open spec fn decode_oneline(bytes: Seq<u8>) -> Result<ResponseView, POP3ResponseErr> {
    decode_with_end(bytes, crlf())
}

/// What `bytes` decode to as a multi-line response.
pub open spec fn decode_multiline(bytes: Seq<u8>) -> Result<ResponseView, POP3ResponseErr> {
    decode_with_end(bytes, multiline_end())
}

/// What `bytes` decode to, in the form that their own end shows: multi-line
/// where they end in the multi-line end, one-line otherwise.
pub open spec fn decode(bytes: Seq<u8>) -> Result<ResponseView, POP3ResponseErr> {
    if multiline_end().is_suffix_of(bytes) {
        decode_multiline(bytes)
    } else {
        decode_oneline(bytes)
    }
}

/// The two status indicators, byte by byte.
pub proof fn lemma_status_prefix()
    ensures
        status_prefix(POP3ResponseStatus::Positive) == seq![43u8, 79u8, 75u8],
        status_prefix(POP3ResponseStatus::Negative) == seq![45u8, 69u8, 82u8, 82u8],
{
    broadcast use vstd::string::is_ascii_spec_bytes;

    reveal_strlit("+OK");
    reveal_strlit("-ERR");
    assert(vstd::string::is_ascii("+OK"));
    assert(vstd::string::is_ascii("-ERR"));
    assert("+OK".spec_bytes() =~= seq![43u8, 79u8, 75u8]);
    assert("-ERR".spec_bytes() =~= seq![45u8, 69u8, 82u8, 82u8]);
}

/// Decoding undoes encoding: whatever the status and the message of a
/// response, its wire form decodes to that same response. This holds of
/// [`decode`], and of the decoder for the form that the message selects:
/// the multi-line one where the message holds a line break, the one-line
/// one where it holds none.
pub proof fn lemma_decode_encode(r: ResponseView)
    ensures
        decode(encode(r)) == Ok::<ResponseView, POP3ResponseErr>(r),
        has_crlf(r.message) ==> decode_multiline(encode(r)) == Ok::<ResponseView, POP3ResponseErr>(
            r,
        ),
        !has_crlf(r.message) ==> decode_oneline(encode(r)) == Ok::<ResponseView, POP3ResponseErr>(
            r,
        ),
{
    lemma_status_prefix();
    let prefix = status_prefix(r.status);
    let separated = if r.message.len() > 0 {
        seq![SPACE] + r.message
    } else {
        Seq::<u8>::empty()
    };
    let end = terminator(r.message);
    let wire = encode(r);
    let body = prefix + separated;
    assert(wire == body + end);
    assert(wire.take(wire.len() - end.len()) =~= body);
    assert(wire.skip(wire.len() - end.len()) =~= end);
    assert(end.is_suffix_of(wire));
    assert(decode_body(body) == Ok::<ResponseView, POP3ResponseErr>(r)) by {
        assert(prefix.is_prefix_of(body)) by {
            assert(body.take(prefix.len() as int) =~= prefix);
        }
        assert(body.skip(prefix.len() as int) =~= separated);
        if r.status == POP3ResponseStatus::Negative {
            let ok = status_prefix(POP3ResponseStatus::Positive);
            assert(!ok.is_prefix_of(body)) by {
                if ok.is_prefix_of(body) {
                    assert(body.take(ok.len() as int)[0] == ok[0]);
                }
            }
        }
        if r.message.len() > 0 {
            assert(separated.skip(1) =~= r.message);
        } else {
            assert(r.message =~= Seq::<u8>::empty());
        }
    }
    if !has_crlf(r.message) {
        // A one-line response never ends as a multi-line one does.
        assert(!multiline_end().is_suffix_of(wire)) by {
            if multiline_end().is_suffix_of(wire) {
                let n = wire.len() as int;
                let tail = wire.skip(n - 5);
                assert(tail[0] == CR && tail[1] == LF);
                assert(wire[n - 5] == CR && wire[n - 4] == LF);
                let k = n - 5 - prefix.len() - 1;
                if k >= 0 {
                    assert(crlf_at(r.message, k));
                }
            }
        }
    }
}

// ---------------------------------------------------------------------------
// Building and encoding
// ---------------------------------------------------------------------------

/// Check if a buffer contains a CRLF sequence.
pub fn contains_crlf(bytes: &Bytes) -> (found: bool)
    ensures
        found == has_crlf(bytes_seq(*bytes)),
{
    let s = as_slice(bytes);
    if s.len() < 2 {
        return false;
    }
    let mut i: usize = 0;
    while i < s.len() - 1
        invariant
            s@ == bytes_seq(*bytes),
            2 <= s.len(),
            i <= s.len() - 1,
            forall|j: int| 0 <= j < i ==> !crlf_at(s@, j),
        decreases s.len() - i,
    {
        if s[i] == CR && s[i + 1] == LF {
            assert(crlf_at(s@, i as int));
            return true;
        }
        i += 1;
    }
    false
}

impl POP3Response {
    /// Create a new POP3Response
    pub fn new(status: POP3ResponseStatus, message: Bytes) -> (r: Self)
        ensures
            r.status == status,
            r.message == message,
    {
        Self { status, message }
    }

    /// Create a positive POP3Response
    pub fn positive(message: Bytes) -> (r: Self)
        ensures
            r.status == POP3ResponseStatus::Positive,
            r.message == message,
    {
        Self::new(POP3ResponseStatus::Positive, message)
    }

    /// Create a negative POP3Response
    pub fn negative(message: Bytes) -> (r: Self)
        ensures
            r.status == POP3ResponseStatus::Negative,
            r.message == message,
    {
        Self::new(POP3ResponseStatus::Negative, message)
    }

    /// Parse a buffer into a multi-line response: it must end in the
    /// multi-line end, which is taken off the message.
    pub fn parse_multiline(bytes: Bytes) -> (r: Result<Self, POP3ResponseErr>)
        ensures
            decoded_view(r) == decode_multiline(bytes_seq(bytes)),
    {
        let end: [u8; 5] = [CR, LF, DOT, CR, LF];
        assert(end@ =~= multiline_end());
        parse_with_end(bytes, end.as_slice())
    }

    /// Parse a buffer into a one-line response: it must end in CRLF.
    pub fn parse_oneline(bytes: Bytes) -> (r: Result<Self, POP3ResponseErr>)
        ensures
            decoded_view(r) == decode_oneline(bytes_seq(bytes)),
    {
        let end: [u8; 2] = [CR, LF];
        assert(end@ =~= crlf());
        parse_with_end(bytes, end.as_slice())
    }
}

/// Whether `raw` starts with the bytes of `head`.
fn starts_with(raw: &[u8], head: &[u8]) -> (yes: bool)
    ensures
        yes == head@.is_prefix_of(raw@),
{
    if raw.len() < head.len() {
        return false;
    }
    let same = same_bytes(slice_subrange(raw, 0, head.len()), head);
    assert(raw@.subrange(0, head.len() as int) =~= raw@.take(head.len() as int));
    same
}

/// Whether `raw` ends with the bytes of `tail`.
fn ends_with(raw: &[u8], tail: &[u8]) -> (yes: bool)
    ensures
        yes == tail@.is_suffix_of(raw@),
{
    if raw.len() < tail.len() {
        return false;
    }
    let same = same_bytes(slice_subrange(raw, raw.len() - tail.len(), raw.len()), tail);
    assert(raw@.subrange(raw.len() - tail.len(), raw.len() as int) =~= raw@.skip(
        raw.len() - tail.len(),
    ));
    same
}

/// Parse what follows the status indicator, which takes the first
/// `start` bytes of `body`.
fn parse_message(status: POP3ResponseStatus, body: &Bytes, start: usize) -> (r: Result<
    POP3Response,
    POP3ResponseErr,
>)
    requires
        start <= bytes_seq(*body).len(),
    ensures
        decoded_view(r) == decode_message(status, bytes_seq(*body).skip(start as int)),
{
    let raw = as_slice(body);
    // If there's no message, return before trying to parse it
    if raw.len() == start {
        let message = slice(body, start, start);
        assert(bytes_seq(message) =~= Seq::<u8>::empty());
        return Ok(POP3Response::new(status, message));
    }
    // Check that there is a space between the status and the message
    if raw[start] != SPACE {
        return Err(POP3ResponseErr::InvalidSyntax);
    }
    let message = slice(body, start + 1, raw.len());
    assert(bytes_seq(message) =~= bytes_seq(*body).skip(start as int).skip(1));
    Ok(POP3Response::new(status, message))
}

/// Parse a response that must end in `end`.
fn parse_with_end(bytes: Bytes, end: &[u8]) -> (r: Result<POP3Response, POP3ResponseErr>)
    ensures
        decoded_view(r) == decode_with_end(bytes_seq(bytes), end@),
{
    let raw = as_slice(&bytes);
    if !ends_with(raw, end) {
        return Err(POP3ResponseErr::IncompleteResponse);
    }
    let body = slice(&bytes, 0, raw.len() - end.len());
    assert(bytes_seq(body) =~= bytes_seq(bytes).take(raw.len() - end.len()));

    // Parse the response status
    let ok = "+OK".as_bytes();
    let err = "-ERR".as_bytes();
    if starts_with(as_slice(&body), ok) {
        parse_message(POP3ResponseStatus::Positive, &body, ok.len())
    } else if starts_with(as_slice(&body), err) {
        parse_message(POP3ResponseStatus::Negative, &body, err.len())
    } else {
        Err(POP3ResponseErr::InvalidSyntax)
    }
}

impl TryFrom<Bytes> for POP3Response {
    type Error = POP3ResponseErr;

    /// Attempt to convert a buffer to a response, in the form that its end
    /// shows: multi-line where it ends in the multi-line end, one-line
    /// otherwise.
    fn try_from(bytes: Bytes) -> (r: Result<Self, POP3ResponseErr>)
        ensures
            decoded_view(r) == decode(bytes_seq(bytes)),
    {
        let end: [u8; 5] = [CR, LF, DOT, CR, LF];
        assert(end@ =~= multiline_end());
        if ends_with(as_slice(&bytes), end.as_slice()) {
            POP3Response::parse_multiline(bytes)
        } else {
            POP3Response::parse_oneline(bytes)
        }
    }
}

/// The conversion states its result on the method itself, over the bytes of
/// the buffer; buffers are opaque, so no value of the type can be named here.
impl TryFromSpecImpl<Bytes> for POP3Response {
    open spec fn obeys_try_from_spec() -> bool {
        false
    }

    open spec fn try_from_spec(v: Bytes) -> Result<Self, POP3ResponseErr> {
        Err(POP3ResponseErr::IncompleteResponse)
    }
}

/// Convert a POP3Response to Bytes
impl From<POP3Response> for Bytes {
    /// The wire form of a response, as [`encode`] defines it.
    fn from(response: POP3Response) -> (wire: Bytes)
        ensures
            bytes_seq(wire) == encode(response@),
    {
        let mut out: Vec<u8> = Vec::new();
        match response.status {
            POP3ResponseStatus::Positive => out.extend_from_slice("+OK".as_bytes()),
            POP3ResponseStatus::Negative => out.extend_from_slice("-ERR".as_bytes()),
        };
        assert(out@ =~= status_prefix(response.status));

        // Leave the separator out if there is no message content
        if response.message.len() != 0 {
            out.push(SPACE);
            out.extend_from_slice(as_slice(&response.message));
        }
        // Check if the message is multiline...
        if contains_crlf(&response.message) {
            // ...if so, add the multiline terminator
            let end: [u8; 5] = [CR, LF, DOT, CR, LF];
            assert(end@ =~= multiline_end());
            out.extend_from_slice(end.as_slice());
        } else {
            // ...otherwise, add a CRLF pair
            let end: [u8; 2] = [CR, LF];
            assert(end@ =~= crlf());
            out.extend_from_slice(end.as_slice());
        }
        assert(out@ =~= encode(response@));
        from_vec(out)
    }
}

/// The conversion states its result on the method itself, over the bytes of
/// the buffer; buffers are opaque, so no value of the type can be named here.
impl FromSpecImpl<POP3Response> for Bytes {
    open spec fn obeys_from_spec() -> bool {
        false
    }

    open spec fn from_spec(v: POP3Response) -> Bytes {
        v.message
    }
}

} // verus!
