//! Byte buffers of the `bytes` crate, as the rest of the library sees them.
//!
//! A [`Bytes`] value is opaque to the verifier. Everything the library knows
//! about one is stated over [`bytes_seq`], the sequence of bytes it holds.

use bytes::Bytes;
use vstd::prelude::*;
use vstd::string::StringSliceAdditionalSpecFns;
use vstd::utf8::valid_utf8;

verus! {

#[verifier::external_type_specification]
#[verifier::external_body]
pub struct ExBytes(bytes::Bytes);

/// The bytes that a `Bytes` handle gives access to, first to last.
pub uninterp spec fn bytes_seq(b: Bytes) -> Seq<u8>;

/// `Bytes::len`: the number of bytes behind the handle.
pub assume_specification[ Bytes::len ](b: &Bytes) -> (n: usize)
    ensures
        n == bytes_seq(*b).len(),
;

/// `Bytes::slice` on the half-open range `begin..end`: a new handle onto
/// exactly the bytes of that range. The outside function panics unless
/// `begin <= end <= len`, which the precondition demands.
#[verifier::external_body]
pub(crate) fn slice(b: &Bytes, begin: usize, end: usize) -> (part: Bytes)
    requires
        begin <= end <= bytes_seq(*b).len(),
    ensures
        bytes_seq(part) == bytes_seq(*b).subrange(begin as int, end as int),
{
    b.slice(begin..end)
}

/// `Bytes::as_ref`: the held bytes as a slice.
#[verifier::external_body]
pub(crate) fn as_slice(b: &Bytes) -> (s: &[u8])
    ensures
        s@ == bytes_seq(*b),
{
    b.as_ref()
}

/// `Bytes::from(Vec<u8>)`: a handle that owns the bytes of the vector, in order.
#[verifier::external_body]
pub(crate) fn from_vec(v: Vec<u8>) -> (b: Bytes)
    ensures
        bytes_seq(b) == v@,
{
    Bytes::from(v)
}

/// `<Bytes as Clone>::clone`: a second handle onto the same bytes.
pub assume_specification[ <Bytes as Clone>::clone ](b: &Bytes) -> (copy: Bytes)
    ensures
        bytes_seq(copy) == bytes_seq(*b),
;

/// `Bytes::from(&'static str)`: a handle onto the UTF-8 bytes of the text.
#[verifier::external_body]
pub(crate) fn from_static_str(text: &'static str) -> (b: Bytes)
    ensures
        bytes_seq(b) == text.spec_bytes(),
{
    Bytes::from(text)
}

/// `std::str::from_utf8`: the bytes as text where they are valid UTF-8, and
/// nothing where they are not.
#[verifier::external_body]
pub(crate) fn utf8_text(bytes: &[u8]) -> (text: Option<&str>)
    ensures
        text is Some <==> valid_utf8(bytes@),
        text matches Some(s) ==> s.spec_bytes() == bytes@,
{
    std::str::from_utf8(bytes).ok()
}

/// The text that bytes spell, where they are UTF-8.
pub(crate) fn text_of(bytes: &[u8]) -> (text: Option<String>)
    ensures
        text is Some <==> valid_utf8(bytes@),
        text matches Some(t) ==> t@ == vstd::utf8::decode_utf8(bytes@),
{
    broadcast use vstd::utf8::encode_utf8_decode_utf8;

    match utf8_text(bytes) {
        Some(text) => Some(text.to_owned()),
        None => None,
    }
}

/// What `{:?}` prints for a slice that holds the bytes `b`.
pub uninterp spec fn debug_text(b: Seq<u8>) -> Seq<char>;

/// The `Debug` rendering of a byte slice, as `format!` produces it.
#[verifier::external_body]
pub(crate) fn debug_bytes(b: &[u8]) -> (text: String)
    ensures
        text@ == debug_text(b@),
{
    format!("{:?}", b)
}

/// Whether two runs of bytes are the same.
pub(crate) fn same_bytes(a: &[u8], b: &[u8]) -> (same: bool)
    ensures
        same == (a@ == b@),
{
    if a.len() != b.len() {
        return false;
    }
    let mut i: usize = 0;
    while i < a.len()
        invariant
            a.len() == b.len(),
            i <= a.len(),
            forall|j: int| 0 <= j < i ==> a@[j] == b@[j],
        decreases a.len() - i,
    {
        if a[i] != b[i] {
            return false;
        }
        i += 1;
    }
    assert(a@ =~= b@);
    true
}

/// The digits of `n` in base ten as characters, most significant first.
pub open spec fn decimal_text(n: nat) -> Seq<char>
    decreases n,
{
    if n < 10 {
        seq![((48 + n) as u8) as char]
    } else {
        decimal_text(n / 10).push(((48 + n % 10) as u8) as char)
    }
}

/// What `{}` prints for a `usize`: its digits in base ten, without a sign
/// and without leading zeros.
#[verifier::external_body]
pub(crate) fn usize_text(n: usize) -> (text: String)
    ensures
        text@ == decimal_text(n as nat),
{
    format!("{}", n)
}

/// What `{}` prints for a `char`: the character itself.
#[verifier::external_body]
pub(crate) fn char_text(c: char) -> (text: String)
    ensures
        text@ == seq![c],
{
    format!("{}", c)
}

/// Whether two texts are the same.
pub(crate) fn same_text(a: &str, b: &str) -> (same: bool)
    ensures
        same == (a@ == b@),
{
    broadcast use vstd::utf8::encode_utf8_decode_utf8;

    let same = same_bytes(a.as_bytes(), b.as_bytes());
    proof {
        if same {
            assert(vstd::utf8::decode_utf8(vstd::utf8::encode_utf8(a@)) == a@);
            assert(vstd::utf8::decode_utf8(vstd::utf8::encode_utf8(b@)) == b@);
        }
    }
    same
}

} // verus!
