//! Lines of text, as bytes.
//!
//! Text arrives as UTF-8, and its lines end in CRLF. Both bytes of a line
//! break are ASCII, so a line is well-formed UTF-8 by itself.

use crate::pop3::command::{CR, LF};
use crate::pop3::response::{crlf, crlf_at};
use vstd::prelude::*;
use vstd::slice::slice_subrange;
use vstd::utf8::{is_char_boundary, length_of_first_scalar, pop_first_scalar, valid_utf8};

verus! {

/// Where the line that starts at `from` ends: at the first line break at
/// or behind `from`, or at the end of `bytes` if none follows.
pub open spec fn line_end(bytes: Seq<u8>, from: int) -> int
    decreases bytes.len() - from,
{
    if from >= bytes.len() {
        bytes.len() as int
    } else if crlf_at(bytes, from) {
        from
    } else {
        line_end(bytes, from + 1)
    }
}

/// `line_end` lies between `from` and the end, and no line break starts
/// before it.
pub proof fn lemma_line_end(bytes: Seq<u8>, from: int)
    requires
        0 <= from <= bytes.len(),
    ensures
        from <= line_end(bytes, from) <= bytes.len(),
        line_end(bytes, from) < bytes.len() ==> crlf_at(bytes, line_end(bytes, from)),
        forall|k: int| from <= k < line_end(bytes, from) ==> !crlf_at(bytes, k),
    decreases bytes.len() - from,
{
    if from < bytes.len() && !crlf_at(bytes, from) {
        lemma_line_end(bytes, from + 1);
    }
}

/// Find the end of the line that starts at `from`.
pub(crate) fn find_line_end(raw: &[u8], from: usize) -> (end: usize)
    requires
        from <= raw.len(),
    ensures
        end == line_end(raw@, from as int),
        from <= end <= raw.len(),
        end < raw.len() ==> crlf_at(raw@, end as int),
{
    let mut i: usize = from;
    proof {
        lemma_line_end(raw@, from as int);
    }
    while i < raw.len()
        invariant
            from <= i <= raw.len(),
            line_end(raw@, from as int) == line_end(raw@, i as int),
        decreases raw.len() - i,
    {
        if raw[i] == CR && i + 1 < raw.len() && raw[i + 1] == LF {
            assert(crlf_at(raw@, i as int));
            return i;
        }
        assert(!crlf_at(raw@, i as int));
        i += 1;
    }
    i
}

/// In well-formed UTF-8, the place behind an ASCII byte is the start of a
/// character, or the end.
pub proof fn lemma_boundary_after_ascii(bytes: Seq<u8>, i: int)
    requires
        valid_utf8(bytes),
        0 <= i < bytes.len(),
        bytes[i] < 0x80,
    ensures
        is_char_boundary(bytes, i + 1),
    decreases bytes.len(),
{
    let first = length_of_first_scalar(bytes);
    if i < first {
        reveal_with_fuel(is_char_boundary, 2);
    } else {
        let rest = pop_first_scalar(bytes);
        assert(rest[i - first] == bytes[i]);
        lemma_boundary_after_ascii(rest, i - first);
    }
}

/// The part of well-formed UTF-8 between the place behind an ASCII byte
/// and the place before another, or the end, is well-formed UTF-8.
pub proof fn lemma_text_is_utf8(bytes: Seq<u8>, from: int, to: int)
    requires
        valid_utf8(bytes),
        0 <= from <= to <= bytes.len(),
        from > 0 ==> bytes[from - 1] < 0x80,
        to < bytes.len() ==> bytes[to] < 0x80,
    ensures
        valid_utf8(bytes.subrange(from, to)),
{
    broadcast use
        vstd::utf8::valid_utf8_split,
        vstd::utf8::is_char_boundary_start_end_of_seq,
        vstd::utf8::is_char_boundary_iff_not_is_continuation_byte,
    ;

    if from > 0 {
        lemma_boundary_after_ascii(bytes, from - 1);
    }
    vstd::utf8::valid_utf8_split(bytes, from);
    let tail = bytes.subrange(from, bytes.len() as int);
    assert(valid_utf8(tail));
    if to < bytes.len() {
        assert(tail[to - from] == bytes[to]);
        vstd::utf8::is_char_boundary_iff_not_is_continuation_byte(tail, to - from);
    } else {
        vstd::utf8::is_char_boundary_start_end_of_seq(tail);
    }
    assert(is_char_boundary(tail, to - from));
    vstd::utf8::valid_utf8_split(tail, to - from);
    assert(tail.subrange(0, to - from) =~= bytes.subrange(from, to));
}

/// A line break is well-formed UTF-8.
pub proof fn lemma_crlf_is_utf8()
    ensures
        valid_utf8(crlf()),
{
    reveal_with_fuel(valid_utf8, 3);
    let s = crlf();
    assert(pop_first_scalar(s) =~= seq![LF]);
    assert(pop_first_scalar(seq![LF]) =~= Seq::<u8>::empty());
}

/// The number of bytes that the white space at the start of `s` takes, and
/// zero where `s` starts with none. White space is a character with the
/// Unicode property `White_Space`, in UTF-8: U+0009 to U+000D and U+0020 in
/// one byte, U+0085 and U+00A0 in two, U+1680, U+2000 to U+200A, U+2028,
/// U+2029, U+202F, U+205F and U+3000 in three.
pub open spec fn white_space_width(s: Seq<u8>) -> int {
    if s.len() >= 1 && (9 <= s[0] <= 13 || s[0] == 0x20) {
        1
    } else if s.len() >= 2 && s[0] == 0xc2 && (s[1] == 0x85 || s[1] == 0xa0) {
        2
    } else if s.len() >= 3 && s[0] == 0xe1 && s[1] == 0x9a && s[2] == 0x80 {
        3
    } else if s.len() >= 3 && s[0] == 0xe2 && s[1] == 0x80 && (0x80 <= s[2] <= 0x8a || s[2] == 0xa8
        || s[2] == 0xa9 || s[2] == 0xaf) {
        3
    } else if s.len() >= 3 && s[0] == 0xe2 && s[1] == 0x81 && s[2] == 0x9f {
        3
    } else if s.len() >= 3 && s[0] == 0xe3 && s[1] == 0x80 && s[2] == 0x80 {
        3
    } else {
        0
    }
}

/// Whether `s` starts with white space.
pub open spec fn starts_with_white_space(s: Seq<u8>) -> bool {
    white_space_width(s) > 0
}

/// The width of the white space that stands at index `at` of the bytes
/// before `end`.
pub(crate) fn white_space_at(raw: &[u8], at: usize, end: usize) -> (width: usize)
    requires
        at <= end <= raw.len(),
    ensures
        width == white_space_width(raw@.subrange(at as int, end as int)),
        width <= 3,
        at + width <= end,
{
    let n = end - at;
    let ghost s = raw@.subrange(at as int, end as int);
    if n >= 1 {
        assert(s[0] == raw@[at as int]);
    }
    if n >= 2 {
        assert(s[1] == raw@[at + 1]);
    }
    if n >= 3 {
        assert(s[2] == raw@[at + 2]);
    }
    if n >= 1 && ((9 <= raw[at] && raw[at] <= 13) || raw[at] == 0x20) {
        return 1;
    }
    if n >= 2 && raw[at] == 0xc2 && (raw[at + 1] == 0x85 || raw[at + 1] == 0xa0) {
        return 2;
    }
    if n >= 3 {
        let a = raw[at];
        let b = raw[at + 1];
        let c = raw[at + 2];
        if a == 0xe1 && b == 0x9a && c == 0x80 {
            return 3;
        }
        if a == 0xe2 && b == 0x80 && ((0x80 <= c && c <= 0x8a) || c == 0xa8 || c == 0xa9 || c
            == 0xaf) {
            return 3;
        }
        if a == 0xe2 && b == 0x81 && c == 0x9f {
            return 3;
        }
        if a == 0xe3 && b == 0x80 && c == 0x80 {
            return 3;
        }
    }
    0
}

/// The index of the first byte at or behind `from` that is no white space,
/// or the length of `s` where only white space follows.
pub open spec fn skip_white_space(s: Seq<u8>, from: int) -> int
    decreases s.len() - from,
{
    if from < 0 || from >= s.len() {
        s.len() as int
    } else if white_space_width(s.skip(from)) > 0 {
        skip_white_space(s, from + white_space_width(s.skip(from)))
    } else {
        from
    }
}

/// The index at or behind `from` where white space starts, or the length
/// of `s` where none follows.
pub open spec fn word_end(s: Seq<u8>, from: int) -> int
    decreases s.len() - from,
{
    if from < 0 || from >= s.len() {
        s.len() as int
    } else if white_space_width(s.skip(from)) > 0 {
        from
    } else {
        word_end(s, from + 1)
    }
}

/// The word of `s` that starts at or behind `from`: the bytes between
/// white space, or none where only white space follows.
pub open spec fn word_at(s: Seq<u8>, from: int) -> Seq<u8> {
    let start = skip_white_space(s, from);
    s.subrange(start, word_end(s, start))
}

/// Where the word at or behind `from` ends.
pub open spec fn after_word(s: Seq<u8>, from: int) -> int {
    word_end(s, skip_white_space(s, from))
}

/// Find the start of the word at or behind `from`.
pub(crate) fn find_word_start(raw: &[u8], from: usize) -> (start: usize)
    requires
        from <= raw.len(),
    ensures
        start == skip_white_space(raw@, from as int),
        from <= start <= raw.len(),
{
    let mut i: usize = from;
    while i < raw.len()
        invariant
            from <= i <= raw.len(),
            skip_white_space(raw@, from as int) == skip_white_space(raw@, i as int),
        decreases raw.len() - i,
    {
        assert(raw@.skip(i as int) =~= raw@.subrange(i as int, raw.len() as int));
        let width = white_space_at(raw, i, raw.len());
        if width == 0 {
            return i;
        }
        i += width;
    }
    i
}

/// Find the end of the word that starts at `from`.
pub(crate) fn find_word_end(raw: &[u8], from: usize) -> (end: usize)
    requires
        from <= raw.len(),
    ensures
        end == word_end(raw@, from as int),
        from <= end <= raw.len(),
{
    let mut i: usize = from;
    while i < raw.len()
        invariant
            from <= i <= raw.len(),
            word_end(raw@, from as int) == word_end(raw@, i as int),
        decreases raw.len() - i,
    {
        assert(raw@.skip(i as int) =~= raw@.subrange(i as int, raw.len() as int));
        if white_space_at(raw, i, raw.len()) > 0 {
            return i;
        }
        i += 1;
    }
    i
}

/// The number of bytes that the white space at the end of `s` takes, and
/// zero where `s` ends with none.
pub open spec fn white_space_tail(s: Seq<u8>) -> int {
    let n = s.len() as int;
    if n >= 1 && white_space_width(s.skip(n - 1)) == 1 {
        1
    } else if n >= 2 && white_space_width(s.skip(n - 2)) == 2 {
        2
    } else if n >= 3 && white_space_width(s.skip(n - 3)) == 3 {
        3
    } else {
        0
    }
}

/// The length of `s` without the white space at its end.
pub open spec fn trim_end(s: Seq<u8>) -> int
    decreases s.len(),
{
    if white_space_tail(s) > 0 {
        trim_end(s.take(s.len() - white_space_tail(s)))
    } else {
        s.len() as int
    }
}

/// `s` without the white space at its end and at its start.
pub open spec fn trimmed(s: Seq<u8>) -> Seq<u8> {
    let kept = s.take(trim_end(s));
    kept.skip(skip_white_space(kept, 0))
}

/// Find the end of `raw` without the white space at its end.
pub(crate) fn find_trim_end(raw: &[u8]) -> (end: usize)
    ensures
        end == trim_end(raw@),
        end <= raw.len(),
{
    let mut end: usize = raw.len();
    assert(raw@.take(end as int) =~= raw@);
    loop
        invariant
            end <= raw.len(),
            trim_end(raw@) == trim_end(raw@.take(end as int)),
        decreases end,
    {
        let ghost kept = raw@.take(end as int);
        let width: usize = if end >= 1 && white_space_at(raw, end - 1, end) == 1 {
            1
        } else if end >= 2 && white_space_at(raw, end - 2, end) == 2 {
            2
        } else if end >= 3 && white_space_at(raw, end - 3, end) == 3 {
            3
        } else {
            0
        };
        proof {
            if end >= 1 {
                assert(kept.skip(end - 1) =~= raw@.subrange(end - 1, end as int));
            }
            if end >= 2 {
                assert(kept.skip(end - 2) =~= raw@.subrange(end - 2, end as int));
            }
            if end >= 3 {
                assert(kept.skip(end - 3) =~= raw@.subrange(end - 3, end as int));
            }
            assert(width == white_space_tail(kept));
        }
        if width == 0 {
            return end;
        }
        proof {
            assert(kept.take(end - width) =~= raw@.take(end - width));
        }
        end -= width;
    }
}

/// The part of `raw` between the white space at its start and at its end.
pub(crate) fn trim(raw: &[u8]) -> (part: &[u8])
    ensures
        part@ == trimmed(raw@),
{
    let end = find_trim_end(raw);
    let kept = slice_subrange(raw, 0, end);
    assert(kept@ =~= raw@.take(end as int));
    let start = find_word_start(kept, 0);
    let part = slice_subrange(kept, start, end);
    assert(part@ =~= kept@.skip(start as int));
    part
}

} // verus!
