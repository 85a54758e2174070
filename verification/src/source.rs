//! The source text handle: the file as it was read, held in a rope, which
//! is read by line and by byte offset and changed only by replacing byte
//! ranges.

use crate::ast::{LineColumn, Span};
use crate::text::{chars_of, lines, newline_from, slice_of, string_of};
use crop::Rope;
use vstd::prelude::*;

verus! {

/// The rope of the `crop` crate. Nothing is known of what is inside a rope
/// but what the functions below say of it.
#[verifier::external_type_specification]
#[verifier::external_body]
pub struct ExRope(crop::Rope);

/// The text that a rope holds.
pub uninterp spec fn rope_text(rope: crop::Rope) -> Seq<char>;

/// The number of lines of a text, as `Rope::line_len` counts them. A line
/// ends with a line feed, alone or behind a carriage return; the last line
/// need not end with one.
pub open spec fn line_count(text: Seq<char>) -> nat {
    lines(text).len()
}

/// The line of a text at an index, as `Rope::line` finds it: without its
/// line break.
pub open spec fn line_text(text: Seq<char>, index: int) -> Seq<char> {
    lines(text)[index]
}

/// The index of the character with which the line of `text` at `index`
/// starts: 0, or the index behind the line feed that ends the line before;
/// the length of the text where no line feed ends that line.
pub open spec fn line_begin(text: Seq<char>, index: int) -> int
    decreases index,
{
    if index <= 0 {
        0
    } else {
        let feed = newline_from(text, line_begin(text, index - 1));
        if feed < text.len() {
            feed + 1
        } else {
            text.len() as int
        }
    }
}

/// The byte offset at which the line of a text at an index starts, as
/// `Rope::byte_of_line` gives it: the number of bytes of what stands before
/// the line.
pub open spec fn line_start(text: Seq<char>, index: int) -> nat {
    bytes_of(prefix(text, line_begin(text, index))).len()
}

/// The bytes of a text: its UTF-8 encoding.
pub open spec fn bytes_of(text: Seq<char>) -> Seq<u8> {
    vstd::utf8::encode_utf8(text)
}

/// `offset` is a place in `bytes` where a character starts or the text ends.
pub open spec fn on_boundary(bytes: Seq<u8>, offset: int) -> bool {
    0 <= offset <= bytes.len() && vstd::utf8::is_char_boundary(bytes, offset)
}

/// `Rope::from` on a string slice: the rope holds the text of `s`.
#[verifier::external_body]
pub(crate) fn rope_of(s: &str) -> (rope: Rope)
    ensures
        rope_text(rope) == s@,
{
    Rope::from(s)
}

/// `Rope`'s `to_string`: the text that the rope holds.
#[verifier::external_body]
pub(crate) fn rope_string(rope: &Rope) -> (s: String)
    ensures
        s@ == rope_text(*rope),
{
    rope.to_string()
}

/// `Rope::byte_len`: the number of bytes of the text.
#[verifier::external_body]
pub(crate) fn rope_byte_len(rope: &Rope) -> (n: usize)
    ensures
        n == bytes_of(rope_text(*rope)).len(),
{
    rope.byte_len()
}

/// `Rope::line_len`: the number of lines of the text. The rope counts the
/// line feeds, and one more where the text does not end with one.
#[verifier::external_body]
pub(crate) fn rope_line_len(rope: &Rope) -> (n: usize)
    ensures
        n == line_count(rope_text(*rope)),
{
    rope.line_len()
}

/// `Rope::line`, as a string: the line at `index`, which must be one of the
/// rope's lines, without the line feed that ends it and without a carriage
/// return before that.
#[verifier::external_body]
pub(crate) fn rope_line(rope: &Rope, index: usize) -> (s: String)
    requires
        index < line_count(rope_text(*rope)),
    ensures
        s@ == line_text(rope_text(*rope), index as int),
{
    rope.line(index).to_string()
}

/// `Rope::byte_of_line`: the byte offset at which the line at `index`
/// starts, which is that behind the line feed that ends the line before;
/// `index` may be the number of lines.
#[verifier::external_body]
pub(crate) fn rope_byte_of_line(rope: &Rope, index: usize) -> (n: usize)
    requires
        index <= line_count(rope_text(*rope)),
    ensures
        n == line_start(rope_text(*rope), index as int),
{
    rope.byte_of_line(index)
}

/// `Rope::is_char_boundary`: whether a character starts, or the text ends,
/// at `offset`, which must not lie behind the end.
#[verifier::external_body]
pub(crate) fn rope_is_char_boundary(rope: &Rope, offset: usize) -> (b: bool)
    requires
        offset <= bytes_of(rope_text(*rope)).len(),
    ensures
        b == vstd::utf8::is_char_boundary(bytes_of(rope_text(*rope)), offset as int),
{
    rope.is_char_boundary(offset)
}

/// `Rope::byte_slice`, as a string: the text held in the bytes from `start`
/// up to `end`, both of which must lie on character boundaries.
#[verifier::external_body]
pub(crate) fn rope_byte_slice(rope: &Rope, start: usize, end: usize) -> (s: String)
    requires
        start <= end,
        on_boundary(bytes_of(rope_text(*rope)), start as int),
        on_boundary(bytes_of(rope_text(*rope)), end as int),
    ensures
        bytes_of(s@) == bytes_of(rope_text(*rope)).subrange(start as int, end as int),
{
    rope.byte_slice(start..end).to_string()
}

/// `Rope::replace`: the bytes from `start` up to `end`, both of which must
/// lie on character boundaries, give way to the bytes of `text`; the bytes
/// before and behind them stay.
#[verifier::external_body]
pub(crate) fn rope_replace(rope: &mut Rope, start: usize, end: usize, text: &str)
    requires
        start <= end,
        on_boundary(bytes_of(rope_text(*old(rope))), start as int),
        on_boundary(bytes_of(rope_text(*old(rope))), end as int),
    ensures
        bytes_of(rope_text(*final(rope))) == splice(
            bytes_of(rope_text(*old(rope))),
            start as int,
            end as int,
            bytes_of(text@),
        ),
{
    rope.replace(start..end, text)
}

/// `bytes` with the range from `start` up to `end` replaced by `new`.
pub open spec fn splice(bytes: Seq<u8>, start: int, end: int, new: Seq<u8>) -> Seq<u8> {
    bytes.subrange(0, start) + new + bytes.subrange(end, bytes.len() as int)
}

/// The line of `text` at `index`; empty where `text` has no such line.
pub open spec fn src_line(text: Seq<char>, index: int) -> Seq<char> {
    if 0 <= index < line_count(text) {
        line_text(text, index)
    } else {
        Seq::empty()
    }
}

/// The first `n` characters of `s`, or all of `s` where it has fewer.
pub open spec fn prefix(s: Seq<char>, n: int) -> Seq<char> {
    if 0 <= n <= s.len() {
        s.take(n)
    } else {
        s
    }
}

/// What follows the first `n` characters of `s`; empty where it has fewer.
pub open spec fn suffix(s: Seq<char>, n: int) -> Seq<char> {
    if 0 <= n <= s.len() {
        s.skip(n)
    } else {
        Seq::empty()
    }
}

/// The byte offset of a position of `text`: the start of its line, plus the
/// bytes of the characters that stand before its column. `None` where the
/// position's line is not a line of `text`, or the offset does not fit.
pub open spec fn byte_offset(text: Seq<char>, point: LineColumn) -> Option<usize> {
    let row = point.line - 1;
    if 1 <= point.line <= line_count(text) {
        let before = prefix(line_text(text, row), point.column as int);
        let n = line_start(text, row) + bytes_of(before).len();
        if n <= usize::MAX {
            Some(n as usize)
        } else {
            None
        }
    } else {
        None
    }
}

/// The text that `span` covers in `text`: `None` unless both ends have a
/// byte offset, in order, on character boundaries of `text`.
pub open spec fn covered(text: Seq<char>, span: Span) -> Option<Seq<u8>> {
    match (byte_offset(text, span.start), byte_offset(text, span.end)) {
        (Some(a), Some(b)) => if a <= b && on_boundary(bytes_of(text), a as int) && on_boundary(
            bytes_of(text),
            b as int,
        ) {
            Some(bytes_of(text).subrange(a as int, b as int))
        } else {
            None
        },
        _ => None,
    }
}

/// The line of the source at `index`, as characters; empty where the source
/// has no such line.
pub fn source_line(source: &Rope, index: usize) -> (line: Vec<char>)
    ensures
        line@ == src_line(rope_text(*source), index as int),
{
    if index < rope_line_len(source) {
        let s = rope_line(source, index);
        chars_of(s.as_str())
    } else {
        Vec::new()
    }
}

/// The number of lines of the source.
pub fn source_line_count(source: &Rope) -> (n: usize)
    ensures
        n == line_count(rope_text(*source)),
{
    rope_line_len(source)
}

/// The byte offset in the source of the position `point`.
pub fn line_column_to_byte(source: &Rope, point: LineColumn) -> (offset: Option<usize>)
    ensures
        offset == byte_offset(rope_text(*source), point),
{
    if point.line < 1 || point.line > rope_line_len(source) {
        return None;
    }
    let row = point.line - 1;
    let line_byte = rope_byte_of_line(source, row);
    let line = source_line(source, row);
    let n = if point.column <= line.len() {
        point.column
    } else {
        line.len()
    };
    let before = slice_of(&line, 0, n);
    assert(before@ == prefix(line@, point.column as int)) by {
        assert(line@.subrange(0, line@.len() as int) == line@);
    }
    let before_string = string_of(&before);
    let before_bytes = before_string.as_str().as_bytes().len();
    assert(before_bytes == bytes_of(before@).len());
    assert(line@ == line_text(rope_text(*source), row as int));
    if before_bytes <= usize::MAX - line_byte {
        Some(line_byte + before_bytes)
    } else {
        None
    }
}

/// The source text that `span` covers, where its two ends can be found in
/// the source.
pub fn covered_text(source: &Rope, span: Span) -> (s: Option<String>)
    ensures
        match covered(rope_text(*source), span) {
            Some(bytes) => s.is_some() && bytes_of(s.unwrap()@) == bytes,
            None => s.is_none(),
        },
{
    let start = line_column_to_byte(source, span.start);
    let end = line_column_to_byte(source, span.end);
    match (start, end) {
        (Some(a), Some(b)) => {
            if a <= b && b <= rope_byte_len(source) && rope_is_char_boundary(source, a)
                && rope_is_char_boundary(source, b) {
                Some(rope_byte_slice(source, a, b))
            } else {
                None
            }
        },
        _ => None,
    }
}

} // verus!
