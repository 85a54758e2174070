//! Formatting options, the lines that are to be left alone, and the patcher
//! that puts formatted templates back into the file.

use crate::collect::MaudMacro;
use crate::print::{outcome_of, print, print_report, printed};
use crate::unparse::Rendering;
use crate::source::{
    byte_offset, bytes_of, on_boundary, rope_byte_len, rope_is_char_boundary, rope_of,
    rope_replace, rope_string, rope_text, splice,
};
use crate::text::{
    after_comment, append_chars, append_str, chars_of, comment_index, has_comment, has_prefix,
    lemma_find_comment_bounds, newline_from, newline_index, same_chars, slice_of, starts_with,
    string_of, texts, trim, trimmed,
};
use crop::Rope;
use vstd::prelude::*;

pub use crate::source::line_column_to_byte;

verus! {

/// How templates are to be formatted.
#[derive(Debug)]
pub struct FormatOptions {
    /// The number of columns that a line should not exceed.
    pub line_length: usize,
    /// The macro paths whose invocations are templates.
    pub macro_names: Vec<String>,
}

impl Default for FormatOptions {
    /// A hundred columns, for `maud::html!` and `html!`.
    fn default() -> (options: Self)
        ensures
            options.line_length == 100,
            options.macro_names@.len() == 2,
            options.macro_names@[0]@ == "maud::html"@,
            options.macro_names@[1]@ == "html"@,
    {
        let mut macro_names: Vec<String> = Vec::new();
        macro_names.push("maud::html".to_owned());
        macro_names.push("html".to_owned());
        FormatOptions { line_length: 100, macro_names }
    }
}

/// A replacement of a byte range of the text as it was read.
pub struct Patch {
    /// The first byte that is replaced.
    pub start: int,
    /// The first byte behind those that are replaced.
    pub end: int,
    /// The bytes that take their place.
    pub bytes: Seq<u8>,
}

/// An edit: the bytes of the text as it was read from `start` up to `end` are to
/// be replaced by `new_text`.
#[derive(Debug)]
pub struct TextEdit {
    pub start: usize,
    pub end: usize,
    pub new_text: String,
}

impl View for TextEdit {
    type V = Patch;

    open spec fn view(&self) -> Patch {
        Patch { start: self.start as int, end: self.end as int, bytes: bytes_of(self.new_text@) }
    }
}

/// The patches that the edits of `edits` stand for.
pub open spec fn patches(edits: Seq<TextEdit>) -> Seq<Patch> {
    Seq::new(edits.len(), |i: int| edits[i]@)
}

/// A patch can be applied to `bytes`, which have grown by `offset` since the
/// patch was made: its range, moved by `offset`, lies in `bytes`, in order
/// and on character boundaries.
pub open spec fn applies(bytes: Seq<u8>, offset: int, patch: Patch) -> bool {
    patch.start <= patch.end && on_boundary(bytes, patch.start + offset) && on_boundary(
        bytes,
        patch.end + offset,
    )
}

/// `bytes` after the patches from index `from` on are applied in order,
/// each moved by the growth that the patches before it have caused. A
/// patch that cannot be applied is left out.
pub open spec fn patched(bytes: Seq<u8>, offset: int, patches: Seq<Patch>, from: int) -> Seq<u8>
    decreases patches.len() - from,
{
    if 0 <= from < patches.len() {
        let patch = patches[from];
        if applies(bytes, offset, patch) {
            patched(
                splice(bytes, patch.start + offset, patch.end + offset, patch.bytes),
                offset + patch.bytes.len() - (patch.end - patch.start),
                patches,
                from + 1,
            )
        } else {
            patched(bytes, offset, patches, from + 1)
        }
    } else {
        bytes
    }
}

/// The patch that formats one invocation: from the start of the macro's
/// path to the end of its closing delimiter, the printed template. `None`
/// where the template did not parse or the invocation cannot be found in
/// the text.
pub open spec fn macro_patch(
    text: Seq<char>,
    mac: MaudMacro,
    options: FormatOptions,
    table: Seq<Rendering>,
) -> Option<
    Patch,
> {
    match (mac.markups, byte_offset(text, mac.start), byte_offset(text, mac.delimiter.end)) {
        (Some(ast), Some(start), Some(end)) => Some(
            Patch {
                start: start as int,
                end: end as int,
                bytes: bytes_of(printed(text, mac, ast, options, table)),
            },
        ),
        _ => None,
    }
}

/// The patches that format the invocations `macros` from index `from` on.
pub open spec fn macro_patches(
    text: Seq<char>,
    macros: Seq<MaudMacro>,
    options: FormatOptions,
    table: Seq<Rendering>,
    from: int,
) -> Seq<Patch>
    decreases macros.len() - from,
{
    if 0 <= from < macros.len() {
        let rest = macro_patches(text, macros, options, table, from + 1);
        match macro_patch(text, macros[from], options, table) {
            Some(patch) => seq![patch] + rest,
            None => rest,
        }
    } else {
        Seq::empty()
    }
}

/// The text that replaces an invocation; `None` where its template did not
/// parse.
pub fn format_macro(
    mac: &MaudMacro,
    source: &Rope,
    options: &FormatOptions,
    table: &Vec<Rendering>,
) -> (r: Option<String>)
    ensures
        match mac.markups {
            Some(ast) => r.is_some() && r.unwrap()@ == printed(
                rope_text(*source),
                *mac,
                ast,
                *options,
                table@,
            ),
            None => r.is_none(),
        },
{
    match &mac.markups {
        Some(ast) => Some(print(ast, mac, source, options, table)),
        None => None,
    }
}

/// The edit that formats one invocation.
pub fn macro_edit(
    mac: &MaudMacro,
    source: &Rope,
    options: &FormatOptions,
    table: &Vec<Rendering>,
) -> (r: Option<TextEdit>)
    ensures
        match macro_patch(rope_text(*source), *mac, *options, table@) {
            Some(patch) => r.is_some() && r.unwrap()@ == patch,
            None => r.is_none(),
        },
{
    let start = line_column_to_byte(source, mac.start);
    let end = line_column_to_byte(source, mac.delimiter.end);
    match (format_macro(mac, source, options, table), start, end) {
        (Some(new_text), Some(start), Some(end)) => Some(TextEdit { start, end, new_text }),
        _ => None,
    }
}

/// The files that are still to be rendered for the invocation `mac`: those
/// that printing it asks for; none where it is not formatted.
pub open spec fn macro_asked(
    text: Seq<char>,
    mac: MaudMacro,
    options: FormatOptions,
    table: Seq<Rendering>,
) -> Seq<Seq<char>> {
    match mac.markups {
        Some(ast) => outcome_of(text, mac, ast, options, table).asked,
        None => Seq::empty(),
    }
}

/// The files that are still to be rendered for the invocations `macros`
/// from index `from` on.
pub open spec fn asked_all(
    text: Seq<char>,
    macros: Seq<MaudMacro>,
    options: FormatOptions,
    table: Seq<Rendering>,
    from: int,
) -> Seq<Seq<char>>
    decreases macros.len() - from,
{
    if 0 <= from < macros.len() {
        macro_asked(text, macros[from], options, table) + asked_all(
            text,
            macros,
            options,
            table,
            from + 1,
        )
    } else {
        Seq::empty()
    }
}

/// The files that the host renderer is still to render before the
/// invocations `macros` of `source` can be printed with every host fragment
/// rendered: those whose rendering `table` does not hold.
pub fn requests(
    source: &Rope,
    macros: &Vec<MaudMacro>,
    options: &FormatOptions,
    table: &Vec<Rendering>,
) -> (asked: Vec<String>)
    ensures
        texts(asked@) == asked_all(rope_text(*source), macros@, *options, table@, 0),
{
    let mut asked: Vec<String> = Vec::new();
    let ghost text = rope_text(*source);
    let mut i: usize = 0;
    assert(texts(asked@) == Seq::<Seq<char>>::empty());
    while i < macros.len()
        invariant
            i <= macros.len(),
            text == rope_text(*source),
            texts(asked@) + asked_all(text, macros@, *options, table@, i as int) == asked_all(
                text,
                macros@,
                *options,
                table@,
                0,
            ),
        decreases macros.len() - i,
    {
        let ghost before = texts(asked@);
        let ghost rest = asked_all(text, macros@, *options, table@, i + 1);
        match &macros[i].markups {
            Some(ast) => {
                let report = print_report(ast, &macros[i], source, options, table);
                let mut k: usize = 0;
                while k < report.asked.len()
                    invariant
                        k <= report.asked.len(),
                        texts(asked@) == before + texts(report.asked@).take(k as int),
                    decreases report.asked.len() - k,
                {
                    let ghost so_far = texts(asked@);
                    asked.push(report.asked[k].clone());
                    assert(texts(asked@) == so_far.push(report.asked@[k as int]@));
                    k += 1;
                    assert(texts(report.asked@).take(k as int) == texts(report.asked@).take(
                        k - 1,
                    ).push(report.asked@[k - 1]@));
                }
                assert(texts(report.asked@).take(report.asked.len() as int) == texts(
                    report.asked@,
                ));
                assert(before + (texts(report.asked@) + rest) == (before + texts(report.asked@))
                    + rest);
            },
            None => {
                assert(before + (Seq::<Seq<char>>::empty() + rest) == before + rest);
            },
        }
        i += 1;
    }
    assert(texts(asked@) + Seq::<Seq<char>>::empty() == texts(asked@));
    asked
}

/// Applies `edits` to `source` in order. Each edit is moved by what the
/// edits before it have added to the text; one that cannot be applied then
/// is left out.
pub fn apply_edits(source: &mut Rope, edits: &Vec<TextEdit>)
    ensures
        bytes_of(rope_text(*final(source))) == patched(
            bytes_of(rope_text(*old(source))),
            0,
            patches(edits@),
            0,
        ),
{
    let ghost unpatched = bytes_of(rope_text(*source));
    let first_len = rope_byte_len(source);
    let mut offset: i128 = 0;
    let mut i: usize = 0;
    while i < edits.len()
        invariant
            i <= edits.len(),
            first_len == unpatched.len(),
            offset == bytes_of(rope_text(*source)).len() - first_len,
            patched(bytes_of(rope_text(*source)), offset as int, patches(edits@), i as int)
                == patched(unpatched, 0, patches(edits@), 0),
        decreases edits.len() - i,
    {
        let edit = &edits[i];
        let len = rope_byte_len(source);
        let start = edit.start as i128 + offset;
        let end = edit.end as i128 + offset;
        assert(patches(edits@)[i as int] == edit@);
        if edit.start <= edit.end && 0 <= start && end <= len as i128 {
            let at = start as usize;
            let to = end as usize;
            if rope_is_char_boundary(source, at) && rope_is_char_boundary(source, to) {
                let added = edit.new_text.as_str().as_bytes().len();
                rope_replace(source, at, to, edit.new_text.as_str());
                offset = offset + added as i128 - (edit.end - edit.start) as i128;
            }
        }
        i += 1;
    }
}

/// Formats the invocations `macros` of `source`: each one whose template
/// parsed is replaced by its printed form, with its host fragments rendered
/// as `table` tells; every other byte stays as it is. Returns the text of
/// the file after that.
pub fn format_source(
    source: &mut Rope,
    macros: &Vec<MaudMacro>,
    options: &FormatOptions,
    table: &Vec<Rendering>,
) -> (s:
    String)
    ensures
        s@ == rope_text(*final(source)),
        bytes_of(s@) == patched(
            bytes_of(rope_text(*old(source))),
            0,
            macro_patches(rope_text(*old(source)), macros@, *options, table@, 0),
            0,
        ),
{
    let mut edits: Vec<TextEdit> = Vec::new();
    let mut i: usize = 0;
    let ghost text = rope_text(*source);
    assert(patches(edits@) == Seq::<Patch>::empty());
    while i < macros.len()
        invariant
            i <= macros.len(),
            source == old(source),
            text == rope_text(*source),
            patches(edits@) + macro_patches(text, macros@, *options, table@, i as int) == macro_patches(
                text,
                macros@,
                *options,
                table@,
                0,
            ),
        decreases macros.len() - i,
    {
        let ghost before = patches(edits@);
        match macro_edit(&macros[i], source, options, table) {
            Some(edit) => {
                let ghost patch = edit@;
                edits.push(edit);
                assert(patches(edits@) == before + seq![patch]);
                assert(before + (seq![patch] + macro_patches(text, macros@, *options, table@, i + 1))
                    == (before + seq![patch]) + macro_patches(text, macros@, *options, table@, i + 1));
            },
            None => {},
        }
        i += 1;
    }
    assert(macro_patches(text, macros@, *options, table@, i as int) == Seq::<Patch>::empty());
    assert(patches(edits@) + Seq::<Patch>::empty() == patches(edits@));
    apply_edits(source, &edits);
    rope_string(source)
}

/// The patches from index `from` on are in ascending order and do not
/// overlap, none starts before `cursor`, and each replaces a range of
/// `bytes` that lies on character boundaries by bytes that are text.
pub open spec fn in_order(bytes: Seq<u8>, patches: Seq<Patch>, from: int, cursor: int) -> bool
    decreases patches.len() - from,
{
    if 0 <= from < patches.len() {
        let patch = patches[from];
        &&& cursor <= patch.start <= patch.end
        &&& on_boundary(bytes, patch.start)
        &&& on_boundary(bytes, patch.end)
        &&& vstd::utf8::valid_utf8(patch.bytes)
        &&& in_order(bytes, patches, from + 1, patch.end)
    } else {
        true
    }
}

/// `bytes` from `cursor` on, with the range of each patch from index `from`
/// on replaced by the bytes of the patch, and every byte outside those
/// ranges as it is.
pub open spec fn stitched(bytes: Seq<u8>, patches: Seq<Patch>, from: int, cursor: int) -> Seq<u8>
    decreases patches.len() - from,
{
    if 0 <= from < patches.len() {
        bytes.subrange(cursor, patches[from].start) + patches[from].bytes + stitched(
            bytes,
            patches,
            from + 1,
            patches[from].end,
        )
    } else {
        bytes.subrange(cursor, bytes.len() as int)
    }
}

/// A character boundary stays one where the byte at it stays the same: if
/// `i` is a boundary of `a`, and `j` is the end of `b` or holds the byte
/// that `a` holds at `i`, then `j` is a boundary of `b`.
proof fn lemma_boundary_by_byte(a: Seq<u8>, i: int, b: Seq<u8>, j: int)
    requires
        vstd::utf8::valid_utf8(a),
        vstd::utf8::valid_utf8(b),
        on_boundary(a, i),
        0 <= j <= b.len(),
        j == b.len() || (i < a.len() && a[i] == b[j]),
    ensures
        on_boundary(b, j),
{
    if j == b.len() {
        vstd::utf8::is_char_boundary_start_end_of_seq(b);
    } else {
        vstd::utf8::is_char_boundary_iff_not_is_continuation_byte(a, i);
        vstd::utf8::is_char_boundary_iff_not_is_continuation_byte(b, j);
    }
}

/// The bytes between two character boundaries of a text are text.
proof fn lemma_between_boundaries(bytes: Seq<u8>, from: int, to: int)
    requires
        vstd::utf8::valid_utf8(bytes),
        on_boundary(bytes, from),
        on_boundary(bytes, to),
        from <= to,
    ensures
        vstd::utf8::valid_utf8(bytes.subrange(from, to)),
{
    vstd::utf8::valid_utf8_split(bytes, to);
    let head = bytes.subrange(0, to);
    lemma_boundary_by_byte(bytes, from, head, from);
    vstd::utf8::valid_utf8_split(head, from);
    assert(head.subrange(from, head.len() as int) == bytes.subrange(from, to));
}

/// Patching what is left of the text behind `cursor`, with `done` before it,
/// stitches the patches that are left into it.
proof fn lemma_patched_is_stitched(
    bytes: Seq<u8>,
    patches: Seq<Patch>,
    from: int,
    cursor: int,
    done: Seq<u8>,
)
    requires
        vstd::utf8::valid_utf8(bytes),
        vstd::utf8::valid_utf8(done),
        on_boundary(bytes, cursor),
        0 <= from,
        in_order(bytes, patches, from, cursor),
    ensures
        patched(
            done + bytes.subrange(cursor, bytes.len() as int),
            done.len() - cursor,
            patches,
            from,
        ) == done + stitched(bytes, patches, from, cursor),
    decreases patches.len() - from,
{
    let len = bytes.len() as int;
    let current = done + bytes.subrange(cursor, len);
    let offset = done.len() - cursor;
    if from < patches.len() {
        let patch = patches[from];
        vstd::utf8::is_char_boundary_start_end_of_seq(bytes);
        lemma_between_boundaries(bytes, cursor, len);
        vstd::utf8::valid_utf8_concat(done, bytes.subrange(cursor, len));
        lemma_boundary_by_byte(bytes, patch.start, current, patch.start + offset);
        lemma_boundary_by_byte(bytes, patch.end, current, patch.end + offset);
        assert(applies(current, offset, patch));
        let kept = bytes.subrange(cursor, patch.start);
        let next_done = done + kept + patch.bytes;
        lemma_between_boundaries(bytes, cursor, patch.start);
        vstd::utf8::valid_utf8_concat(done, kept);
        vstd::utf8::valid_utf8_concat(done + kept, patch.bytes);
        assert(splice(current, patch.start + offset, patch.end + offset, patch.bytes) =~= next_done
            + bytes.subrange(patch.end, len));
        lemma_patched_is_stitched(bytes, patches, from + 1, patch.end, next_done);
        assert(next_done + stitched(bytes, patches, from + 1, patch.end) =~= done + stitched(
            bytes,
            patches,
            from,
            cursor,
        ));
    }
}

/// Outside the spans nothing changes: where the patches are in ascending
/// order, do not overlap and lie on character boundaries of the text, the
/// patched text is the text with the range of each patch replaced; every
/// byte before, between and behind those ranges stays as it is.
pub proof fn lemma_outside_spans_unchanged(text: Seq<char>, patches: Seq<Patch>)
    requires
        in_order(bytes_of(text), patches, 0, 0),
    ensures
        patched(bytes_of(text), 0, patches, 0) == stitched(bytes_of(text), patches, 0, 0),
{
    let bytes = bytes_of(text);
    vstd::utf8::encode_utf8_valid_utf8(text);
    vstd::utf8::is_char_boundary_start_end_of_seq(bytes);
    let done = Seq::<u8>::empty();
    assert(vstd::utf8::valid_utf8(done)) by {
        assert(done == bytes_of(Seq::<char>::empty()));
        vstd::utf8::encode_utf8_valid_utf8(Seq::<char>::empty());
    }
    lemma_patched_is_stitched(bytes, patches, 0, 0, done);
    assert(done + bytes.subrange(0, bytes.len() as int) =~= bytes);
    assert(done + stitched(bytes, patches, 0, 0) =~= stitched(bytes, patches, 0, 0));
}

/// The invocations `macros` from index `from` on stand in the text in
/// ascending order and do not overlap, none starts before `cursor`, and
/// each one that is formatted reaches from one character boundary of the
/// text to another.
pub open spec fn invocations_in_order(
    text: Seq<char>,
    macros: Seq<MaudMacro>,
    options: FormatOptions,
    table: Seq<Rendering>,
    from: int,
    cursor: int,
) -> bool
    decreases macros.len() - from,
{
    if 0 <= from < macros.len() {
        match macro_patch(text, macros[from], options, table) {
            Some(patch) => {
                &&& cursor <= patch.start <= patch.end
                &&& on_boundary(bytes_of(text), patch.start)
                &&& on_boundary(bytes_of(text), patch.end)
                &&& invocations_in_order(text, macros, options, table, from + 1, patch.end)
            },
            None => invocations_in_order(text, macros, options, table, from + 1, cursor),
        }
    } else {
        true
    }
}

/// Patches behind a first one are in order if they are in order taken by
/// themselves.
proof fn lemma_in_order_behind(
    bytes: Seq<u8>,
    first: Patch,
    rest: Seq<Patch>,
    from: int,
    cursor: int,
)
    requires
        0 <= from,
        in_order(bytes, rest, from, cursor),
    ensures
        in_order(bytes, seq![first] + rest, from + 1, cursor),
    decreases rest.len() - from,
{
    let all = seq![first] + rest;
    if from < rest.len() {
        assert(all[from + 1] == rest[from]);
        lemma_in_order_behind(bytes, first, rest, from + 1, rest[from].end);
    }
}

/// The patches of invocations that stand in order are in order.
proof fn lemma_patches_in_order(
    text: Seq<char>,
    macros: Seq<MaudMacro>,
    options: FormatOptions,
    table: Seq<Rendering>,
    from: int,
    cursor: int,
)
    requires
        0 <= from,
        invocations_in_order(text, macros, options, table, from, cursor),
    ensures
        in_order(bytes_of(text), macro_patches(text, macros, options, table, from), 0, cursor),
    decreases macros.len() - from,
{
    if from < macros.len() {
        let rest = macro_patches(text, macros, options, table, from + 1);
        match macro_patch(text, macros[from], options, table) {
            Some(patch) => {
                lemma_patches_in_order(text, macros, options, table, from + 1, patch.end);
                lemma_in_order_behind(bytes_of(text), patch, rest, 0, patch.end);
                vstd::utf8::encode_utf8_valid_utf8(
                    printed(text, macros[from], macros[from].markups.unwrap(), options, table),
                );
                assert((seq![patch] + rest)[0] == patch);
            },
            None => {
                lemma_patches_in_order(text, macros, options, table, from + 1, cursor);
            },
        }
    }
}

/// Outside the invocations nothing changes: where the invocations stand in
/// the text in ascending order, without overlap and on character
/// boundaries, the formatted text is the text with each invocation that is
/// formatted replaced by what it is printed as; every byte before, between
/// and behind the invocations stays as it is.
pub proof fn lemma_bytes_outside_invocations_stay(
    text: Seq<char>,
    macros: Seq<MaudMacro>,
    options: FormatOptions,
    table: Seq<Rendering>,
)
    requires
        invocations_in_order(text, macros, options, table, 0, 0),
    ensures
        patched(bytes_of(text), 0, macro_patches(text, macros, options, table, 0), 0) == stitched(
            bytes_of(text),
            macro_patches(text, macros, options, table, 0),
            0,
            0,
        ),
{
    lemma_patches_in_order(text, macros, options, table, 0, 0);
    lemma_outside_spans_unchanged(text, macro_patches(text, macros, options, table, 0));
}

/// Patches that replace each range by the bytes it holds already leave
/// `bytes` as they are.
pub open spec fn all_fixed(bytes: Seq<u8>, patches: Seq<Patch>, from: int) -> bool {
    forall|i: int|
        from <= i < patches.len() ==> (#[trigger] patches[i]).bytes == bytes.subrange(
            patches[i].start,
            patches[i].end,
        )
}

/// Stitching patches into the text that hold what their ranges hold
/// already gives the text back.
proof fn lemma_stitched_fixed(bytes: Seq<u8>, patches: Seq<Patch>, from: int, cursor: int)
    requires
        0 <= from,
        0 <= cursor <= bytes.len(),
        in_order(bytes, patches, from, cursor),
        all_fixed(bytes, patches, from),
    ensures
        stitched(bytes, patches, from, cursor) == bytes.subrange(cursor, bytes.len() as int),
    decreases patches.len() - from,
{
    if from < patches.len() {
        let patch = patches[from];
        lemma_stitched_fixed(bytes, patches, from + 1, patch.end);
        assert(bytes.subrange(cursor, patch.start) + bytes.subrange(patch.start, patch.end)
            + bytes.subrange(patch.end, bytes.len() as int) =~= bytes.subrange(
            cursor,
            bytes.len() as int,
        ));
    }
}

/// Formatted text is a fixed point of the patcher: where every invocation
/// is printed as the text that it already is, patching changes nothing.
pub proof fn lemma_formatted_stays(text: Seq<char>, patches: Seq<Patch>)
    requires
        in_order(bytes_of(text), patches, 0, 0),
        all_fixed(bytes_of(text), patches, 0),
    ensures
        patched(bytes_of(text), 0, patches, 0) == bytes_of(text),
{
    lemma_outside_spans_unchanged(text, patches);
    lemma_stitched_fixed(bytes_of(text), patches, 0, 0);
    assert(bytes_of(text).subrange(0, bytes_of(text).len() as int) =~= bytes_of(text));
}

/// The line that stands in for a line that is to be left alone.
pub open spec fn placeholder() -> Seq<char> {
    "\"__MAUDFMT_IGNORED_PLACEHOLDER__\""@
}

/// The index just behind the line that starts at `from`, its line feed
/// included.
pub open spec fn line_stop(s: Seq<char>, from: int) -> int {
    let feed = newline_from(s, from);
    if feed < s.len() {
        feed + 1
    } else {
        s.len() as int
    }
}

/// The index just behind what the line that starts at `from` holds: its
/// line break (a line feed, or a carriage return and a line feed) is left
/// out.
pub open spec fn content_stop(s: Seq<char>, from: int) -> int {
    let feed = newline_from(s, from);
    if from < feed < s.len() && s[feed - 1] == '\r' {
        feed - 1
    } else {
        feed
    }
}

/// `line` asks that the next line be left alone: its comment starts with
/// `maudfmt-ignore`.
pub open spec fn is_ignore_marker(line: Seq<char>) -> bool {
    has_comment(line) && has_prefix(trim(after_comment(line)), "maudfmt-ignore"@)
}

/// The text `s` from index `from` on with each line that follows a marker
/// replaced by the placeholder, and the lines that were replaced, in order.
/// Line breaks stay as they are.
pub open spec fn preprocessed(s: Seq<char>, from: int) -> (Seq<char>, Seq<Seq<char>>)
    decreases s.len() - from,
{
    if from < 0 || from >= s.len() {
        (Seq::empty(), Seq::empty())
    } else {
        let stop = line_stop(s, from);
        let line = s.subrange(from, content_stop(s, from));
        if stop <= from {
            (Seq::empty(), Seq::empty())
        } else if is_ignore_marker(line) && stop < s.len() {
            let next_stop = line_stop(s, stop);
            let next_content = content_stop(s, stop);
            if next_stop <= stop {
                (Seq::empty(), Seq::empty())
            } else {
                let rest = preprocessed(s, next_stop);
                (
                    s.subrange(from, stop) + placeholder() + s.subrange(next_content, next_stop)
                        + rest.0,
                    seq![s.subrange(stop, next_content)] + rest.1,
                )
            }
        } else {
            let rest = preprocessed(s, stop);
            (s.subrange(from, stop) + rest.0, rest.1)
        }
    }
}

/// The text `s` from index `from` on with each line that is the
/// placeholder, white space aside, replaced by the next of the lines
/// `info`, from index `next` on, as long as there are any. Line breaks stay
/// as they are.
pub open spec fn reinserted(s: Seq<char>, from: int, info: Seq<Seq<char>>, next: int) -> Seq<char>
    decreases s.len() - from,
{
    if from < 0 || from >= s.len() {
        Seq::empty()
    } else {
        let stop = line_stop(s, from);
        let content = content_stop(s, from);
        if stop <= from {
            Seq::empty()
        } else if trim(s.subrange(from, content)) == placeholder() && 0 <= next < info.len() {
            info[next] + s.subrange(content, stop) + reinserted(s, stop, info, next + 1)
        } else {
            s.subrange(from, stop) + reinserted(s, stop, info, next)
        }
    }
}

/// What `newline_from` finds is the first line feed at or after `from`.
proof fn lemma_newline_from(s: Seq<char>, from: int)
    requires
        0 <= from <= s.len(),
    ensures
        from <= newline_from(s, from) <= s.len(),
        newline_from(s, from) < s.len() ==> s[newline_from(s, from)] == '\n',
        forall|j: int| from <= j < newline_from(s, from) ==> s[j] != '\n',
    decreases s.len() - from,
{
    if from < s.len() && s[from] != '\n' {
        lemma_newline_from(s, from + 1);
    }
}

/// The first line feed at or after `from` is at `at`, where one stands at
/// `at`, or the text ends there, and none stands between the two.
proof fn lemma_newline_is(s: Seq<char>, from: int, at: int)
    requires
        0 <= from <= at <= s.len(),
        forall|j: int| from <= j < at ==> s[j] != '\n',
        at == s.len() || s[at] == '\n',
    ensures
        newline_from(s, from) == at,
    decreases at - from,
{
    if from < at {
        lemma_newline_is(s, from + 1, at);
    }
}

/// Where a line stops depends only on the text from its start on.
proof fn lemma_line_shift(s: Seq<char>, from: int)
    requires
        0 <= from <= s.len(),
    ensures
        newline_from(s, from) == from + newline_from(s.skip(from), 0),
        line_stop(s, from) == from + line_stop(s.skip(from), 0),
        content_stop(s, from) == from + content_stop(s.skip(from), 0),
        from < s.len() ==> from < line_stop(s, from) <= s.len(),
        from <= content_stop(s, from) <= line_stop(s, from),
{
    lemma_newline_from(s, from);
    let feed = newline_from(s, from);
    lemma_newline_is(s.skip(from), 0, feed - from);
}

/// Putting lines back into the text from `from` on is putting them back
/// into what the text holds from there.
proof fn lemma_reinserted_shift(s: Seq<char>, from: int, info: Seq<Seq<char>>, next: int)
    requires
        0 <= from <= s.len(),
    ensures
        reinserted(s, from, info, next) == reinserted(s.skip(from), 0, info, next),
    decreases s.len() - from,
{
    let t = s.skip(from);
    if from < s.len() {
        lemma_line_shift(s, from);
        let stop = line_stop(s, from);
        let content = content_stop(s, from);
        assert(s.subrange(from, content) == t.subrange(0, content - from));
        assert(s.subrange(content, stop) == t.subrange(content - from, stop - from));
        assert(s.subrange(from, stop) == t.subrange(0, stop - from));
        assert(t.skip(stop - from) == s.skip(stop));
        lemma_reinserted_shift(s, stop, info, next);
        lemma_reinserted_shift(s, stop, info, next + 1);
        lemma_reinserted_shift(t, stop - from, info, next);
        lemma_reinserted_shift(t, stop - from, info, next + 1);
    }
}

/// `line` is one line with its line break: it is not empty and holds no
/// line feed before its end.
pub open spec fn is_one_line(line: Seq<char>) -> bool {
    line.len() > 0 && forall|j: int| 0 <= j < line.len() - 1 ==> line[j] != '\n'
}

/// Putting lines back into a text that starts with the line `line` deals
/// with that line and then with the `rest`. Unless `line` ends with a line
/// feed, there is no rest.
proof fn lemma_reinserted_first(
    line: Seq<char>,
    rest: Seq<char>,
    info: Seq<Seq<char>>,
    next: int,
)
    requires
        is_one_line(line),
        line.last() == '\n' || rest.len() == 0,
    ensures
        reinserted(line + rest, 0, info, next) == if trim(
            line.subrange(0, content_stop(line, 0)),
        ) == placeholder() && 0 <= next < info.len() {
            info[next] + line.subrange(content_stop(line, 0), line.len() as int) + reinserted(
                rest,
                0,
                info,
                next + 1,
            )
        } else {
            line + reinserted(rest, 0, info, next)
        },
        0 <= content_stop(line, 0) <= line.len(),
{
    let all = line + rest;
    let feed = if line.last() == '\n' {
        line.len() - 1
    } else {
        line.len() as int
    };
    if line.last() != '\n' {
        assert(all == line);
    }
    lemma_newline_is(all, 0, feed);
    lemma_newline_is(line, 0, feed);
    let content = content_stop(line, 0);
    assert(content_stop(all, 0) == content);
    assert(line_stop(all, 0) == line.len());
    assert(all.subrange(0, content) == line.subrange(0, content));
    assert(all.subrange(content, line.len() as int) == line.subrange(content, line.len() as int));
    assert(all.subrange(0, line.len() as int) == line);
    assert(all.skip(line.len() as int) == rest);
    lemma_reinserted_shift(all, line.len() as int, info, next);
    lemma_reinserted_shift(all, line.len() as int, info, next + 1);
}

/// No line of `s` from index `from` on is the placeholder, white space
/// aside.
pub open spec fn no_placeholder_lines(s: Seq<char>, from: int) -> bool
    decreases s.len() - from,
{
    if from < 0 || from >= s.len() {
        true
    } else {
        let stop = line_stop(s, from);
        trim(s.subrange(from, content_stop(s, from))) != placeholder() && (stop <= from
            || no_placeholder_lines(s, stop))
    }
}

/// The placeholder is one quoted word: it holds no line feed and no white
/// space at its ends.
proof fn lemma_placeholder()
    ensures
        placeholder().len() > 0,
        forall|j: int| 0 <= j < placeholder().len() ==> placeholder()[j] != '\n',
        placeholder().last() != '\r',
        trim(placeholder()) == placeholder(),
{
    reveal_strlit("\"__MAUDFMT_IGNORED_PLACEHOLDER__\"");
    let p = placeholder();
    assert(p.len() == 33);
    assert(p[0] == '"');
    assert(p[32] == '"');
    assert(!crate::text::is_space(p.first()));
    assert(!crate::text::is_space(p.last()));
    assert(crate::text::trim_start(p) == p);
    assert(crate::text::trim_end(p) == p);
}

/// Putting back what was taken out of the text from `from` on, behind the
/// lines `before` that were taken out further up, restores the text.
#[verifier::rlimit(60)]
proof fn lemma_lines_come_back(s: Seq<char>, from: int, before: Seq<Seq<char>>)
    requires
        0 <= from <= s.len(),
        no_placeholder_lines(s, from),
    ensures
        reinserted(
            preprocessed(s, from).0,
            0,
            before + preprocessed(s, from).1,
            before.len() as int,
        ) == s.skip(from),
    decreases s.len() - from,
{
    let next = before.len() as int;
    if from < s.len() {
        lemma_line_shift(s, from);
        lemma_newline_from(s, from);
        let stop = line_stop(s, from);
        let content = content_stop(s, from);
        let line = s.subrange(from, stop);
        assert(is_one_line(line));
        assert(line.last() == '\n' || stop == s.len());
        lemma_newline_is(
            line,
            0,
            if line.last() == '\n' {
                line.len() - 1
            } else {
                line.len() as int
            },
        );
        assert(content_stop(line, 0) == content - from);
        assert(line.subrange(0, content - from) == s.subrange(from, content));
        assert(line + s.skip(stop) == s.skip(from));
        if is_ignore_marker(s.subrange(from, content)) && stop < s.len() {
            lemma_line_shift(s, stop);
            lemma_newline_from(s, stop);
            lemma_placeholder();
            let next_stop = line_stop(s, stop);
            let next_content = content_stop(s, stop);
            let rest = preprocessed(s, next_stop);
            let taken = s.subrange(stop, next_content);
            let ending = s.subrange(next_content, next_stop);
            let held = placeholder() + ending;
            let info = before + (seq![taken] + rest.1);
            assert(preprocessed(s, from).0 == line + placeholder() + ending + rest.0);
            assert(line + placeholder() + ending + rest.0 == line + (held + rest.0));
            assert(preprocessed(s, from).1 == seq![taken] + rest.1);
            lemma_reinserted_first(line, held + rest.0, info, next);
            assert(is_one_line(held));
            assert(held.last() == '\n' || rest.0.len() == 0) by {
                if next_stop == s.len() {
                    assert(preprocessed(s, next_stop).0 == Seq::<char>::empty());
                }
            }
            lemma_newline_is(
                held,
                0,
                if held.last() == '\n' {
                    held.len() - 1
                } else {
                    held.len() as int
                },
            );
            assert(content_stop(held, 0) == placeholder().len());
            assert(held.subrange(0, placeholder().len() as int) == placeholder());
            assert(held.subrange(placeholder().len() as int, held.len() as int) == ending);
            lemma_reinserted_first(held, rest.0, info, next);
            assert(info[next] == taken);
            assert(before + (seq![taken] + rest.1) == (before + seq![taken]) + rest.1);
            assert(no_placeholder_lines(s, stop));
            lemma_lines_come_back(s, next_stop, before + seq![taken]);
            assert(line + (taken + ending + s.skip(next_stop)) == s.skip(from));
        } else {
            let rest = preprocessed(s, stop);
            assert(preprocessed(s, from).0 == line + rest.0);
            assert(line.last() == '\n' || rest.0.len() == 0) by {
                if stop == s.len() {
                    assert(preprocessed(s, stop).0 == Seq::<char>::empty());
                }
            }
            lemma_reinserted_first(line, rest.0, before + rest.1, next);
            lemma_lines_come_back(s, stop, before);
        }
    } else {
        assert(s.skip(from) == Seq::<char>::empty());
    }
}

/// Taking lines out and putting them back restores the text: where no line
/// of `source` is the placeholder itself, what `reinsert_ignored_lines_in_source`
/// makes of what `preprocess_source_for_ignore` gives is `source`.
pub proof fn lemma_ignored_lines_come_back(source: Seq<char>)
    requires
        no_placeholder_lines(source, 0),
    ensures
        reinserted(preprocessed(source, 0).0, 0, preprocessed(source, 0).1, 0) == source,
{
    lemma_lines_come_back(source, 0, Seq::empty());
    assert(Seq::<Seq<char>>::empty() + preprocessed(source, 0).1 == preprocessed(source, 0).1);
    assert(source.skip(0) == source);
}

/// Where the line of `v` that starts at `from` stops, without and with its
/// line break.
fn line_bounds(v: &Vec<char>, from: usize) -> (r: (usize, usize))
    requires
        from < v.len(),
    ensures
        r.0 == content_stop(v@, from as int),
        r.1 == line_stop(v@, from as int),
        from <= r.0 <= r.1 <= v.len(),
        from < r.1,
{
    let feed = newline_index(v, from);
    let stop = if feed < v.len() {
        feed + 1
    } else {
        v.len()
    };
    let content = if from < feed && feed < v.len() && v[feed - 1] == '\r' {
        feed - 1
    } else {
        feed
    };
    (content, stop)
}

/// Tells whether `line` asks that the next line be left alone.
fn ignore_marker(line: &Vec<char>) -> (b: bool)
    ensures
        b == is_ignore_marker(line@),
{
    let k = comment_index(line);
    if k >= line.len() {
        return false;
    }
    proof {
        lemma_find_comment_bounds(line@, 0);
    }
    let after = slice_of(line, k + 2, line.len());
    assert(after@ == line@.skip(k + 2));
    let comment = trimmed(&after);
    let marker = chars_of("maudfmt-ignore");
    starts_with(&comment, &marker)
}

/// Puts the placeholder in the place of each line that follows a comment
/// starting with `maudfmt-ignore`, and returns the text with the lines that
/// were taken out, in order.
pub fn preprocess_source_for_ignore(source: &str) -> (r: (String, Vec<String>))
    ensures
        r.0@ == preprocessed(source@, 0).0,
        texts(r.1@) == preprocessed(source@, 0).1,
{
    let v = chars_of(source);
    let hold = chars_of("\"__MAUDFMT_IGNORED_PLACEHOLDER__\"");
    let mut out: Vec<char> = Vec::new();
    let mut info: Vec<String> = Vec::new();
    let mut pos: usize = 0;
    assert(out@ + preprocessed(v@, 0).0 == preprocessed(v@, 0).0);
    assert(texts(info@) + preprocessed(v@, 0).1 == preprocessed(v@, 0).1);
    while pos < v.len()
        invariant
            pos <= v.len(),
            hold@ == placeholder(),
            out@ + preprocessed(v@, pos as int).0 == preprocessed(v@, 0).0,
            texts(info@) + preprocessed(v@, pos as int).1 == preprocessed(v@, 0).1,
        decreases v.len() - pos,
    {
        let ghost out0 = out@;
        let ghost info0 = texts(info@);
        let (content, stop) = line_bounds(&v, pos);
        let line = slice_of(&v, pos, content);
        let whole = slice_of(&v, pos, stop);
        append_chars(&mut out, &whole);
        if ignore_marker(&line) && stop < v.len() {
            let (next_content, next_stop) = line_bounds(&v, stop);
            let taken = slice_of(&v, stop, next_content);
            let ending = slice_of(&v, next_content, next_stop);
            append_chars(&mut out, &hold);
            append_chars(&mut out, &ending);
            let kept = string_of(&taken);
            info.push(kept);
            proof {
                let rest = preprocessed(v@, next_stop as int);
                assert(texts(info@) == info0 + seq![taken@]);
                assert(info0 + (seq![taken@] + rest.1) == (info0 + seq![taken@]) + rest.1);
                assert(out@ == out0 + whole@ + hold@ + ending@);
                assert(out0 + (whole@ + hold@ + ending@ + rest.0) == out0 + whole@ + hold@
                    + ending@ + rest.0);
            }
            pos = next_stop;
        } else {
            proof {
                let rest = preprocessed(v@, stop as int);
                assert(out0 + (whole@ + rest.0) == out0 + whole@ + rest.0);
            }
            pos = stop;
        }
    }
    assert(out@ + Seq::<char>::empty() == out@);
    assert(texts(info@) + Seq::<Seq<char>>::empty() == texts(info@));
    (string_of(&out), info)
}

/// Puts the lines `ignore_info` back, in order, in the place of the lines
/// of `formatted_source` that are the placeholder.
pub fn reinsert_ignored_lines_in_source(formatted_source: &str, ignore_info: &Vec<String>) -> (r:
    String)
    ensures
        r@ == reinserted(formatted_source@, 0, texts(ignore_info@), 0),
{
    let v = chars_of(formatted_source);
    let hold = chars_of("\"__MAUDFMT_IGNORED_PLACEHOLDER__\"");
    let mut out: Vec<char> = Vec::new();
    let mut next: usize = 0;
    let mut pos: usize = 0;
    let ghost info = texts(ignore_info@);
    assert(out@ + reinserted(v@, 0, info, 0) == reinserted(v@, 0, info, 0));
    while pos < v.len()
        invariant
            pos <= v.len(),
            next <= ignore_info.len(),
            hold@ == placeholder(),
            info == texts(ignore_info@),
            out@ + reinserted(v@, pos as int, info, next as int) == reinserted(v@, 0, info, 0),
        decreases v.len() - pos,
    {
        let ghost out0 = out@;
        let (content, stop) = line_bounds(&v, pos);
        let line = slice_of(&v, pos, content);
        if next < ignore_info.len() && same_chars(&trimmed(&line), &hold) {
            let ending = slice_of(&v, content, stop);
            append_str(&mut out, ignore_info[next].as_str());
            append_chars(&mut out, &ending);
            proof {
                let rest = reinserted(v@, stop as int, info, next + 1);
                assert(info[next as int] == ignore_info@[next as int]@);
                assert(out0 + (info[next as int] + ending@ + rest) == out0 + info[next as int]
                    + ending@ + rest);
            }
            next += 1;
        } else {
            let whole = slice_of(&v, pos, stop);
            append_chars(&mut out, &whole);
            proof {
                let rest = reinserted(v@, stop as int, info, next as int);
                assert(out0 + (whole@ + rest) == out0 + whole@ + rest);
            }
        }
        pos = stop;
    }
    assert(out@ + Seq::<char>::empty() == out@);
    string_of(&out)
}


/// The text of a whole file after formatting: the invocations `macros` of
/// the text `processed` are replaced by their printed form, and, where
/// lines were taken out before, they are put back.
pub open spec fn formatted_file(
    processed: Seq<char>,
    macros: Seq<MaudMacro>,
    ignore_info: Seq<Seq<char>>,
    options: FormatOptions,
    table: Seq<Rendering>,
) -> Seq<char> {
    let text = vstd::utf8::decode_utf8(
        patched(bytes_of(processed), 0, macro_patches(processed, macros, options, table, 0), 0),
    );
    if ignore_info.len() == 0 {
        text
    } else {
        reinserted(text, 0, ignore_info, 0)
    }
}

/// Formats a file whose lines to be left alone have been taken out:
/// `processed` is the text and `ignore_info` the lines that
/// `preprocess_source_for_ignore` gave, `macros` the invocations found in
/// `processed`, and `table` what the host renderer made of the files that
/// were handed to it.
pub fn format_processed(
    processed: &str,
    macros: &Vec<MaudMacro>,
    ignore_info: &Vec<String>,
    options: &FormatOptions,
    table: &Vec<Rendering>,
) -> (r: String)
    ensures
        r@ == formatted_file(processed@, macros@, texts(ignore_info@), *options, table@),
{
    let mut rope = rope_of(processed);
    let formatted = format_source(&mut rope, macros, options, table);
    proof {
        vstd::utf8::encode_utf8_decode_utf8(formatted@);
    }
    if ignore_info.len() == 0 {
        formatted
    } else {
        reinsert_ignored_lines_in_source(formatted.as_str(), ignore_info)
    }
}

/// With no lines to put back, the text stays as it is.
proof fn lemma_nothing_put_back(s: Seq<char>, from: int, next: int)
    requires
        0 <= from <= s.len(),
    ensures
        reinserted(s, from, Seq::empty(), next) == s.skip(from),
    decreases s.len() - from,
{
    if from < s.len() {
        lemma_line_shift(s, from);
        let stop = line_stop(s, from);
        lemma_nothing_put_back(s, stop, next);
        assert(s.subrange(from, stop) + s.skip(stop) == s.skip(from));
    } else {
        assert(s.skip(from) == Seq::<char>::empty());
    }
}

/// A file without invocations stays as it is: where no line of `source` is
/// the placeholder itself, formatting what is left of it when the lines to
/// be left alone are taken out, with no invocations found, gives `source`.
pub proof fn lemma_file_without_invocations_stays(
    source: Seq<char>,
    options: FormatOptions,
    table: Seq<Rendering>,
)
    requires
        no_placeholder_lines(source, 0),
    ensures
        formatted_file(
            preprocessed(source, 0).0,
            Seq::empty(),
            preprocessed(source, 0).1,
            options,
            table,
        ) == source,
{
    let processed = preprocessed(source, 0).0;
    let info = preprocessed(source, 0).1;
    let none = Seq::<MaudMacro>::empty();
    assert(macro_patches(processed, none, options, table, 0) == Seq::<Patch>::empty());
    vstd::utf8::encode_utf8_decode_utf8(processed);
    lemma_ignored_lines_come_back(source);
    if info.len() == 0 {
        assert(info == Seq::<Seq<char>>::empty());
        lemma_nothing_put_back(processed, 0, 0);
        assert(processed.skip(0) == processed);
    }
}

} // verus!
