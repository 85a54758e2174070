//! Rendering of host-language fragments at a given indentation.
//!
//! The host renderer prints a whole file at column 0 and has no parameter
//! for the indentation. A fragment is therefore put inside `fn main` and as
//! many nested scopes as the indentation asks for, each scope opened by an
//! empty doc comment that keeps the renderer from collapsing it; the file is
//! rendered, and the lines of the wrapping are cut off again.
//!
//! The renderer itself is not called here. The files to render are handed
//! to the caller, who renders them and hands the results back in a table;
//! a fragment whose file is not in the table yet is asked for.

use crate::ast::{Local, Pat};
use crate::text::{
    append_chars, append_str, chars_of, has_prefix, has_suffix, is_padded, lines, rows, slice_of,
    spaces, split_lines, starts_with, string_of, texts, trim, trimmed,
};
use vstd::prelude::*;

verus! {

/// Why a fragment could not be rendered.
#[derive(Clone, Copy, Debug, PartialEq, Eq, Structural)]
pub enum RenderFailure {
    /// The host renderer failed on the wrapped fragment.
    Rejected,
    /// The rendered text does not have the shape that the wrapping gives it.
    Unexpected,
    /// The table holds no rendering of the wrapped fragment yet.
    Missing,
}

/// What the host renderer made of one file: the text that was handed to it,
/// and the rendered file, or `None` where the renderer failed on it.
#[derive(Debug)]
pub struct Rendering {
    /// The file that was handed to the renderer.
    pub text: String,
    /// The rendered file; `None` where the renderer failed.
    pub rendered: Option<String>,
}

/// What the first rendering of `text` in `table` from index `from` on
/// holds; `None` where there is none.
pub open spec fn answer(table: Seq<Rendering>, text: Seq<char>, from: int) -> Option<
    Option<Seq<char>>,
>
    decreases table.len() - from,
{
    if from < 0 || from >= table.len() {
        None
    } else if table[from].text@ == text {
        Some(opt_chars(table[from].rendered))
    } else {
        answer(table, text, from + 1)
    }
}

/// The characters of an optional string.
pub open spec fn opt_chars(s: Option<String>) -> Option<Seq<char>> {
    match s {
        Some(s) => Some(s@),
        None => None,
    }
}

/// Looks the rendering of `text` up in `table`.
pub fn look_up(table: &Vec<Rendering>, text: &str) -> (r: Option<Option<String>>)
    ensures
        match r {
            Some(found) => answer(table@, text@, 0) == Some(opt_chars(found)),
            None => answer(table@, text@, 0).is_none(),
        },
{
    let wanted = chars_of(text);
    let mut i: usize = 0;
    while i < table.len()
        invariant
            i <= table.len(),
            wanted@ == text@,
            answer(table@, text@, 0) == answer(table@, text@, i as int),
        decreases table.len() - i,
    {
        let held = chars_of(table[i].text.as_str());
        if crate::text::same_chars(&held, &wanted) {
            return Some(
                match &table[i].rendered {
                    Some(rendered) => Some(rendered.clone()),
                    None => None,
                },
            );
        }
        i += 1;
    }
    None
}

/// `n` copies of `s`, one after the other.
pub open spec fn repeat(s: Seq<char>, n: nat) -> Seq<char>
    decreases n,
{
    if n == 0 {
        Seq::empty()
    } else {
        repeat(s, (n - 1) as nat) + s
    }
}

/// The file that wraps `tokens` in `depth` scopes.
pub open spec fn wrapped(tokens: Seq<char>, depth: nat) -> Seq<char> {
    "fn main() {\n"@ + repeat("{\n///\n"@, depth) + tokens + repeat("\n}"@, depth) + "\n}\n"@
}

/// The scope at nesting level `k`, counted from 0, is rendered as expected
/// in `rows`: the lines that open it are the brace and the empty doc
/// comment, the line that closes it is the brace, each at its indentation.
pub open spec fn scope_intact(rows: Seq<Seq<char>>, k: int) -> bool {
    &&& rows[2 * k] == spaces(4 * (k + 1) as nat) + "{"@
    &&& rows[2 * k + 1] == spaces(4 * (k + 2) as nat) + "///"@
    &&& rows[rows.len() - 1 - k] == spaces(4 * (k + 1) as nat) + "}"@
}

/// The `depth` scopes of the wrapping are rendered as expected in `rows`.
pub open spec fn wrapping_intact(rows: Seq<Seq<char>>, depth: nat) -> bool {
    3 * depth <= rows.len() && forall|k: int| 0 <= k < depth ==> scope_intact(rows, k)
}

/// The lines of a rendered file that belong to the fragment: the file
/// without the first and last line of `fn main`, without the two lines that
/// open each of the `depth` scopes and the line that closes each. The
/// rendering is unexpected where those lines are not the wrapping as it is
/// expected to be rendered.
pub open spec fn unwrapped(rendered: Seq<char>, depth: nat) -> Result<
    Seq<Seq<char>>,
    RenderFailure,
> {
    let head = "fn main() {\n"@;
    let foot = "}\n"@;
    if has_prefix(rendered, head) && has_suffix(rendered.skip(head.len() as int), foot) {
        let rows = lines(rendered.subrange(head.len() as int, rendered.len() - foot.len()));
        if wrapping_intact(rows, depth) {
            Ok(rows.subrange(2 * depth as int, rows.len() - depth))
        } else {
            Err(RenderFailure::Unexpected)
        }
    } else {
        Err(RenderFailure::Unexpected)
    }
}

/// The lines that render `tokens` at `depth` levels of indentation, as far
/// as `table` tells: those of the rendering of the wrapped fragment that it
/// holds.
pub open spec fn unparsed(table: Seq<Rendering>, tokens: Seq<char>, depth: nat) -> Result<
    Seq<Seq<char>>,
    RenderFailure,
> {
    match answer(table, wrapped(tokens, depth), 0) {
        Some(Some(rendered)) => unwrapped(rendered, depth),
        Some(None) => Err(RenderFailure::Rejected),
        None => Err(RenderFailure::Missing),
    }
}

/// The statement that a pattern is rendered in.
pub open spec fn pat_statement(tokens: Seq<char>) -> Seq<char> {
    "let "@ + tokens + ";"@
}

/// The statement that a `let` binding is rendered in.
pub open spec fn local_statement(tokens: Seq<char>) -> Seq<char> {
    tokens + ";"@
}

/// `s` without the prefix `p`, where it has it.
pub open spec fn without_prefix(s: Seq<char>, p: Seq<char>) -> Option<Seq<char>> {
    if has_prefix(s, p) {
        Some(s.skip(p.len() as int))
    } else {
        None
    }
}

/// `s` without the suffix `p`, where it has it.
pub open spec fn without_suffix(s: Seq<char>, p: Seq<char>) -> Option<Seq<char>> {
    if has_suffix(s, p) {
        Some(s.take(s.len() - p.len()))
    } else {
        None
    }
}

/// The rendered lines of a statement, without the `let ` that the first
/// line starts with (`cut_let`) and without the semicolon that the last
/// line ends with. A single line is trimmed first; of several lines the
/// first is trimmed where `cut_let` holds.
pub open spec fn bare(rows: Seq<Seq<char>>, cut_let: bool) -> Result<
    Seq<Seq<char>>,
    RenderFailure,
> {
    if rows.len() == 0 {
        Ok(rows)
    } else {
        let first = if cut_let {
            without_prefix(trim(rows[0]), "let "@)
        } else if rows.len() == 1 {
            Some(trim(rows[0]))
        } else {
            Some(rows[0])
        };
        match first {
            Some(first) => {
                let opened = rows.update(0, first);
                match without_suffix(opened.last(), ";"@) {
                    Some(last) => Ok(opened.update(opened.len() - 1, last)),
                    None => Err(RenderFailure::Unexpected),
                }
            },
            None => Err(RenderFailure::Unexpected),
        }
    }
}

/// The outcome of rendering, with each line as its characters.
pub open spec fn outcome(r: Result<Vec<String>, RenderFailure>) -> Result<
    Seq<Seq<char>>,
    RenderFailure,
> {
    match r {
        Ok(v) => Ok(texts(v@)),
        Err(e) => Err(e),
    }
}

/// The lines that render a pattern at `depth` levels of indentation.
pub open spec fn pat_rows(table: Seq<Rendering>, tokens: Seq<char>, depth: nat) -> Result<
    Seq<Seq<char>>,
    RenderFailure,
> {
    match unparsed(table, pat_statement(tokens), depth) {
        Ok(rows) => bare(rows, true),
        Err(e) => Err(e),
    }
}

/// The lines that render a `let` binding, without its semicolon, at `depth`
/// levels of indentation.
pub open spec fn local_rows(table: Seq<Rendering>, tokens: Seq<char>, depth: nat) -> Result<
    Seq<Seq<char>>,
    RenderFailure,
> {
    match unparsed(table, local_statement(tokens), depth) {
        Ok(rows) => bare(rows, false),
        Err(e) => Err(e),
    }
}

/// `n` copies of `s`, one after the other.
fn repeated(s: &str, n: usize) -> (r: Vec<char>)
    ensures
        r@ == repeat(s@, n as nat),
{
    let unit = chars_of(s);
    let mut r: Vec<char> = Vec::new();
    let mut i: usize = 0;
    while i < n
        invariant
            i <= n,
            unit@ == s@,
            r@ == repeat(s@, i as nat),
        decreases n - i,
    {
        append_chars(&mut r, &unit);
        i += 1;
    }
    r
}

/// The lines of `lines` from index `from` up to `to`, as strings.
fn strings_of(lines: &Vec<Vec<char>>, from: usize, to: usize) -> (r: Vec<String>)
    requires
        from <= to <= lines.len(),
    ensures
        texts(r@) == rows(lines@).subrange(from as int, to as int),
{
    let mut r: Vec<String> = Vec::new();
    let mut i: usize = from;
    while i < to
        invariant
            from <= i <= to <= lines.len(),
            texts(r@) == rows(lines@).subrange(from as int, i as int),
        decreases to - i,
    {
        let ghost before = texts(r@);
        let s = string_of(&lines[i]);
        r.push(s);
        assert(texts(r@) == before.push(s@));
        i += 1;
        assert(rows(lines@).subrange(from as int, i as int) == rows(lines@).subrange(
            from as int,
            i - 1,
        ).push(lines@[i - 1]@));
    }
    r
}

/// Tells whether the `depth` scopes of the wrapping are rendered as expected
/// in `all`.
fn wrapping_found(all: &Vec<Vec<char>>, depth: usize) -> (b: bool)
    ensures
        b == wrapping_intact(rows(all@), depth as nat),
{
    if depth > all.len() / 3 {
        return false;
    }
    let open = chars_of("{");
    let doc = chars_of("///");
    let close = chars_of("}");
    let mut k: usize = 0;
    while k < depth
        invariant
            k <= depth,
            3 * depth <= all.len(),
            open@ == "{"@,
            doc@ == "///"@,
            close@ == "}"@,
            forall|j: int| 0 <= j < k ==> scope_intact(rows(all@), j),
        decreases depth - k,
    {
        let intact = is_padded(&all[2 * k], k + 1, &open) && is_padded(
            &all[2 * k + 1],
            k + 2,
            &doc,
        ) && is_padded(&all[all.len() - 1 - k], k + 1, &close);
        if !intact {
            assert(!scope_intact(rows(all@), k as int));
            return false;
        }
        k += 1;
    }
    true
}

/// Cuts the wrapping off a rendered file: the lines that belong to the
/// fragment that was wrapped in `depth` scopes.
pub fn unwrap_rendered(rendered: &str, depth: usize) -> (r: Result<Vec<String>, RenderFailure>)
    ensures
        outcome(r) == unwrapped(rendered@, depth as nat),
{
    let text = chars_of(rendered);
    let head = chars_of("fn main() {\n");
    let foot = chars_of("}\n");
    if !starts_with(&text, &head) {
        return Err(RenderFailure::Unexpected);
    }
    let rest = slice_of(&text, head.len(), text.len());
    assert(rest@ == text@.skip(head.len() as int));
    if rest.len() < foot.len() {
        return Err(RenderFailure::Unexpected);
    }
    let tail = slice_of(&rest, rest.len() - foot.len(), rest.len());
    assert(tail@ == rest@.skip(rest.len() - foot.len()));
    if !crate::text::same_chars(&tail, &foot) {
        return Err(RenderFailure::Unexpected);
    }
    let body = slice_of(&rest, 0, rest.len() - foot.len());
    assert(body@ == text@.subrange(head.len() as int, text.len() - foot.len()));
    let all = split_lines(&body);
    assert(all@.len() == rows(all@).len());
    if !wrapping_found(&all, depth) {
        return Err(RenderFailure::Unexpected);
    }
    assert(3 * depth <= all.len());
    Ok(strings_of(&all, 2 * depth, all.len() - depth))
}

/// The file that wraps `tokens` in `depth` scopes: what is handed to the
/// host renderer.
pub fn wrap(tokens: &str, depth: usize) -> (file: String)
    ensures
        file@ == wrapped(tokens@, depth as nat),
{
    let mut file = chars_of("fn main() {\n");
    let opens = repeated("{\n///\n", depth);
    append_chars(&mut file, &opens);
    append_str(&mut file, tokens);
    let closes = repeated("\n}", depth);
    append_chars(&mut file, &closes);
    append_str(&mut file, "\n}\n");
    string_of(&file)
}

/// The lines that render `tokens` at `total_indent_size` levels of
/// indentation, as far as `table` tells.
pub fn unparse(table: &Vec<Rendering>, tokens: &str, total_indent_size: usize) -> (r: Result<
    Vec<String>,
    RenderFailure,
>)
    ensures
        outcome(r) == unparsed(table@, tokens@, total_indent_size as nat),
{
    let file = wrap(tokens, total_indent_size);
    match look_up(table, file.as_str()) {
        Some(Some(rendered)) => unwrap_rendered(rendered.as_str(), total_indent_size),
        Some(None) => Err(RenderFailure::Rejected),
        None => Err(RenderFailure::Missing),
    }
}

/// Cuts `let ` and the closing semicolon off rendered lines.
fn strip_statement(lines: Vec<String>, cut_let: bool) -> (r: Result<Vec<String>, RenderFailure>)
    ensures
        outcome(r) == bare(texts(lines@), cut_let),
{
    let mut lines = lines;
    let n = lines.len();
    if n == 0 {
        return Ok(lines);
    }
    let ghost start = texts(lines@);
    let first_chars = chars_of(lines[0].as_str());
    let first = if cut_let {
        let t = trimmed(&first_chars);
        let p = chars_of("let ");
        if !starts_with(&t, &p) {
            return Err(RenderFailure::Unexpected);
        }
        let cut = slice_of(&t, p.len(), t.len());
        assert(cut@ == t@.skip(p.len() as int));
        cut
    } else if n == 1 {
        trimmed(&first_chars)
    } else {
        first_chars
    };
    lines.set(0, string_of(&first));
    assert(texts(lines@) == start.update(0, first@));
    let ghost opened = texts(lines@);
    let last_chars = chars_of(lines[n - 1].as_str());
    let semi = chars_of(";");
    if last_chars.len() < semi.len() {
        return Err(RenderFailure::Unexpected);
    }
    let tail = slice_of(&last_chars, last_chars.len() - semi.len(), last_chars.len());
    assert(tail@ == last_chars@.skip(last_chars.len() - semi.len()));
    if !crate::text::same_chars(&tail, &semi) {
        return Err(RenderFailure::Unexpected);
    }
    let last = slice_of(&last_chars, 0, last_chars.len() - semi.len());
    assert(last@ == last_chars@.take(last_chars.len() - semi.len()));
    lines.set(n - 1, string_of(&last));
    assert(texts(lines@) == opened.update(n - 1, last@));
    Ok(lines)
}

/// The statement that the pattern `pat` is rendered in.
pub fn pat_tokens(pat: &Pat) -> (r: String)
    ensures
        r@ == pat_statement(pat.tokens@),
{
    let mut tokens = chars_of("let ");
    append_str(&mut tokens, pat.tokens.as_str());
    append_str(&mut tokens, ";");
    string_of(&tokens)
}

/// The statement that the binding `local` is rendered in.
pub fn local_tokens(local: &Local) -> (r: String)
    ensures
        r@ == local_statement(local.tokens@),
{
    let mut tokens = chars_of(local.tokens.as_str());
    append_str(&mut tokens, ";");
    string_of(&tokens)
}

/// The lines that render a pattern at `total_indent_size` levels of
/// indentation, as far as `table` tells.
pub fn unparse_pat(table: &Vec<Rendering>, pat: &Pat, total_indent_size: usize) -> (r: Result<
    Vec<String>,
    RenderFailure,
>)
    ensures
        outcome(r) == pat_rows(table@, pat.tokens@, total_indent_size as nat),
{
    let text = pat_tokens(pat);
    match unparse(table, text.as_str(), total_indent_size) {
        Ok(lines) => strip_statement(lines, true),
        Err(e) => Err(e),
    }
}

/// The lines that render a `let` binding, without its semicolon, at
/// `total_indent_size` levels of indentation, as far as `table` tells.
pub fn unparse_local(table: &Vec<Rendering>, local: &Local, total_indent_size: usize) -> (r:
    Result<Vec<String>, RenderFailure>)
    ensures
        outcome(r) == local_rows(table@, local.tokens@, total_indent_size as nat),
{
    let text = local_tokens(local);
    match unparse(table, text.as_str(), total_indent_size) {
        Ok(lines) => strip_statement(lines, false),
        Err(e) => Err(e),
    }
}

/// The lines that render the tokens of an expression at
/// `total_indent_size` levels of indentation, as far as `table` tells.
pub fn unparse_expr(table: &Vec<Rendering>, tokens: &str, total_indent_size: usize) -> (r: Result<
    Vec<String>,
    RenderFailure,
>)
    ensures
        outcome(r) == unparsed(table@, tokens@, total_indent_size as nat),
{
    unparse(table, tokens, total_indent_size)
}

/// The lines that render the tokens of a sequence of statements at
/// `total_indent_size` levels of indentation, as far as `table` tells.
pub fn unparse_stmts(table: &Vec<Rendering>, stmts: &str, total_indent_size: usize) -> (r:
    Result<Vec<String>, RenderFailure>)
    ensures
        outcome(r) == unparsed(table@, stmts@, total_indent_size as nat),
{
    unparse(table, stmts, total_indent_size)
}

} // verus!
