//! Template invocations as they are found in a source file.

use crate::ast::{LineColumn, Markups, Span};
use crate::text::{append_chars, append_str, chars_of, same_chars, string_of, texts};
use vstd::prelude::*;

verus! {

/// One invocation of a template macro.
#[derive(Debug)]
pub struct MaudMacro {
    /// The path of the macro as it is written, segments joined by `::`.
    pub macro_name: String,
    /// The indentation of the line on which the invocation starts.
    pub indent: Indent,
    /// Where the path of the macro starts.
    pub start: LineColumn,
    /// The extent of the delimiters around the template, both included.
    pub delimiter: Span,
    /// The template, where it could be parsed.
    pub markups: Option<Markups>,
}

/// The white space at the start of a line.
#[derive(Clone, Copy, Debug, PartialEq, Eq, Structural)]
pub struct Indent {
    pub tabs: usize,
    pub spaces: usize,
}

/// `c` is a space or a tab.
pub open spec fn is_blank_char(c: char) -> bool {
    c == ' ' || c == '\t'
}

/// The number of spaces and tabs that `line` starts with.
pub open spec fn blank_run(line: Seq<char>) -> nat
    decreases line.len(),
{
    if line.len() > 0 && is_blank_char(line.first()) {
        1 + blank_run(line.drop_first())
    } else {
        0
    }
}

/// The number of characters among the first `n` of `line` that are `c`.
pub open spec fn count_of(line: Seq<char>, n: int, c: char) -> nat
    decreases n,
{
    if n <= 0 || n > line.len() {
        0
    } else {
        count_of(line, n - 1, c) + if line[n - 1] == c {
            1nat
        } else {
            0nat
        }
    }
}

/// The indentation of `line`: the tabs and the spaces among the spaces and
/// tabs that it starts with.
pub open spec fn indent_of(line: Seq<char>) -> Indent {
    Indent {
        tabs: count_of(line, blank_run(line) as int, '\t') as usize,
        spaces: count_of(line, blank_run(line) as int, ' ') as usize,
    }
}

/// A line that starts with `n` spaces and tabs starts with as many of them
/// as these and those that follow them.
proof fn lemma_blank_run_skip(line: Seq<char>, n: int)
    requires
        0 <= n <= line.len(),
        forall|j: int| 0 <= j < n ==> is_blank_char(line[j]),
    ensures
        blank_run(line) == n + blank_run(line.skip(n)),
    decreases n,
{
    if n == 0 {
        assert(line.skip(0) == line);
    } else {
        assert(line.drop_first().skip(n - 1) == line.skip(n));
        lemma_blank_run_skip(line.drop_first(), n - 1);
    }
}

impl Indent {
    /// The indentation of a line.
    pub fn of_line(line: &str) -> (indent: Indent)
        ensures
            indent == indent_of(line@),
    {
        let chars = chars_of(line);
        let mut tabs: usize = 0;
        let mut spaces: usize = 0;
        let mut i: usize = 0;
        while i < chars.len() && (chars[i] == ' ' || chars[i] == '\t')
            invariant
                i <= chars.len(),
                forall|j: int| 0 <= j < i ==> is_blank_char(chars@[j]),
                tabs == count_of(chars@, i as int, '\t'),
                spaces == count_of(chars@, i as int, ' '),
                tabs <= i,
                spaces <= i,
            decreases chars.len() - i,
        {
            if chars[i] == '\t' {
                tabs += 1;
            } else {
                spaces += 1;
            }
            i += 1;
        }
        proof {
            lemma_blank_run_skip(chars@, i as int);
        }
        Indent { tabs, spaces }
    }

    /// The number of indentation levels: one for each tab and one for each
    /// four spaces, as far as a machine word holds it.
    pub open spec fn levels(self) -> usize {
        if self.tabs + self.spaces / 4 <= usize::MAX {
            (self.tabs + self.spaces / 4) as usize
        } else {
            usize::MAX
        }
    }

    /// The number of indentation levels.
    pub fn level_count(&self) -> (n: usize)
        ensures
            n == self.levels(),
    {
        let by_spaces = self.spaces / 4;
        if by_spaces <= usize::MAX - self.tabs {
            self.tabs + by_spaces
        } else {
            usize::MAX
        }
    }
}

/// The segments `segments` from index `from` on, each with `::` before it.
pub open spec fn path_tail(segments: Seq<Seq<char>>, from: int) -> Seq<char>
    decreases segments.len() - from,
{
    if 0 <= from < segments.len() {
        seq![':', ':'] + segments[from] + path_tail(segments, from + 1)
    } else {
        Seq::empty()
    }
}

/// The path made of `segments`, joined by `::`.
pub open spec fn full_path(segments: Seq<Seq<char>>) -> Seq<char> {
    if segments.len() == 0 {
        Seq::empty()
    } else {
        segments[0] + path_tail(segments, 1)
    }
}

/// The path of a macro as it is written: its segments joined by `::`.
pub fn get_macro_full_path(segments: &Vec<String>) -> (path: String)
    ensures
        path@ == full_path(texts(segments@)),
{
    let mut r: Vec<char> = Vec::new();
    let mut i: usize = segments.len();
    while i > 1
        invariant
            i <= segments.len(),
            segments.len() >= 1 ==> i >= 1,
            r@ == path_tail(texts(segments@), i as int),
        decreases i,
    {
        i -= 1;
        let mut piece: Vec<char> = Vec::new();
        piece.push(':');
        piece.push(':');
        assert(piece@ == seq![':', ':']);
        append_str(&mut piece, segments[i].as_str());
        append_chars(&mut piece, &r);
        assert(texts(segments@)[i as int] == segments@[i as int]@);
        r = piece;
    }
    if segments.len() == 0 {
        string_of(&r)
    } else {
        let mut whole = chars_of(segments[0].as_str());
        append_chars(&mut whole, &r);
        string_of(&whole)
    }
}

/// `name` is one of `names`.
pub open spec fn is_listed(name: Seq<char>, names: Seq<Seq<char>>) -> bool {
    exists|i: int| 0 <= i < names.len() && names[i] == name
}

/// Tells whether a macro called `name` is to be formatted: it is one of the
/// recognized names, and no enclosing item or statement is marked to be
/// skipped.
pub fn should_format(name: &str, macro_names: &Vec<String>, skip_count: usize) -> (b: bool)
    ensures
        b == (is_listed(name@, texts(macro_names@)) && skip_count == 0),
{
    let wanted = chars_of(name);
    let mut i: usize = 0;
    while i < macro_names.len()
        invariant
            i <= macro_names.len(),
            wanted@ == name@,
            forall|j: int| 0 <= j < i ==> texts(macro_names@)[j] != name@,
        decreases macro_names.len() - i,
    {
        let candidate = chars_of(macro_names[i].as_str());
        if same_chars(&candidate, &wanted) {
            assert(texts(macro_names@)[i as int] == name@);
            return skip_count == 0;
        }
        i += 1;
    }
    false
}

/// Tells whether an attribute marks its item or statement to be skipped:
/// an outer attribute that is the bare path `rustfmt::skip`.
pub fn attr_is_rustfmt_skip(segments: &Vec<String>, is_outer: bool, is_bare_path: bool) -> (b:
    bool)
    ensures
        b == (is_bare_path && is_outer && segments@.len() == 2 && segments@[0]@ == "rustfmt"@
            && segments@[1]@ == "skip"@),
{
    if !is_bare_path || !is_outer || segments.len() != 2 {
        return false;
    }
    let first = chars_of(segments[0].as_str());
    let second = chars_of(segments[1].as_str());
    let rustfmt = chars_of("rustfmt");
    let skip = chars_of("skip");
    same_chars(&first, &rustfmt) && same_chars(&second, &skip)
}

} // verus!
