//! Comments and blank lines: what the author wrote around a node is found
//! in the source text and printed again with the node.

use crate::ast::{LineColumn, Span};
use crate::print::{add_levels, indentation, indentation_of, level, Ctx, Out, Printer};
use crate::source::{prefix, source_line, source_line_count, src_line, suffix, line_count};
use crate::text::{
    after_comment, all_space, append_chars, before_comment, blank_prefix, comment_at, comment_index,
    find_comment, has_comment, has_prefix, has_suffix, is_blank, is_space,
    lemma_find_comment_bounds, slice_of, trim_end, trim_start, trimmed_end,
};
use vstd::prelude::*;

verus! {

/// What follows the position `loc` on its line.
pub open spec fn rest_of_line(text: Seq<char>, loc: LineColumn) -> Seq<char> {
    suffix(src_line(text, loc.row()), loc.column as int)
}

/// What precedes the position `loc` on its line.
pub open spec fn start_of_line(text: Seq<char>, loc: LineColumn) -> Seq<char> {
    prefix(src_line(text, loc.row()), loc.column as int)
}

/// Nothing but white space, and possibly a comment, follows `loc` on its
/// line.
pub open spec fn is_trailing(text: Seq<char>, loc: LineColumn) -> bool {
    all_space(before_comment(rest_of_line(text, loc)))
}

/// Nothing but white space precedes `loc` on its line.
pub open spec fn is_leading(text: Seq<char>, loc: LineColumn) -> bool {
    all_space(start_of_line(text, loc))
}

/// The text of the comment of `line`: what follows its first comment
/// marker, without trailing white space.
pub open spec fn comment_of(line: Seq<char>) -> Seq<char> {
    trim_end(after_comment(line))
}

/// The comment that follows `loc` on its line, with nothing but white space
/// between them.
pub open spec fn attr_comment(text: Seq<char>, loc: LineColumn) -> Option<Seq<char>> {
    let rest = rest_of_line(text, loc);
    if is_trailing(text, loc) && has_comment(rest) {
        Some(comment_of(rest))
    } else {
        None
    }
}

/// A comment as it is printed: the marker, then the text, with one space
/// between them unless the text is empty or starts with a space already.
pub open spec fn comment_text(comment: Seq<char>) -> Seq<char> {
    if comment.len() == 0 {
        seq!['/', '/']
    } else if comment[0] == ' ' {
        seq!['/', '/'] + comment
    } else {
        seq!['/', '/', ' '] + comment
    }
}

/// `line` holds a comment and nothing but white space before it.
pub open spec fn is_comment_line(line: Seq<char>) -> bool {
    has_comment(line) && all_space(before_comment(line))
}

/// `line` holds something that is neither white space nor comment.
pub open spec fn has_content(line: Seq<char>) -> bool {
    !all_space(before_comment(line))
}

/// The first of the comment lines that stand directly above line `row`;
/// `row` itself where the line above is no comment line.
pub open spec fn comment_run_start(text: Seq<char>, row: int) -> int
    decreases row,
{
    if row > 0 && is_comment_line(src_line(text, row - 1)) {
        comment_run_start(text, row - 1)
    } else {
        row
    }
}

/// Some line of `text` from `from` up to `to` holds a comment marker.
pub open spec fn any_comment(text: Seq<char>, from: int, to: int) -> bool {
    exists|row: int| from <= row < to && has_comment(#[trigger] src_line(text, row))
}

/// Some line of `text` from `from` up to `to` holds content.
pub open spec fn any_content(text: Seq<char>, from: int, to: int) -> bool {
    exists|row: int| from <= row < to && has_content(#[trigger] src_line(text, row))
}

/// The delimiters of `span` are on different lines and a comment stands
/// between or right behind them: a comment marker behind the opening
/// delimiter on its line, on a line between the two, or before the end of
/// the closing delimiter on its line, or a comment that follows the closing
/// delimiter.
pub open spec fn contains_comments(text: Seq<char>, span: Span) -> bool {
    span.start.row() != span.end.row() && (has_comment(rest_of_line(text, span.open_end()))
        || any_comment(text, span.start.row() + 1, span.end.row()) || has_comment(
        start_of_line(text, span.end),
    ) || attr_comment(text, span.end) is Some)
}

impl Out {
    /// The state after a comment with the text `comment` is written: the
    /// current line then ends in a comment.
    pub open spec fn comment(self, comment: Seq<char>) -> Out {
        Out { commented: true, ..self.write(comment_text(comment)) }
    }

    /// The state after the comment that follows `loc` on its line, if there
    /// is one, is written behind two spaces.
    pub open spec fn attr_comment(self, ctx: Ctx, loc: LineColumn) -> Out {
        match attr_comment(ctx.text, loc) {
            Some(c) => self.write(seq![' ', ' ']).comment(c),
            None => self,
        }
    }

    /// The state after the comments of the lines from `from` up to `to` are
    /// written, each followed by a new line.
    pub open spec fn comment_lines(self, ctx: Ctx, from: int, to: int, indent_level: usize) -> Out
        decreases to - from,
    {
        if from < to {
            self.comment(comment_of(src_line(ctx.text, from))).new_line(
                ctx,
                indent_level,
            ).comment_lines(ctx, from + 1, to, indent_level)
        } else {
            self
        }
    }

    /// The state after the current line, without the white space at its
    /// end, is completed and continued on a new line, one level deeper.
    pub open spec fn continued(self) -> Out {
        Out {
            done: self.done + trim_end(self.buf) + seq!['\n'],
            buf: indentation(level(self.depth, 1)),
            commented: false,
            ..self
        }
    }

    /// The state after the comments of the lines from `from` up to `to` are
    /// written one after the other; each but the first begins a new line,
    /// as nothing is written behind a comment.
    pub open spec fn comment_run(self, ctx: Ctx, from: int, to: int) -> Out
        decreases to - from,
    {
        if from < to {
            self.comment(comment_of(src_line(ctx.text, from))).comment_run(ctx, from + 1, to)
        } else {
            self
        }
    }

    /// The state after the comments of the lines from `from` up to `to` are
    /// written below what the current line holds, on lines that continue
    /// it.
    pub open spec fn comment_tail(self, ctx: Ctx, from: int, to: int) -> Out {
        if from < to {
            self.continued().comment_run(ctx, from, to)
        } else {
            self
        }
    }

    /// The state after what leads up to a node at `loc` is written: nothing
    /// unless the node is the first thing on a line other than the first.
    /// Where the line above is blank and blank lines are kept
    /// (`preserve_blank_lines`), one empty line takes the place of the
    /// current line, unless something is written on that already. Else the
    /// comment lines that stand directly above are written, from the top
    /// down, each on a line of its own: before the node where nothing is
    /// written on the current line yet, and else on lines that continue the
    /// current one, on which the node then follows.
    pub open spec fn leading(
        self,
        ctx: Ctx,
        loc: LineColumn,
        indent_level: usize,
        preserve_blank_lines: bool,
    ) -> Out {
        let row = loc.line - 1;
        if loc.line <= 1 || !is_leading(ctx.text, loc) {
            self
        } else if preserve_blank_lines && all_space(src_line(ctx.text, row - 1)) {
            if all_space(self.buf) {
                self.blank_line(ctx, indent_level)
            } else {
                self
            }
        } else if all_space(self.buf) {
            self.comment_lines(ctx, comment_run_start(ctx.text, row), row, indent_level)
        } else {
            self.comment_tail(ctx, comment_run_start(ctx.text, row), row)
        }
    }

    /// The state after each comment on the lines from `from` up to `to` is
    /// written on a line of its own.
    pub open spec fn block_comments(self, ctx: Ctx, from: int, to: int, indent_level: usize) -> Out
        decreases to - from,
    {
        if from < to {
            let line = src_line(ctx.text, from);
            let next = if has_comment(line) {
                self.new_line(ctx, indent_level).comment(comment_of(line))
            } else {
                self
            };
            next.block_comments(ctx, from + 1, to, indent_level)
        } else {
            self
        }
    }

    /// The state after each comment line from `from` up to `to` that no
    /// content follows before `to` is written on a line of its own.
    pub open spec fn trailing_comments(
        self,
        ctx: Ctx,
        from: int,
        to: int,
        indent_level: usize,
    ) -> Out
        decreases to - from,
    {
        if from < to {
            let line = src_line(ctx.text, from);
            let next = if is_comment_line(line) && !any_content(ctx.text, from + 1, to) {
                self.new_line(ctx, indent_level).comment(comment_of(line))
            } else {
                self
            };
            next.trailing_comments(ctx, from + 1, to, indent_level)
        } else {
            self
        }
    }
}

/// Beyond the last line of the source there are no comments to write.
proof fn lemma_block_comments_beyond(
    out: Out,
    ctx: Ctx,
    from: int,
    to: int,
    indent_level: usize,
)
    requires
        line_count(ctx.text) <= from,
    ensures
        out.block_comments(ctx, from, to, indent_level) == out,
        out.trailing_comments(ctx, from, to, indent_level) == out,
    decreases to - from,
{
    if from < to {
        lemma_find_comment_bounds(src_line(ctx.text, from), 0);
        lemma_block_comments_beyond(out, ctx, from + 1, to, indent_level);
    }
}


/// Blank lines collapse to one: above a node that starts its line and is
/// printed at the start of a line, however many blank lines stand there
/// (`count` of them, at least one), a single empty line is written where
/// blank lines are kept, and the indentation that was written gives way to
/// it.
pub proof fn lemma_blank_lines_collapse(
    out: Out,
    ctx: Ctx,
    loc: LineColumn,
    indent_level: usize,
    count: int,
)
    requires
        loc.line > 1,
        is_leading(ctx.text, loc),
        all_space(out.buf),
        count >= 1,
        forall|row: int|
            loc.line - 1 - count <= row < loc.line - 1 ==> all_space(
                #[trigger] src_line(ctx.text, row),
            ),
    ensures
        out.leading(ctx, loc, indent_level, true) == out.blank_line(ctx, indent_level),
        out.leading(ctx, loc, indent_level, true).done == out.done + seq!['\n'],
{
    assert(all_space(src_line(ctx.text, loc.line - 2)));
}

/// No blank line comes from nowhere: above a node whose line follows a line
/// that is neither blank nor a comment, nothing is written; and a blank
/// line is not kept where blank lines are not to be kept.
pub proof fn lemma_no_blank_line_added(
    out: Out,
    ctx: Ctx,
    loc: LineColumn,
    indent_level: usize,
    preserve_blank_lines: bool,
)
    requires
        loc.line > 1,
        !is_comment_line(src_line(ctx.text, loc.line - 2)),
        !preserve_blank_lines || !all_space(src_line(ctx.text, loc.line - 2)),
    ensures
        out.leading(ctx, loc, indent_level, preserve_blank_lines) == out,
{
    let row = loc.line - 1;
    assert(comment_run_start(ctx.text, row) == row);
    assert(out.comment_lines(ctx, row, row, indent_level) == out);
}

/// The comments above a node are kept: above a node that starts its line
/// and is printed at the start of a line, where no blank line is to be kept,
/// the comment lines that stand directly above are written from the top
/// down, each followed by a new line at the level of the node.
pub proof fn lemma_comments_above_are_kept(
    out: Out,
    ctx: Ctx,
    loc: LineColumn,
    indent_level: usize,
    preserve_blank_lines: bool,
)
    requires
        loc.line > 1,
        is_leading(ctx.text, loc),
        all_space(out.buf),
        !preserve_blank_lines || !all_space(src_line(ctx.text, loc.line - 2)),
    ensures
        out.leading(ctx, loc, indent_level, preserve_blank_lines) == out.comment_lines(
            ctx,
            comment_run_start(ctx.text, loc.line - 1),
            loc.line - 1,
            indent_level,
        ),
        is_comment_line(src_line(ctx.text, loc.line - 2)) && !out.commented ==> out.comment_lines(
            ctx,
            loc.line - 2,
            loc.line - 1,
            indent_level,
        ).done == out.done + out.buf + comment_text(comment_of(src_line(ctx.text, loc.line - 2)))
            + seq!['\n'],
{
    let row = loc.line - 1;
    let last = out.comment(comment_of(src_line(ctx.text, row - 1))).new_line(ctx, indent_level);
    assert(last.comment_lines(ctx, row, row, indent_level) == last);
}

/// The comment behind a node is kept: where nothing but white space and a
/// comment follow the position on its line, the comment is written behind
/// two spaces on the current line, and no line is completed; else nothing
/// is written.
pub proof fn lemma_comment_behind_is_kept(out: Out, ctx: Ctx, loc: LineColumn)
    requires
        !out.commented,
    ensures
        attr_comment(ctx.text, loc) is None ==> out.attr_comment(ctx, loc) == out,
        attr_comment(ctx.text, loc) matches Some(comment) ==> {
            &&& out.attr_comment(ctx, loc).done == out.done
            &&& out.attr_comment(ctx, loc).buf == out.buf + seq![' ', ' '] + comment_text(comment)
        },
        attr_comment(ctx.text, loc) is Some <==> is_trailing(ctx.text, loc) && has_comment(
            rest_of_line(ctx.text, loc),
        ),
{
}

/// A comment is printed with its text as it stands: behind the marker comes
/// the text, unchanged, with one space between them where the text does
/// not start with a space itself.
pub proof fn lemma_comment_text_verbatim(comment: Seq<char>)
    ensures
        has_prefix(comment_text(comment), seq!['/', '/']),
        has_suffix(comment_text(comment), comment),
        comment.len() > 0 ==> comment_text(comment)[2] == ' ',
        comment.len() > 0 && comment[0] == ' ' ==> comment_text(comment).len() == 2
            + comment.len(),
        comment.len() > 0 && comment[0] != ' ' ==> comment_text(comment).len() == 3
            + comment.len(),
{
    let printed = comment_text(comment);
    assert(printed.take(2) =~= seq!['/', '/']);
    assert(printed.skip(printed.len() - comment.len()) =~= comment);
}

/// Nothing is written behind a comment on its line: what is written next
/// is dropped where it is white space, and else begins a new line, so that
/// the comment is followed by a line feed.
pub proof fn lemma_nothing_behind_a_comment(out: Out, comment: Seq<char>, next: Seq<char>)
    ensures
        trim_start(next).len() == 0 ==> out.comment(comment).write(next) == out.comment(comment),
        trim_start(next).len() > 0 ==> out.comment(comment).write(next).done == out.comment(
            comment,
        ).text() + seq!['\n'],
        trim_start(next).len() > 0 ==> !out.comment(comment).write(next).commented,
{
}

/// The text of a comment is cut to its last character that is no white
/// space, so it is empty or ends with such a character.
proof fn lemma_trim_end_is_trimmed(s: Seq<char>)
    ensures
        trim_end(s).len() <= s.len(),
        trim_end(s).len() > 0 ==> !is_space(trim_end(s).last()),
        trim_end(trim_end(s)) == trim_end(s),
    decreases s.len(),
{
    if s.len() > 0 && is_space(s.last()) {
        lemma_trim_end_is_trimmed(s.drop_last());
    }
}

/// A printed comment reads back as itself: a line made of indentation and a
/// printed comment is a comment line, and the comment found on it is
/// printed as the same text again.
pub proof fn lemma_comment_reread(comment: Seq<char>, levels: usize)
    requires
        comment == trim_end(comment),
    ensures
        is_comment_line(indentation(levels) + comment_text(comment)),
        comment_text(comment_of(indentation(levels) + comment_text(comment))) == comment_text(
            comment,
        ),
{
    let pad = indentation(levels);
    let line = pad + comment_text(comment);
    let at = pad.len() as int;
    lemma_find_comment_bounds(line, 0);
    assert(comment_at(line, at));
    let found = find_comment(line, 0);
    assert(found == at) by {
        if found < at {
            assert(line[found] == ' ');
        }
    }
    assert(before_comment(line) =~= pad);
    let after = after_comment(line);
    lemma_trim_end_is_trimmed(comment);
    if comment.len() == 0 {
        assert(after =~= Seq::<char>::empty());
    } else if comment[0] == ' ' {
        assert(after =~= comment);
    } else {
        assert(after =~= seq![' '] + comment);
        assert(after.last() == comment.last());
        assert(trim_end(after) == after);
        assert(comment_text(after) =~= comment_text(comment));
    }
}

/// Tells whether `line` holds a comment and nothing but white space before
/// it.
fn comment_line(line: &Vec<char>) -> (b: bool)
    ensures
        b == is_comment_line(line@),
{
    let k = comment_index(line);
    k < line.len() && blank_prefix(line, k)
}

/// Tells whether `line` holds something that is neither white space nor
/// comment.
fn content_line(line: &Vec<char>) -> (b: bool)
    ensures
        b == has_content(line@),
{
    let k = comment_index(line);
    !blank_prefix(line, k)
}

/// The text of the comment of `line`, which must hold one.
fn comment_part(line: &Vec<char>) -> (r: Vec<char>)
    requires
        has_comment(line@),
    ensures
        r@ == comment_of(line@),
{
    let k = comment_index(line);
    proof {
        lemma_find_comment_bounds(line@, 0);
    }
    let after = slice_of(line, k + 2, line.len());
    assert(after@ == line@.skip(k + 2));
    trimmed_end(&after)
}

/// The text of the comment of `line`; empty where it holds none.
fn line_comment(line: &Vec<char>) -> (r: Vec<char>)
    ensures
        r@ == comment_of(line@),
{
    if comment_index(line) < line.len() {
        comment_part(line)
    } else {
        assert(after_comment(line@) == Seq::<char>::empty());
        Vec::new()
    }
}

impl<'a> Printer<'a> {
    /// What follows `loc` on its line.
    fn rest_of(&self, loc: LineColumn) -> (r: Vec<char>)
        ensures
            r@ == rest_of_line(self.ctx().text, loc),
    {
        let line = source_line(self.source, loc.line_index());
        if loc.column <= line.len() {
            let r = slice_of(&line, loc.column, line.len());
            assert(r@ == line@.skip(loc.column as int));
            r
        } else {
            Vec::new()
        }
    }

    /// Tells whether nothing but white space precedes `loc` on its line.
    pub fn is_leading(&self, loc: LineColumn) -> (b: bool)
        ensures
            b == is_leading(self.ctx().text, loc),
    {
        let line = source_line(self.source, loc.line_index());
        if loc.column <= line.len() {
            blank_prefix(&line, loc.column)
        } else {
            is_blank(&line)
        }
    }

    /// Tells whether nothing but white space, and possibly a comment,
    /// follows `loc` on its line.
    pub fn is_trailing(&self, loc: LineColumn) -> (b: bool)
        ensures
            b == is_trailing(self.ctx().text, loc),
    {
        let rest = self.rest_of(loc);
        let k = comment_index(&rest);
        blank_prefix(&rest, k)
    }

    /// Writes the comment that follows `loc` on its line, if there is one,
    /// behind two spaces, and tells whether it wrote one.
    pub fn print_attr_comment(&mut self, loc: LineColumn) -> (printed: bool)
        ensures
            final(self).same_setup(old(self)),
            final(self).out() == old(self).out().attr_comment(old(self).ctx(), loc),
            printed == attr_comment(old(self).ctx().text, loc).is_some(),
    {
        let rest = self.rest_of(loc);
        let k = comment_index(&rest);
        if k < rest.len() && blank_prefix(&rest, k) {
            let comment = comment_part(&rest);
            self.put2(' ', ' ');
            self.write_comment_text(&comment);
            true
        } else {
            false
        }
    }

    /// Writes what leads up to a node at `loc`: an empty line where the
    /// author left one, or the comment lines that stand directly above.
    pub fn print_inline_comment_and_whitespace(
        &mut self,
        loc: LineColumn,
        indent_level: usize,
        preserve_blank_lines: bool,
    )
        ensures
            final(self).same_setup(old(self)),
            final(self).out() == old(self).out().leading(
                old(self).ctx(),
                loc,
                indent_level,
                preserve_blank_lines,
            ),
    {
        if loc.line <= 1 || !self.is_leading(loc) {
            return ;
        }
        let row: usize = loc.line - 1;
        if preserve_blank_lines {
            let above = source_line(self.source, row - 1);
            if is_blank(&above) {
                if is_blank(&self.buf) {
                    self.blank_line(indent_level);
                }
                return ;
            }
        }
        let mut first: usize = row;
        while first > 0 && comment_line(&source_line(self.source, first - 1))
            invariant
                first <= row,
                comment_run_start(self.ctx().text, row as int) == comment_run_start(
                    self.ctx().text,
                    first as int,
                ),
            decreases first,
        {
            first -= 1;
        }
        if is_blank(&self.buf) {
            self.print_comment_lines(first, row, indent_level);
        } else {
            self.print_comment_tail(first, row);
        }
    }

    /// Writes the comments of the lines from `from` up to `to` on lines that
    /// continue the current one.
    fn print_comment_tail(&mut self, from: usize, to: usize)
        ensures
            final(self).same_setup(old(self)),
            final(self).out() == old(self).out().comment_tail(
                old(self).ctx(),
                from as int,
                to as int,
            ),
    {
        if from >= to {
            return ;
        }
        let kept = trimmed_end(&self.buf);
        append_chars(&mut self.done, &kept);
        self.done.push('\n');
        assert(self.done@ =~= old(self).done@ + trim_end(old(self).buf@) + seq!['\n']);
        self.buf = indentation_of(add_levels(self.depth, 1));
        self.commented = false;
        let ghost start = self.out();
        let mut k: usize = from;
        while k < to
            invariant
                self.same_setup(old(self)),
                self.out().comment_run(self.ctx(), k as int, to as int) == start.comment_run(
                    old(self).ctx(),
                    from as int,
                    to as int,
                ),
            decreases to - k,
        {
            let comment = line_comment(&source_line(self.source, k));
            self.write_comment_text(&comment);
            k += 1;
        }
    }

    /// Writes the comments of the lines from `from` up to `to`, each followed
    /// by a new line.
    fn print_comment_lines(&mut self, from: usize, to: usize, indent_level: usize)
        ensures
            final(self).same_setup(old(self)),
            final(self).out() == old(self).out().comment_lines(
                old(self).ctx(),
                from as int,
                to as int,
                indent_level,
            ),
    {
        let mut k: usize = from;
        while k < to
            invariant
                self.same_setup(old(self)),
                self.out().comment_lines(self.ctx(), k as int, to as int, indent_level) == old(
                    self,
                ).out().comment_lines(old(self).ctx(), from as int, to as int, indent_level),
            decreases to - k,
        {
            let comment = line_comment(&source_line(self.source, k));
            self.write_comment_text(&comment);
            self.new_line(indent_level);
            k += 1;
        }
    }

    /// Writes each comment that stands between the lines of the two
    /// delimiters of `delim_span` on a line of its own.
    pub fn print_block_comments(&mut self, delim_span: Span, indent_level: usize)
        ensures
            final(self).same_setup(old(self)),
            final(self).out() == old(self).out().block_comments(
                old(self).ctx(),
                delim_span.start.row() + 1,
                delim_span.end.row(),
                indent_level,
            ),
    {
        let start = delim_span.start.line_index();
        let end = delim_span.end.line_index();
        let count = source_line_count(self.source);
        let stop = if end < count {
            end
        } else {
            count
        };
        if start >= stop {
            proof {
                if start + 1 < end {
                    lemma_block_comments_beyond(
                        self.out(),
                        self.ctx(),
                        start + 1,
                        end as int,
                        indent_level,
                    );
                }
            }
            return ;
        }
        let mut k: usize = start + 1;
        while k < stop
            invariant
                start < k <= stop + 1,
                stop <= end,
                stop == end || stop == line_count(self.ctx().text),
                start < stop,
                self.same_setup(old(self)),
                self.out().block_comments(self.ctx(), k as int, end as int, indent_level) == old(
                    self,
                ).out().block_comments(
                    old(self).ctx(),
                    start + 1,
                    end as int,
                    indent_level,
                ),
            decreases stop - k,
        {
            let line = source_line(self.source, k);
            if comment_index(&line) < line.len() {
                let comment = comment_part(&line);
                self.write_comment_line(&comment, indent_level);
            }
            k += 1;
        }
        proof {
            if k < end {
                lemma_block_comments_beyond(
                    self.out(),
                    self.ctx(),
                    k as int,
                    end as int,
                    indent_level,
                );
            }
        }
    }

    /// What precedes `loc` on its line.
    fn start_of(&self, loc: LineColumn) -> (r: Vec<char>)
        ensures
            r@ == start_of_line(self.ctx().text, loc),
    {
        let line = source_line(self.source, loc.line_index());
        if loc.column <= line.len() {
            let r = slice_of(&line, 0, loc.column);
            assert(r@ == line@.take(loc.column as int));
            r
        } else {
            line
        }
    }

    /// Tells whether the delimiters of `delim_span` are on different lines
    /// and a comment stands between or right behind them.
    pub fn block_contains_comments(&self, delim_span: Span) -> (b: bool)
        ensures
            b == contains_comments(self.ctx().text, delim_span),
    {
        let start = delim_span.start.line_index();
        let end = delim_span.end.line_index();
        if start == end {
            return false;
        }
        let opened = self.rest_of(delim_span.after_open());
        if comment_index(&opened) < opened.len() {
            return true;
        }
        let closed = self.start_of(delim_span.end);
        if comment_index(&closed) < closed.len() {
            return true;
        }
        let behind = self.rest_of(delim_span.end);
        let marker = comment_index(&behind);
        if marker < behind.len() && blank_prefix(&behind, marker) {
            return true;
        }
        let count = source_line_count(self.source);
        if start >= count {
            proof {
                let text = self.ctx().text;
                assert forall|row: int| start + 1 <= row < end implies !has_comment(
                    #[trigger] src_line(text, row),
                ) by {
                    lemma_find_comment_bounds(src_line(text, row), 0);
                }
            }
            return false;
        }
        let mut k: usize = start + 1;
        while k < end && k < count
            invariant
                start < k,
                start == delim_span.start.row(),
                end == delim_span.end.row(),
                count == line_count(self.ctx().text),
                !any_comment(self.ctx().text, start + 1, k as int),
            decreases count - k,
        {
            let line = source_line(self.source, k);
            if comment_index(&line) < line.len() {
                assert(has_comment(src_line(self.ctx().text, k as int)));
                assert(any_comment(self.ctx().text, start + 1, end as int));
                return true;
            }
            k += 1;
        }
        proof {
            let text = self.ctx().text;
            assert forall|row: int| start + 1 <= row < end implies !has_comment(
                #[trigger] src_line(text, row),
            ) by {
                if row >= k {
                    lemma_find_comment_bounds(src_line(text, row), 0);
                }
            }
        }
        false
    }

    /// Tells whether a line from `from` up to `to` holds content.
    fn content_between(&self, from: usize, to: usize) -> (b: bool)
        ensures
            b == any_content(self.ctx().text, from as int, to as int),
    {
        let count = source_line_count(self.source);
        let mut k: usize = from;
        while k < to && k < count
            invariant
                from <= k,
                count == line_count(self.ctx().text),
                !any_content(self.ctx().text, from as int, k as int),
            decreases count - k,
        {
            let line = source_line(self.source, k);
            if content_line(&line) {
                assert(has_content(src_line(self.ctx().text, k as int)));
                return true;
            }
            k += 1;
        }
        proof {
            let text = self.ctx().text;
            assert forall|row: int| from <= row < to implies !has_content(
                #[trigger] src_line(text, row),
            ) by {
                if row >= k {
                    lemma_find_comment_bounds(src_line(text, row), 0);
                }
            }
        }
        false
    }

    /// Writes each comment line between the lines of the two delimiters of
    /// `delim_span` that no content follows, on a line of its own.
    pub fn print_trailing_comments(&mut self, delim_span: Span, indent_level: usize)
        ensures
            final(self).same_setup(old(self)),
            final(self).out() == old(self).out().trailing_comments(
                old(self).ctx(),
                delim_span.start.row() + 1,
                delim_span.end.row(),
                indent_level,
            ),
    {
        self.print_trailing_comments_behind(delim_span.start, delim_span.end, indent_level)
    }

    /// Writes each comment line between the line of `last` and the line of
    /// `close` that no content follows, on a line of its own.
    pub fn print_trailing_comments_behind(
        &mut self,
        last: LineColumn,
        close: LineColumn,
        indent_level: usize,
    )
        ensures
            final(self).same_setup(old(self)),
            final(self).out() == old(self).out().trailing_comments(
                old(self).ctx(),
                last.row() + 1,
                close.row(),
                indent_level,
            ),
    {
        let start = last.line_index();
        let end = close.line_index();
        let count = source_line_count(self.source);
        let stop = if end < count {
            end
        } else {
            count
        };
        if start >= stop {
            proof {
                if start + 1 < end {
                    lemma_block_comments_beyond(
                        self.out(),
                        self.ctx(),
                        start + 1,
                        end as int,
                        indent_level,
                    );
                }
            }
            return ;
        }
        let mut k: usize = start + 1;
        while k < stop
            invariant
                start < k <= stop + 1,
                stop <= end,
                stop == end || stop == line_count(self.ctx().text),
                start < stop,
                self.same_setup(old(self)),
                self.out().trailing_comments(self.ctx(), k as int, end as int, indent_level)
                    == old(self).out().trailing_comments(
                    old(self).ctx(),
                    start + 1,
                    end as int,
                    indent_level,
                ),
            decreases stop - k,
        {
            let line = source_line(self.source, k);
            if comment_line(&line) && !self.content_between(k + 1, end) {
                let comment = comment_part(&line);
                self.write_comment_line(&comment, indent_level);
            }
            k += 1;
        }
        proof {
            if k < end {
                lemma_block_comments_beyond(
                    self.out(),
                    self.ctx(),
                    k as int,
                    end as int,
                    indent_level,
                );
            }
        }
    }

    /// Writes a comment with the text `comment`.
    pub fn write_comment_text(&mut self, comment: &Vec<char>)
        ensures
            final(self).same_setup(old(self)),
            final(self).out() == old(self).out().comment(comment@),
    {
        let mut text: Vec<char> = Vec::new();
        text.push('/');
        text.push('/');
        if comment.len() > 0 {
            if comment[0] != ' ' {
                text.push(' ');
            }
            append_chars(&mut text, comment);
        }
        assert(text@ =~= comment_text(comment@));
        self.write_chars(&text);
        self.commented = true;
    }

    /// Begins a new line and writes a comment with the text `comment` on it.
    pub fn write_comment_line(&mut self, comment: &Vec<char>, indent_level: usize)
        ensures
            final(self).same_setup(old(self)),
            final(self).out() == old(self).out().new_line(old(self).ctx(), indent_level).comment(
                comment@,
            ),
    {
        self.new_line(indent_level);
        self.write_comment_text(comment);
    }
}

} // verus!
