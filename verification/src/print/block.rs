//! Blocks: empty, collapsed onto one line, or expanded with one node per
//! line.

use crate::ast::{Block, Markup, Span};
use crate::line_length::{block_cost, block_len};
use crate::print::comment_and_whitespace::{attr_comment, contains_comments};
use crate::print::{add_levels, level, Ctx, Out, Printer};
use vstd::prelude::*;

verus! {

/// A fragment of `cost` columns does not fit behind `column` columns on a
/// line of `line_length` columns; one whose cost is not known never fits.
pub open spec fn too_long(column: nat, cost: Option<usize>, line_length: usize) -> bool {
    match cost {
        Some(n) => column + n > line_length,
        None => true,
    }
}

/// Tells whether a fragment does not fit behind `column` columns.
pub fn exceeds(column: usize, cost: Option<usize>, line_length: usize) -> (b: bool)
    ensures
        b == too_long(column as nat, cost, line_length),
{
    match cost {
        Some(n) => n > line_length || column > line_length - n,
        None => true,
    }
}

impl Out {
    /// The block must be expanded: it is forced, a comment stands between
    /// its braces, or on one line it would not fit behind what is written
    /// on the current line.
    pub open spec fn must_expand(self, ctx: Ctx, block: Block, force: bool) -> bool {
        force || contains_comments(ctx.text, block.brace) || too_long(
            self.line_len(),
            block_cost(block),
            ctx.line_length,
        )
    }

    /// The state after the nodes of `markups` from index `from` on are
    /// written, each on a line of its own.
    pub open spec fn expanded_children(
        self,
        ctx: Ctx,
        markups: Seq<Markup>,
        from: int,
        indent_level: usize,
    ) -> Out
        decreases markups, markups.len() - from,
    {
        if 0 <= from < markups.len() {
            self.new_line(ctx, indent_level).markup(
                ctx,
                markups[from],
                indent_level,
                true,
            ).expanded_children(ctx, markups, from + 1, indent_level)
        } else {
            self
        }
    }

    /// The state after the nodes of `markups` from index `from` on are
    /// written on the current line, each behind one space.
    pub open spec fn collapsed_children(
        self,
        ctx: Ctx,
        markups: Seq<Markup>,
        from: int,
        indent_level: usize,
    ) -> Out
        decreases markups, markups.len() - from,
    {
        if 0 <= from < markups.len() {
            self.write(seq![' ']).markup(
                ctx,
                markups[from],
                indent_level,
                false,
            ).collapsed_children(ctx, markups, from + 1, indent_level)
        } else {
            self
        }
    }

    /// The state after the inside of an expanded block and its closing
    /// brace are written. With no nodes, each comment between the braces
    /// gets a line; else each node gets a line, one level deeper, and the
    /// comment lines between the end of the last node and the closing
    /// brace that no content follows come behind it. The closing brace
    /// stands on a line of its own.
    pub open spec fn expanded(
        self,
        ctx: Ctx,
        markups: Seq<Markup>,
        brace: Span,
        indent_level: usize,
    ) -> Out
        decreases markups, markups.len() + 1,
    {
        let inner = level(indent_level, 1);
        let body = if markups.len() == 0 {
            self.block_comments(ctx, brace.start.row() + 1, brace.end.row(), inner)
        } else {
            self.expanded_children(ctx, markups, 0, inner).trailing_comments(
                ctx,
                markups.last().end().row() + 1,
                brace.end.row(),
                inner,
            )
        };
        body.new_line(ctx, indent_level).write(seq!['}'])
    }

    /// The state after a block is written. What leads up to its opening
    /// brace comes first. A block without nodes and without comments is
    /// `{}`. Else the opening brace and the comment behind it are written;
    /// the block is expanded where it must be or where such a comment was
    /// found, and collapsed onto the current line otherwise. The comment
    /// that follows the closing brace comes last.
    pub open spec fn block(self, ctx: Ctx, block: Block, indent_level: usize, force: bool) -> Out
        decreases block, 0nat,
    {
        let start = self.leading(ctx, block.brace.start, indent_level, true);
        let markups = block.markups.markups@;
        let printed = if markups.len() == 0 && !contains_comments(ctx.text, block.brace) {
            start.write(seq!['{', '}'])
        } else {
            let opened = start.write(seq!['{']).attr_comment(ctx, block.brace.open_end());
            if start.must_expand(ctx, block, force) || attr_comment(
                ctx.text,
                block.brace.open_end(),
            ) is Some {
                opened.expanded(ctx, markups, block.brace, indent_level)
            } else {
                opened.collapsed_children(ctx, markups, 0, indent_level).write(seq![' ', '}'])
            }
        };
        printed.attr_comment(ctx, block.brace.end)
    }
}

impl<'a> Printer<'a> {
    /// Writes the inside of an expanded block and its closing brace.
    pub fn print_expanded(&mut self, markups: &Vec<Markup>, brace: Span, indent_level: usize)
        ensures
            final(self).same_setup(old(self)),
            final(self).out() == old(self).out().expanded(
                old(self).ctx(),
                markups@,
                brace,
                indent_level,
            ),
        decreases *markups, markups.len() + 1,
    {
        let inner = add_levels(indent_level, 1);
        if markups.len() == 0 {
            self.print_block_comments(brace, inner);
        } else {
            let ghost start = self.out();
            let ghost ctx = self.ctx();
            let mut i: usize = 0;
            while i < markups.len()
                invariant
                    i <= markups.len(),
                    self.same_setup(old(self)),
                    ctx == old(self).ctx(),
                    self.out().expanded_children(ctx, markups@, i as int, inner)
                        == start.expanded_children(ctx, markups@, 0, inner),
                decreases markups.len() - i,
            {
                self.new_line(inner);
                self.print_markup(&markups[i], inner, true);
                i += 1;
            }
            let last = markups[markups.len() - 1].end_point();
            self.print_trailing_comments_behind(last, brace.end, inner);
        }
        self.new_line(indent_level);
        self.put('}');
    }

    /// Writes a block, collapsed where it may be.
    pub fn print_block(&mut self, block: &Block, indent_level: usize)
        ensures
            final(self).same_setup(old(self)),
            final(self).out() == old(self).out().block(
                old(self).ctx(),
                *block,
                indent_level,
                false,
            ),
        decreases *block, 1nat,
    {
        self.print_block_with(block, indent_level, false)
    }

    /// Writes a block, expanded in any case where `force` holds and the
    /// block is not empty.
    pub fn print_block_with(&mut self, block: &Block, indent_level: usize, force: bool)
        ensures
            final(self).same_setup(old(self)),
            final(self).out() == old(self).out().block(
                old(self).ctx(),
                *block,
                indent_level,
                force,
            ),
        decreases *block, 0nat,
    {
        self.print_inline_comment_and_whitespace(block.brace.start, indent_level, true);
        let markups = &block.markups.markups;
        let commented = self.block_contains_comments(block.brace);
        if markups.len() == 0 && !commented {
            self.put2('{', '}');
        } else {
            let expand = force || commented || exceeds(
                self.line_len(),
                block_len(block),
                self.options.line_length,
            );
            self.put('{');
            let found = self.print_attr_comment(block.brace.after_open());
            if expand || found {
                self.print_expanded(markups, block.brace, indent_level);
            } else {
                let ghost start = self.out();
                let ghost ctx = self.ctx();
                let mut i: usize = 0;
                while i < markups.len()
                    invariant
                        i <= markups.len(),
                        markups == &block.markups.markups,
                        self.same_setup(old(self)),
                        ctx == old(self).ctx(),
                        self.out().collapsed_children(ctx, markups@, i as int, indent_level)
                            == start.collapsed_children(ctx, markups@, 0, indent_level),
                    decreases markups.len() - i,
                {
                    self.put(' ');
                    self.print_markup(&markups[i], indent_level, false);
                    i += 1;
                }
                self.put2(' ', '}');
            }
        }
        self.print_attr_comment(block.brace.end);
    }
}

} // verus!
