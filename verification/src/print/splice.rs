//! Splices: a host expression between parentheses.

use crate::ast::{Expr, Span};
use crate::print::comment_and_whitespace::attr_comment;
use crate::print::{add_levels, level, Ctx, Out, Printer};
use vstd::prelude::*;

verus! {

impl Out {
    /// The state after a splice is written: what leads up to it, then the
    /// expression between parentheses. Where a comment follows the opening
    /// parenthesis, the comment stays there and the expression goes on a
    /// line of its own, one level deeper. The comment that follows the
    /// closing parenthesis comes last.
    pub open spec fn splice(
        self,
        ctx: Ctx,
        expr: Expr,
        paren: Span,
        indent_level: usize,
        preserve_blank_lines: bool,
    ) -> Out {
        let opened = self.leading(ctx, paren.start, indent_level, preserve_blank_lines).write(
            seq!['('],
        );
        let inner = level(indent_level, 1);
        let closed = if attr_comment(ctx.text, paren.open_end()) is Some {
            opened.attr_comment(ctx, paren.open_end()).new_line(ctx, inner).expr(
                ctx,
                expr,
                inner,
            ).new_line(ctx, indent_level).write(seq![')'])
        } else {
            opened.expr(ctx, expr, indent_level).write(seq![')'])
        };
        closed.attr_comment(ctx, paren.end)
    }
}

impl<'a> Printer<'a> {
    /// Writes a splice.
    pub fn print_splice(
        &mut self,
        expr: &Expr,
        paren: Span,
        indent_level: usize,
        preserve_blank_lines: bool,
    )
        ensures
            final(self).same_setup(old(self)),
            final(self).out() == old(self).out().splice(
                old(self).ctx(),
                *expr,
                paren,
                indent_level,
                preserve_blank_lines,
            ),
    {
        self.print_inline_comment_and_whitespace(paren.start, indent_level, preserve_blank_lines);
        self.put('(');
        if self.print_attr_comment(paren.after_open()) {
            let inner = add_levels(indent_level, 1);
            self.new_line(inner);
            self.print_expr(expr, inner);
            self.new_line(indent_level);
            self.put(')');
        } else {
            self.print_expr(expr, indent_level);
            self.put(')');
        }
        self.print_attr_comment(paren.end);
    }
}

} // verus!
