//! Literals: printed as they are written, whatever their length.

use crate::ast::HtmlLit;
use crate::print::{Ctx, Out, Printer};
use vstd::prelude::*;

verus! {

impl Out {
    /// The state after a literal is written: what leads up to it, the text
    /// of its token, and the comment that follows it on its line.
    pub open spec fn lit(
        self,
        ctx: Ctx,
        html_lit: HtmlLit,
        indent_level: usize,
        preserve_blank_lines: bool,
    ) -> Out {
        self.leading(ctx, html_lit.span.start, indent_level, preserve_blank_lines).write(
            html_lit.text@,
        ).attr_comment(ctx, html_lit.span.end)
    }
}

impl<'a> Printer<'a> {
    /// Writes a literal.
    pub fn print_lit(&mut self, html_lit: &HtmlLit, indent_level: usize, preserve_blank_lines: bool)
        ensures
            final(self).same_setup(old(self)),
            final(self).out() == old(self).out().lit(
                old(self).ctx(),
                *html_lit,
                indent_level,
                preserve_blank_lines,
            ),
    {
        self.print_inline_comment_and_whitespace(
            html_lit.span.start,
            indent_level,
            preserve_blank_lines,
        );
        self.write(html_lit.text.as_str());
        self.print_attr_comment(html_lit.span.end);
    }
}

} // verus!
