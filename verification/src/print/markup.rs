//! One markup node, whatever its kind.

use crate::ast::Markup;
use crate::print::{Ctx, Out, Printer};
use vstd::prelude::*;

verus! {

impl Out {
    /// The state after a markup node is written.
    pub open spec fn markup(
        self,
        ctx: Ctx,
        markup: Markup,
        indent_level: usize,
        preserve_blank_lines: bool,
    ) -> Out
        decreases markup, 0nat,
    {
        match markup {
            Markup::Lit(html_lit) => self.lit(ctx, html_lit, indent_level, preserve_blank_lines),
            Markup::Splice { paren, expr } => self.splice(
                ctx,
                expr,
                paren,
                indent_level,
                preserve_blank_lines,
            ),
            Markup::Element(element) => self.element(
                ctx,
                element,
                indent_level,
                preserve_blank_lines,
            ),
            Markup::Block(block) => self.block(ctx, block, indent_level, false),
            Markup::ControlFlow(control_flow) => self.control_flow(ctx, control_flow, indent_level),
            Markup::Semi { .. } => self.write(seq![';']),
        }
    }
}

impl<'a> Printer<'a> {
    /// Writes a markup node.
    pub fn print_markup(&mut self, markup: &Markup, indent_level: usize, preserve_blank_lines: bool)
        ensures
            final(self).same_setup(old(self)),
            final(self).out() == old(self).out().markup(
                old(self).ctx(),
                *markup,
                indent_level,
                preserve_blank_lines,
            ),
        decreases *markup, 0nat,
    {
        match markup {
            Markup::Lit(html_lit) => self.print_lit(html_lit, indent_level, preserve_blank_lines),
            Markup::Splice { paren, expr } => self.print_splice(
                expr,
                *paren,
                indent_level,
                preserve_blank_lines,
            ),
            Markup::Element(element) => self.print_element_with_contents(
                element,
                indent_level,
                preserve_blank_lines,
            ),
            Markup::Block(block) => self.print_block(block, indent_level),
            Markup::ControlFlow(control_flow) => self.print_control_flow(
                control_flow,
                indent_level,
            ),
            Markup::Semi { .. } => self.put(';'),
        }
    }
}

} // verus!
