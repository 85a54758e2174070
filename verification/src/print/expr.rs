//! Host expressions: rendered by the host renderer, or copied from the
//! source where it fails.

use crate::ast::{Expr, ExprKind, Span};
use crate::print::{add_levels, level, Ctx, Out, Printer};
use crate::source::{covered, covered_text};
use crate::text::{all_space, chars_of, is_blank, join, texts, trim, trimmed};
use crate::unparse::{
    outcome, unparse_expr, unparse_stmts, unparsed, wrap, wrapped, RenderFailure, Rendering,
};
use vstd::prelude::*;

verus! {

/// The text to print where the renderer fails on a fragment: what its span
/// covers in the source, or its tokens where the span cannot be found
/// there.
pub open spec fn verbatim(text: Seq<char>, span: Span, tokens: Seq<char>) -> Seq<char> {
    match covered(text, span) {
        Some(bytes) => vstd::utf8::decode_utf8(bytes),
        None => tokens,
    }
}

/// The rendered lines of an expression at `depth` levels of indentation:
/// those of its statements where it is a block, else those of its tokens.
pub open spec fn expr_rows(table: Seq<Rendering>, expr: Expr, depth: usize) -> Result<
    Seq<Seq<char>>,
    RenderFailure,
> {
    unparsed(table, expr_tokens(expr), depth as nat)
}

/// The tokens that an expression is rendered from: those of its statements
/// where it is a block, else its own.
pub open spec fn expr_tokens(expr: Expr) -> Seq<char> {
    match expr.kind {
        ExprKind::Block { stmts } => stmts@,
        _ => expr.tokens@,
    }
}

/// The file that is handed to the renderer for an expression at `depth`
/// levels of indentation.
pub open spec fn expr_file(expr: Expr, depth: usize) -> Seq<char> {
    wrapped(expr_tokens(expr), depth as nat)
}

impl Out {
    /// The state after the lines `rows` are written, a line feed between
    /// each two.
    pub open spec fn joined(self, rows: Seq<Seq<char>>) -> Out {
        self.write(join(rows))
    }

    /// The state after an expression is written: nothing for no line, one
    /// line trimmed, several lines as they are between braces. Where the
    /// renderer fails, the text of the source is written, trimmed, and the
    /// failure is noted.
    pub open spec fn expr(self, ctx: Ctx, expr: Expr, indent_level: usize) -> Out {
        match expr_rows(ctx.table, expr, level(ctx.base_indent, indent_level)) {
            Ok(rows) => if rows.len() == 0 {
                self
            } else if rows.len() == 1 {
                self.write(trim(rows[0]))
            } else {
                self.write(seq!['{', '\n']).joined(rows).new_line(ctx, indent_level).write(
                    seq!['}'],
                )
            },
            Err(why) => self.write(trim(verbatim(ctx.text, expr.span, expr.tokens@))).unrendered(
                why,
                expr.span,
                expr_file(expr, level(ctx.base_indent, indent_level)),
            ),
        }
    }

    /// The state after the condition of a toggle is written for an
    /// attribute that stands on a line at `line_level`: a block between
    /// braces, another expression bare, on lines of its own, one level
    /// deeper, where it takes several, with what closes it back at
    /// `line_level`. Where the renderer fails, the text of the source is
    /// written, trimmed, and the failure is noted.
    pub open spec fn toggle_at(self, ctx: Ctx, expr: Expr, line_level: usize) -> Out {
        match expr_rows(ctx.table, expr, level(ctx.base_indent, line_level)) {
            Ok(rows) => if expr.kind is Block {
                if rows.len() == 0 || (rows.len() == 1 && all_space(rows[0])) {
                    self.write(seq!['{', '}'])
                } else {
                    self.write(seq!['{', '\n']).joined(rows).new_line(ctx, line_level).write(
                        seq!['}'],
                    )
                }
            } else {
                if rows.len() == 0 {
                    self
                } else if rows.len() == 1 {
                    self.write(trim(rows[0]))
                } else {
                    self.write(seq!['\n']).joined(rows).new_line(ctx, line_level)
                }
            },
            Err(why) => self.write(trim(verbatim(ctx.text, expr.span, expr.tokens@))).unrendered(
                why,
                expr.span,
                expr_file(expr, level(ctx.base_indent, line_level)),
            ),
        }
    }

    /// The state after the condition of a toggle is written for an
    /// attribute that stands one level below `indent_level`.
    pub open spec fn toggle_expr(self, ctx: Ctx, expr: Expr, indent_level: usize) -> Out {
        self.toggle_at(ctx, expr, level(indent_level, 1))
    }
}

impl<'a> Printer<'a> {
    /// The text to print where the renderer fails on a fragment.
    pub fn verbatim_text(&self, span: Span, tokens: &str) -> (r: Vec<char>)
        ensures
            r@ == verbatim(self.ctx().text, span, tokens@),
    {
        match covered_text(self.source, span) {
            Some(s) => {
                proof {
                    vstd::utf8::encode_utf8_decode_utf8(s@);
                }
                chars_of(s.as_str())
            },
            None => chars_of(tokens),
        }
    }

    /// The lines that render an expression at `depth` levels of
    /// indentation, as far as the table tells.
    pub fn render_expr(&self, expr: &Expr, depth: usize) -> (r: Result<Vec<String>, RenderFailure>)
        ensures
            outcome(r) == expr_rows(self.ctx().table, *expr, depth),
    {
        match &expr.kind {
            ExprKind::Block { stmts } => unparse_stmts(self.table, stmts.as_str(), depth),
            _ => unparse_expr(self.table, expr.tokens.as_str(), depth),
        }
    }

    /// Writes an expression as it stands in the source, trimmed, for want
    /// of lines that render it at `depth` levels of indentation.
    fn write_unrendered(&mut self, expr: &Expr, depth: usize, why: RenderFailure)
        ensures
            final(self).same_setup(old(self)),
            final(self).out() == old(self).out().write(
                trim(verbatim(old(self).ctx().text, expr.span, expr.tokens@)),
            ).unrendered(why, expr.span, expr_file(*expr, depth)),
    {
        let copied = self.verbatim_text(expr.span, expr.tokens.as_str());
        self.write_trimmed(&copied);
        let file = match &expr.kind {
            ExprKind::Block { stmts } => wrap(stmts.as_str(), depth),
            _ => wrap(expr.tokens.as_str(), depth),
        };
        self.note_unrendered(why, expr.span, file);
    }

    /// Writes the lines `lines`, a line feed between each two.
    pub fn write_joined(&mut self, lines: &Vec<String>)
        ensures
            final(self).same_setup(old(self)),
            final(self).out() == old(self).out().joined(texts(lines@)),
    {
        let mut all: Vec<char> = Vec::new();
        let mut i: usize = 0;
        assert(texts(lines@).take(0) == Seq::<Seq<char>>::empty());
        while i < lines.len()
            invariant
                i <= lines.len(),
                all@ == join(texts(lines@).take(i as int)),
            decreases lines.len() - i,
        {
            if i > 0 {
                all.push('\n');
            }
            crate::text::append_str(&mut all, lines[i].as_str());
            proof {
                let done = texts(lines@).take(i as int);
                let next = texts(lines@).take(i + 1);
                assert(next.drop_last() == done);
                assert(next.last() == lines@[i as int]@);
                if i > 0 {
                    assert(all@ =~= join(done) + seq!['\n'] + lines@[i as int]@);
                } else {
                    assert(join(done) == Seq::<char>::empty());
                    assert(all@ =~= lines@[i as int]@);
                }
            }
            i += 1;
        }
        assert(texts(lines@).take(lines.len() as int) == texts(lines@));
        self.write_chars(&all);
    }

    /// Writes `line` without the white space around it.
    fn write_trimmed(&mut self, line: &Vec<char>)
        ensures
            final(self).same_setup(old(self)),
            final(self).out() == old(self).out().write(trim(line@)),
    {
        let t = trimmed(line);
        self.write_chars(&t);
    }

    /// Writes an expression.
    pub fn print_expr(&mut self, expr: &Expr, indent_level: usize)
        ensures
            final(self).same_setup(old(self)),
            final(self).out() == old(self).out().expr(old(self).ctx(), *expr, indent_level),
    {
        let depth = add_levels(self.base_indent, indent_level);
        match self.render_expr(expr, depth) {
            Ok(lines) => {
                if lines.len() == 0 {
                } else if lines.len() == 1 {
                    let line = chars_of(lines[0].as_str());
                    self.write_trimmed(&line);
                } else {
                    self.put2('{', '\n');
                    self.write_joined(&lines);
                    self.new_line(indent_level);
                    self.put('}');
                }
            },
            Err(why) => {
                self.write_unrendered(expr, depth, why);
            },
        }
    }

    /// Writes the condition of a toggle for an attribute that stands one
    /// level below `indent_level`.
    pub fn print_toggle_expr(&mut self, expr: &Expr, indent_level: usize)
        ensures
            final(self).same_setup(old(self)),
            final(self).out() == old(self).out().toggle_expr(old(self).ctx(), *expr, indent_level),
    {
        self.print_toggle_at(expr, add_levels(indent_level, 1))
    }

    /// Writes the condition of a toggle for an attribute that stands on a
    /// line at `line_level`.
    pub fn print_toggle_at(&mut self, expr: &Expr, line_level: usize)
        ensures
            final(self).same_setup(old(self)),
            final(self).out() == old(self).out().toggle_at(old(self).ctx(), *expr, line_level),
    {
        let depth = add_levels(self.base_indent, line_level);
        match self.render_expr(expr, depth) {
            Ok(lines) => {
                let is_block = match &expr.kind {
                    ExprKind::Block { .. } => true,
                    _ => false,
                };
                if is_block {
                    let empty = lines.len() == 0 || (lines.len() == 1 && is_blank(
                        &chars_of(lines[0].as_str()),
                    ));
                    if empty {
                        self.put2('{', '}');
                    } else {
                        self.put2('{', '\n');
                        self.write_joined(&lines);
                        self.new_line(line_level);
                        self.put('}');
                    }
                } else {
                    if lines.len() == 0 {
                    } else if lines.len() == 1 {
                        let line = chars_of(lines[0].as_str());
                        self.write_trimmed(&line);
                    } else {
                        self.put('\n');
                        self.write_joined(&lines);
                        self.new_line(line_level);
                    }
                }
            },
            Err(why) => {
                self.write_unrendered(expr, depth, why);
            },
        }
    }
}

} // verus!
