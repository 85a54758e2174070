//! Control flow: `@if`, `@for`, `@let`, `@match` and `@while`.

use crate::ast::{
    ControlFlow, ControlFlowKind, Expr, ExprKind, IfExpr, IfOrBlock, LineColumn, Local, Markup,
    MatchArm, MatchExpr, Pat,
};
use crate::print::expr::verbatim;
use crate::print::{add_levels, level, Ctx, Out, Printer};
use crate::text::{chars_of, join, same_chars, slice_of};
use crate::unparse::{
    local_rows, local_statement, local_tokens, pat_rows, pat_statement, pat_tokens, unparse_local,
    unparse_pat, without_suffix, wrap, wrapped,
};
use vstd::prelude::*;

verus! {

/// Where the last arm of a match ends; where it has no arm, where its
/// opening brace starts.
pub open spec fn last_arm_end(match_expr: MatchExpr) -> LineColumn {
    if match_expr.arms@.len() > 0 {
        match_expr.arms@.last().body.end()
    } else {
        match_expr.brace.start
    }
}

impl Out {
    /// The state after a pattern is written at `depth` levels of
    /// indentation: its rendered lines, or, where the renderer fails, the
    /// text of the source, with the failure noted.
    pub open spec fn pat(self, ctx: Ctx, pat: Pat, depth: usize) -> Out {
        match pat_rows(ctx.table, pat.tokens@, depth as nat) {
            Ok(rows) => self.write(join(rows)),
            Err(why) => self.write(verbatim(ctx.text, pat.span, pat.tokens@)).unrendered(
                why,
                pat.span,
                wrapped(pat_statement(pat.tokens@), depth as nat),
            ),
        }
    }

    /// The state after a `let` binding is written, without its semicolon,
    /// at `depth` levels of indentation: its rendered lines, or, where the
    /// renderer fails, the text of the source, with the failure noted.
    pub open spec fn local(self, ctx: Ctx, local: Local, depth: usize) -> Out {
        match local_rows(ctx.table, local.tokens@, depth as nat) {
            Ok(rows) => self.write(join(rows)),
            Err(why) => {
                let copied = verbatim(ctx.text, local.span, local.tokens@);
                self.write(
                    match without_suffix(copied, ";"@) {
                        Some(bare) => bare,
                        None => copied,
                    },
                ).unrendered(
                    why,
                    local.span,
                    wrapped(local_statement(local.tokens@), depth as nat),
                )
            },
        }
    }

    /// The state after a condition and the space behind it are written. A
    /// binding condition is put together from its pattern and its
    /// expression.
    pub open spec fn condition(self, ctx: Ctx, cond: Expr, indent_level: usize) -> Out {
        match cond.kind {
            ExprKind::Let { pat, expr } => self.write("let "@).pat(
                ctx,
                pat,
                level(ctx.base_indent, indent_level),
            ).write(" = "@).expr(ctx, *expr, indent_level).write(seq![' ']),
            _ => self.expr(ctx, cond, indent_level).write(seq![' ']),
        }
    }

    /// The state after a range is written: its two ends, as far as it has
    /// them, around `..`, or `..=` where it is closed.
    pub open spec fn range(
        self,
        ctx: Ctx,
        start: Option<Box<Expr>>,
        closed: bool,
        end: Option<Box<Expr>>,
        indent_level: usize,
    ) -> Out {
        let from = match start {
            Some(e) => self.expr(ctx, *e, indent_level),
            None => self,
        };
        let dots = from.write(
            if closed {
                "..="@
            } else {
                ".."@
            },
        );
        match end {
            Some(e) => dots.expr(ctx, *e, indent_level),
            None => dots,
        }
    }

    /// The state after the source of a loop is written: a range from its
    /// ends, any other expression as it is rendered.
    pub open spec fn loop_source(self, ctx: Ctx, source: Expr, indent_level: usize) -> Out {
        match source.kind {
            ExprKind::Range { start, closed, end } => self.range(
                ctx,
                start,
                closed,
                end,
                indent_level,
            ),
            _ => self.expr(ctx, source, indent_level),
        }
    }

    /// The state after a conditional is written, with its `@else` arms on
    /// the line of the closing brace before them.
    pub open spec fn if_expr(self, ctx: Ctx, if_expr: IfExpr, indent_level: usize) -> Out
        decreases if_expr, 0nat,
    {
        let then = self.write("if "@).condition(ctx, if_expr.cond, indent_level).block(
            ctx,
            if_expr.then_branch,
            indent_level,
            false,
        );
        match if_expr.else_branch {
            Some(branch) => match *branch {
                IfOrBlock::If(else_if) => then.write(" @else "@).if_expr(
                    ctx,
                    else_if,
                    indent_level,
                ),
                IfOrBlock::Block(block) => then.write(" @else "@).block(
                    ctx,
                    block,
                    indent_level,
                    false,
                ),
            },
            None => then,
        }
    }

    /// The state after the body of a match arm is written: a block of
    /// several nodes is expanded in any case.
    pub open spec fn arm_body(self, ctx: Ctx, body: Markup, indent_level: usize) -> Out
        decreases body, 1nat,
    {
        match body {
            Markup::Block(block) => self.block(
                ctx,
                block,
                indent_level,
                block.markups.markups@.len() > 1,
            ),
            _ => self.markup(ctx, body, indent_level, true),
        }
    }

    /// The state after the arms of a match from index `from` on are
    /// written, each on a line of its own, one level deeper.
    pub open spec fn arms(
        self,
        ctx: Ctx,
        arms: Seq<MatchArm>,
        from: int,
        indent_level: usize,
    ) -> Out
        decreases arms, arms.len() - from,
    {
        if 0 <= from < arms.len() {
            let arm = arms[from];
            let inner = level(indent_level, 1);
            let head = self.new_line(ctx, inner).pat(
                ctx,
                arm.pat,
                level(ctx.base_indent, indent_level),
            );
            let guarded = match arm.guard {
                Some(guard) => head.write(" if "@).expr(ctx, guard, indent_level),
                None => head,
            };
            guarded.write(" => "@).arm_body(ctx, arm.body, inner).arms(
                ctx,
                arms,
                from + 1,
                indent_level,
            )
        } else {
            self
        }
    }

    /// The state after a control-flow form is written, with what leads up
    /// to it. The body of a loop is expanded in any case.
    pub open spec fn control_flow(
        self,
        ctx: Ctx,
        control_flow: ControlFlow,
        indent_level: usize,
    ) -> Out
        decreases control_flow, 0nat,
    {
        let start = self.leading(ctx, control_flow.at.start, indent_level, true);
        let depth = level(ctx.base_indent, indent_level);
        match control_flow.kind {
            ControlFlowKind::If(if_expr) => start.write(seq!['@']).if_expr(
                ctx,
                if_expr,
                indent_level,
            ),
            ControlFlowKind::For(for_expr) => start.write("@for "@).pat(
                ctx,
                for_expr.pat,
                depth,
            ).write(" in "@).loop_source(ctx, for_expr.expr, indent_level).write(seq![' ']).block(
                ctx,
                for_expr.body,
                indent_level,
                true,
            ),
            ControlFlowKind::Let(local) => start.write(seq!['@']).local(
                ctx,
                local,
                depth,
            ).write(seq![';']).attr_comment(ctx, local.span.end),
            ControlFlowKind::Match(match_expr) => start.write("@match "@).expr(
                ctx,
                match_expr.expr,
                indent_level,
            ).write(" {"@).attr_comment(ctx, match_expr.brace.open_end()).arms(
                ctx,
                match_expr.arms@,
                0,
                indent_level,
            ).trailing_comments(
                ctx,
                last_arm_end(match_expr).row() + 1,
                match_expr.brace.end.row(),
                level(indent_level, 1),
            ).new_line(ctx, indent_level).write(seq!['}']).attr_comment(
                ctx,
                match_expr.brace.end,
            ),
            ControlFlowKind::While(while_expr) => start.write("@while "@).condition(
                ctx,
                while_expr.cond,
                indent_level,
            ).block(ctx, while_expr.body, indent_level, true),
        }
    }
}

impl<'a> Printer<'a> {
    /// Writes a pattern.
    pub fn print_pat(&mut self, pat: &Pat, indent_level: usize)
        ensures
            final(self).same_setup(old(self)),
            final(self).out() == old(self).out().pat(
                old(self).ctx(),
                *pat,
                level(old(self).base_indent, indent_level),
            ),
    {
        let depth = add_levels(self.base_indent, indent_level);
        match unparse_pat(self.table, pat, depth) {
            Ok(lines) => self.write_joined(&lines),
            Err(why) => {
                let copied = self.verbatim_text(pat.span, pat.tokens.as_str());
                self.write_chars(&copied);
                let file = wrap(pat_tokens(pat).as_str(), depth);
                self.note_unrendered(why, pat.span, file);
            },
        }
    }

    /// Writes a `let` binding, without its semicolon.
    pub fn print_local(&mut self, local: &Local, indent_level: usize)
        ensures
            final(self).same_setup(old(self)),
            final(self).out() == old(self).out().local(
                old(self).ctx(),
                *local,
                level(old(self).base_indent, indent_level),
            ),
    {
        let depth = add_levels(self.base_indent, indent_level);
        match unparse_local(self.table, local, depth) {
            Ok(lines) => self.write_joined(&lines),
            Err(why) => {
                let file = wrap(local_tokens(local).as_str(), depth);
                let copied = self.verbatim_text(local.span, local.tokens.as_str());
                let semi = chars_of(";");
                if copied.len() >= semi.len() {
                    let tail = slice_of(&copied, copied.len() - semi.len(), copied.len());
                    assert(tail@ == copied@.skip(copied.len() - semi.len()));
                    if same_chars(&tail, &semi) {
                        let bare = slice_of(&copied, 0, copied.len() - semi.len());
                        assert(bare@ == copied@.take(copied.len() - semi.len()));
                        self.write_chars(&bare);
                        self.note_unrendered(why, local.span, file);
                        return ;
                    }
                }
                self.write_chars(&copied);
                self.note_unrendered(why, local.span, file);
            },
        }
    }

    /// Writes a condition and the space behind it.
    fn print_condition(&mut self, cond: &Expr, indent_level: usize)
        ensures
            final(self).same_setup(old(self)),
            final(self).out() == old(self).out().condition(old(self).ctx(), *cond, indent_level),
    {
        match &cond.kind {
            ExprKind::Let { pat, expr } => {
                self.write("let ");
                self.print_pat(pat, indent_level);
                self.write(" = ");
                self.print_expr(expr, indent_level);
                self.put(' ');
            },
            _ => {
                self.print_expr(cond, indent_level);
                self.put(' ');
            },
        }
    }

    /// Writes a range.
    pub fn print_range(
        &mut self,
        start: &Option<Box<Expr>>,
        closed: bool,
        end: &Option<Box<Expr>>,
        indent_level: usize,
    )
        ensures
            final(self).same_setup(old(self)),
            final(self).out() == old(self).out().range(
                old(self).ctx(),
                *start,
                closed,
                *end,
                indent_level,
            ),
    {
        if let Some(e) = start {
            self.print_expr(e, indent_level);
        }
        if closed {
            self.write("..=");
        } else {
            self.write("..");
        }
        if let Some(e) = end {
            self.print_expr(e, indent_level);
        }
    }

    /// Writes a conditional with its `@else` arms.
    pub fn print_if_expr(&mut self, if_expr: &IfExpr, indent_level: usize)
        ensures
            final(self).same_setup(old(self)),
            final(self).out() == old(self).out().if_expr(old(self).ctx(), *if_expr, indent_level),
        decreases *if_expr, 0nat,
    {
        self.write("if ");
        self.print_condition(&if_expr.cond, indent_level);
        self.print_block(&if_expr.then_branch, indent_level);
        if let Some(branch) = &if_expr.else_branch {
            self.write(" @else ");
            match &**branch {
                IfOrBlock::If(else_if) => self.print_if_expr(else_if, indent_level),
                IfOrBlock::Block(block) => self.print_block(block, indent_level),
            }
        }
    }

    /// Writes the body of a match arm.
    fn print_arm_body(&mut self, body: &Markup, indent_level: usize)
        ensures
            final(self).same_setup(old(self)),
            final(self).out() == old(self).out().arm_body(old(self).ctx(), *body, indent_level),
        decreases *body, 1nat,
    {
        match body {
            Markup::Block(block) => self.print_block_with(
                block,
                indent_level,
                block.markups.markups.len() > 1,
            ),
            _ => self.print_markup(body, indent_level, true),
        }
    }

    /// Writes the arms of a match, each on a line of its own.
    fn print_arms(&mut self, arms: &Vec<MatchArm>, indent_level: usize)
        ensures
            final(self).same_setup(old(self)),
            final(self).out() == old(self).out().arms(old(self).ctx(), arms@, 0, indent_level),
        decreases *arms, arms.len() + 1,
    {
        let ghost start = self.out();
        let ghost ctx = self.ctx();
        let inner = add_levels(indent_level, 1);
        let mut i: usize = 0;
        while i < arms.len()
            invariant
                i <= arms.len(),
                inner == level(indent_level, 1),
                self.same_setup(old(self)),
                ctx == old(self).ctx(),
                self.out().arms(ctx, arms@, i as int, indent_level) == start.arms(
                    ctx,
                    arms@,
                    0,
                    indent_level,
                ),
            decreases arms.len() - i,
        {
            let arm = &arms[i];
            self.new_line(inner);
            self.print_pat(&arm.pat, indent_level);
            if let Some(guard) = &arm.guard {
                self.write(" if ");
                self.print_expr(guard, indent_level);
            }
            self.write(" => ");
            self.print_arm_body(&arm.body, inner);
            i += 1;
        }
    }

    /// Writes a control-flow form.
    pub fn print_control_flow(&mut self, control_flow: &ControlFlow, indent_level: usize)
        ensures
            final(self).same_setup(old(self)),
            final(self).out() == old(self).out().control_flow(
                old(self).ctx(),
                *control_flow,
                indent_level,
            ),
        decreases *control_flow, 0nat,
    {
        self.print_inline_comment_and_whitespace(control_flow.at.start, indent_level, true);
        match &control_flow.kind {
            ControlFlowKind::If(if_expr) => {
                self.put('@');
                self.print_if_expr(if_expr, indent_level);
            },
            ControlFlowKind::For(for_expr) => {
                self.write("@for ");
                self.print_pat(&for_expr.pat, indent_level);
                self.write(" in ");
                match &for_expr.expr.kind {
                    ExprKind::Range { start, closed, end } => {
                        self.print_range(start, *closed, end, indent_level);
                    },
                    _ => {
                        self.print_expr(&for_expr.expr, indent_level);
                    },
                }
                self.put(' ');
                self.print_block_with(&for_expr.body, indent_level, true);
            },
            ControlFlowKind::Let(local) => {
                self.put('@');
                self.print_local(local, indent_level);
                self.put(';');
                self.print_attr_comment(local.span.end);
            },
            ControlFlowKind::Match(match_expr) => {
                self.write("@match ");
                self.print_expr(&match_expr.expr, indent_level);
                self.write(" {");
                self.print_attr_comment(match_expr.brace.after_open());
                self.print_arms(&match_expr.arms, indent_level);
                let last = if match_expr.arms.len() > 0 {
                    match_expr.arms[match_expr.arms.len() - 1].body.end_point()
                } else {
                    match_expr.brace.start
                };
                self.print_trailing_comments_behind(
                    last,
                    match_expr.brace.end,
                    add_levels(indent_level, 1),
                );
                self.new_line(indent_level);
                self.put('}');
                self.print_attr_comment(match_expr.brace.end);
            },
            ControlFlowKind::While(while_expr) => {
                self.write("@while ");
                self.print_condition(&while_expr.cond, indent_level);
                self.print_block_with(&while_expr.body, indent_level, true);
            },
        }
    }
}

} // verus!
