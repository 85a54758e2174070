//! The layout engine: prints the markup tree of one invocation as text.
//!
//! The printed text is kept in two parts: the lines that are complete, each
//! with its line feed, and the line that is being written. What a step of
//! printing does is stated as a function from one such state to the next.
//! Nothing is ever written behind a comment on its line: what follows a
//! comment begins a new line.

use crate::ast::{Markup, Markups, Span};
use crate::collect::MaudMacro;
use crate::format::FormatOptions;
use crate::print::comment_and_whitespace::contains_comments;
use crate::source::rope_text;
use crate::unparse::{RenderFailure, Rendering};
use crate::text::{
    append_chars, chars_of, slice_of, spaces, string_of, texts, trim_start, trim_start_len,
};
use crop::Rope;
use vstd::prelude::*;

pub mod block;
pub mod comment_and_whitespace;
pub mod control_flow;
pub mod element;
pub mod markup;
pub mod expr;
pub mod lit;
pub mod splice;

verus! {

/// What printing depends on besides the tree: the source text, the
/// indentation level of the invocation, and the line-length budget.
pub struct Ctx {
    /// The text of the source file.
    pub text: Seq<char>,
    /// The indentation level of the line on which the invocation starts.
    pub base_indent: usize,
    /// The number of columns that a line should not exceed.
    pub line_length: usize,
    /// What the host renderer made of the files that were handed to it.
    pub table: Seq<Rendering>,
}

/// The text printed so far.
pub struct Out {
    /// The complete lines, each followed by a line feed.
    pub done: Seq<char>,
    /// The line that is being written.
    pub buf: Seq<char>,
    /// The number of levels by which the line that is being written was
    /// indented when it was begun.
    pub depth: usize,
    /// The line that is being written ends in a comment.
    pub commented: bool,
    /// The host fragments that the renderer failed on, in the order in
    /// which they were written.
    pub failed: Seq<Span>,
    /// The files that are to be rendered: those of the host fragments
    /// whose rendering the table does not hold yet.
    pub asked: Seq<Seq<char>>,
}

/// The sum of two indentation levels, as far as a machine word holds it.
pub open spec fn level(a: usize, b: usize) -> usize {
    if a + b <= usize::MAX {
        (a + b) as usize
    } else {
        usize::MAX
    }
}

/// The number of characters of `s` behind its last line feed.
pub open spec fn column(s: Seq<char>) -> nat
    decreases s.len(),
{
    if s.len() == 0 || s.last() == '\n' {
        0
    } else {
        1 + column(s.drop_last())
    }
}

/// The white space that indents a line by `levels` levels of four columns.
pub open spec fn indentation(levels: usize) -> Seq<char> {
    spaces(4 * levels as nat)
}

impl Out {
    /// The state after `s` is written. It goes to the current line, unless
    /// that line ends in a comment: nothing may follow a comment on its
    /// line, so white space is dropped then, and anything else goes,
    /// without the white space before it, to a new line that is indented
    /// one level deeper than the current one.
    pub open spec fn write(self, s: Seq<char>) -> Out {
        if !self.commented {
            Out { buf: self.buf + s, ..self }
        } else if trim_start(s).len() == 0 {
            self
        } else {
            Out {
                done: self.done + self.buf + seq!['\n'],
                buf: indentation(level(self.depth, 1)) + trim_start(s),
                commented: false,
                ..self
            }
        }
    }

    /// The state after the current line is completed and a new one is begun
    /// at `indent_level` levels below the invocation.
    pub open spec fn new_line(self, ctx: Ctx, indent_level: usize) -> Out {
        Out {
            done: self.done + self.buf + seq!['\n'],
            buf: indentation(level(ctx.base_indent, indent_level)),
            depth: level(ctx.base_indent, indent_level),
            commented: false,
            ..self
        }
    }

    /// The state after an empty line is put in the place of the current
    /// line and a new line is begun.
    pub open spec fn blank_line(self, ctx: Ctx, indent_level: usize) -> Out {
        Out {
            done: self.done + seq!['\n'],
            buf: indentation(level(ctx.base_indent, indent_level)),
            depth: level(ctx.base_indent, indent_level),
            commented: false,
            ..self
        }
    }

    /// The state after it is noted that the renderer failed on the
    /// fragment at `span`.
    pub open spec fn fail(self, span: Span) -> Out {
        Out { failed: self.failed.push(span), ..self }
    }

    /// The state after the file `file` is asked to be rendered.
    pub open spec fn ask(self, file: Seq<char>) -> Out {
        Out { asked: self.asked.push(file), ..self }
    }

    /// The state after a host fragment at `span` is written as it stands
    /// in the source for want of lines that render it: the failure is
    /// noted, or, where only the rendering of `file` is missing, that one
    /// is asked for.
    pub open spec fn unrendered(self, why: RenderFailure, span: Span, file: Seq<char>) -> Out {
        if why == RenderFailure::Missing {
            self.ask(file)
        } else {
            self.fail(span)
        }
    }

    /// The number of columns written to the current line: the characters
    /// behind its last line feed.
    pub open spec fn line_len(self) -> nat {
        column(self.buf)
    }

    /// The whole text.
    pub open spec fn text(self) -> Seq<char> {
        self.done + self.buf
    }

    /// The state after an invocation is written: the name of the macro,
    /// `! `, and the outer block, which is `{}` where it holds neither
    /// nodes nor comments and is expanded otherwise. What follows the
    /// closing delimiter on its line is not part of the invocation and is
    /// not written.
    pub open spec fn ast(
        self,
        ctx: Ctx,
        name: Seq<char>,
        markups: Seq<Markup>,
        delimiter: Span,
    ) -> Out {
        let head = self.write(name).write(seq!['!', ' ']);
        if markups.len() == 0 && !contains_comments(ctx.text, delimiter) {
            head.write(seq!['{', '}'])
        } else {
            head.write(seq!['{']).attr_comment(ctx, delimiter.open_end()).expanded(
                ctx,
                markups,
                delimiter,
                0,
            )
        }
    }
}

/// The state in which nothing is written yet, on the line of an invocation
/// that is indented by `base_indent` levels.
pub open spec fn blank(base_indent: usize) -> Out {
    Out {
        done: Seq::empty(),
        buf: Seq::empty(),
        depth: base_indent,
        commented: false,
        failed: Seq::empty(),
        asked: Seq::empty(),
    }
}

/// What an invocation is printed with.
pub open spec fn setup(
    text: Seq<char>,
    mac: MaudMacro,
    options: FormatOptions,
    table: Seq<Rendering>,
) -> Ctx {
    Ctx { text, base_indent: mac.indent.levels(), line_length: options.line_length, table }
}

/// The state after the template `ast` of the invocation `mac` of the source
/// `text` is printed.
pub open spec fn outcome_of(
    text: Seq<char>,
    mac: MaudMacro,
    ast: Markups,
    options: FormatOptions,
    table: Seq<Rendering>,
) -> Out {
    blank(mac.indent.levels()).ast(
        setup(text, mac, options, table),
        mac.macro_name@,
        ast.markups@,
        mac.delimiter,
    )
}

/// The text that replaces the invocation `mac` of the source `text`, whose
/// template is `ast`.
pub open spec fn printed(
    text: Seq<char>,
    mac: MaudMacro,
    ast: Markups,
    options: FormatOptions,
    table: Seq<Rendering>,
) -> Seq<char> {
    outcome_of(text, mac, ast, options, table).text()
}

/// What printing an invocation gives: the text that replaces it, the host
/// fragments that the renderer failed on, and the files that are still to
/// be rendered.
#[derive(Debug)]
pub struct Printed {
    /// The text that replaces the invocation.
    pub text: String,
    /// Where the host fragments stand that the renderer failed on.
    pub failed: Vec<Span>,
    /// The files whose rendering the table does not hold yet.
    pub asked: Vec<String>,
}

/// Prints the template `ast` of the invocation `mac` of `source`, with the
/// host fragments rendered as `table` tells.
pub fn print(
    ast: &Markups,
    mac: &MaudMacro,
    source: &Rope,
    options: &FormatOptions,
    table: &Vec<Rendering>,
) -> (s: String)
    ensures
        s@ == printed(rope_text(*source), *mac, *ast, *options, table@),
{
    let mut printer = Printer::new(mac, source, options, table);
    printer.print_ast(ast);
    printer.finish()
}

/// Prints the template `ast` of the invocation `mac` of `source`, and tells
/// which host fragments the renderer failed on and which files are still
/// to be rendered.
pub fn print_report(
    ast: &Markups,
    mac: &MaudMacro,
    source: &Rope,
    options: &FormatOptions,
    table: &Vec<Rendering>,
) -> (r: Printed)
    ensures
        r.text@ == printed(rope_text(*source), *mac, *ast, *options, table@),
        r.failed@ == outcome_of(rope_text(*source), *mac, *ast, *options, table@).failed,
        texts(r.asked@) == outcome_of(rope_text(*source), *mac, *ast, *options, table@).asked,
{
    let mut printer = Printer::new(mac, source, options, table);
    printer.print_ast(ast);
    let mut all = printer.done;
    append_chars(&mut all, &printer.buf);
    Printed { text: string_of(&all), failed: printer.failed, asked: printer.asked }
}

/// The sum of two indentation levels, as far as a machine word holds it.
pub fn add_levels(a: usize, b: usize) -> (r: usize)
    ensures
        r == level(a, b),
{
    if b <= usize::MAX - a {
        a + b
    } else {
        usize::MAX
    }
}

/// The printer of one invocation.
pub struct Printer<'a> {
    /// The complete lines, each followed by a line feed.
    pub done: Vec<char>,
    /// The line that is being written.
    pub buf: Vec<char>,
    /// The number of levels by which the line that is being written was
    /// indented when it was begun.
    pub depth: usize,
    /// The line that is being written ends in a comment.
    pub commented: bool,
    /// The host fragments that the renderer failed on.
    pub failed: Vec<Span>,
    /// The files that are to be rendered.
    pub asked: Vec<String>,
    /// What the host renderer made of the files that were handed to it.
    pub table: &'a Vec<Rendering>,
    /// The indentation level of the invocation.
    pub base_indent: usize,
    /// The invocation that is printed.
    pub mac: &'a MaudMacro,
    /// The source file that the invocation stands in.
    pub source: &'a Rope,
    /// How templates are to be formatted.
    pub options: &'a FormatOptions,
}

/// The white space that indents a line by `levels` levels.
pub fn indentation_of(levels: usize) -> (r: Vec<char>)
    ensures
        r@ == indentation(levels),
{
    let mut r: Vec<char> = Vec::new();
    let mut i: usize = 0;
    while i < levels
        invariant
            i <= levels,
            r@ == indentation(i),
        decreases levels - i,
    {
        r.push(' ');
        r.push(' ');
        r.push(' ');
        r.push(' ');
        i += 1;
        assert(r@ == indentation(i));
    }
    r
}

impl<'a> Printer<'a> {
    /// What this printer's output depends on besides the tree.
    pub open spec fn ctx(&self) -> Ctx {
        Ctx {
            text: rope_text(*self.source),
            base_indent: self.base_indent,
            line_length: self.options.line_length,
            table: self.table@,
        }
    }

    /// The text printed so far.
    pub open spec fn out(&self) -> Out {
        Out {
            done: self.done@,
            buf: self.buf@,
            depth: self.depth,
            commented: self.commented,
            failed: self.failed@,
            asked: texts(self.asked@),
        }
    }

    /// This printer works on the same invocation, source and options as
    /// `other`.
    pub open spec fn same_setup(&self, other: &Printer<'a>) -> bool {
        &&& self.base_indent == other.base_indent
        &&& self.mac == other.mac
        &&& self.source == other.source
        &&& self.options == other.options
        &&& self.table == other.table
    }

    /// A printer for the invocation `mac` of `source` that has printed
    /// nothing yet.
    pub fn new(
        mac: &'a MaudMacro,
        source: &'a Rope,
        options: &'a FormatOptions,
        table: &'a Vec<Rendering>,
    ) -> (printer: Self)
        ensures
            printer.out() == blank(mac.indent.levels()),
            printer.base_indent == mac.indent.levels(),
            printer.mac == mac,
            printer.source == source,
            printer.options == options,
            printer.table == table,
    {
        let base_indent = mac.indent.level_count();
        let printer = Printer {
            done: Vec::new(),
            buf: Vec::new(),
            depth: base_indent,
            commented: false,
            failed: Vec::new(),
            asked: Vec::new(),
            table,
            base_indent,
            mac,
            source,
            options,
        };
        assert(texts(printer.asked@) == Seq::<Seq<char>>::empty());
        printer
    }

    /// Writes the invocation: the name of the macro and the outer block.
    pub fn print_ast(&mut self, ast: &Markups)
        ensures
            final(self).same_setup(old(self)),
            final(self).out() == old(self).out().ast(
                old(self).ctx(),
                old(self).mac.macro_name@,
                ast.markups@,
                old(self).mac.delimiter,
            ),
    {
        self.write(self.mac.macro_name.as_str());
        self.put2('!', ' ');
        if ast.markups.len() == 0 && !self.block_contains_comments(self.mac.delimiter) {
            self.put2('{', '}');
        } else {
            self.put('{');
            self.print_attr_comment(self.mac.delimiter.after_open());
            self.print_expanded(&ast.markups, self.mac.delimiter, 0);
        }
    }

    /// Notes that a host fragment at `span` was written as it stands in the
    /// source: as a failure, or, where only the rendering of `file` is
    /// missing, as a file to render.
    pub fn note_unrendered(&mut self, why: RenderFailure, span: Span, file: String)
        ensures
            final(self).same_setup(old(self)),
            final(self).out() == old(self).out().unrendered(why, span, file@),
    {
        match why {
            RenderFailure::Missing => {
                let ghost before = texts(self.asked@);
                self.asked.push(file);
                assert(texts(self.asked@) == before.push(file@));
            },
            _ => {
                self.failed.push(span);
            },
        }
    }

    /// The whole text that was printed.
    pub fn finish(self) -> (s: String)
        ensures
            s@ == self.out().text(),
    {
        let mut all = self.done;
        append_chars(&mut all, &self.buf);
        string_of(&all)
    }

    /// Completes the current line and begins a new one, indented.
    pub fn new_line(&mut self, indent_level: usize)
        ensures
            final(self).same_setup(old(self)),
            final(self).out() == old(self).out().new_line(old(self).ctx(), indent_level),
    {
        append_chars(&mut self.done, &self.buf);
        self.done.push('\n');
        assert(self.done@ =~= old(self).done@ + old(self).buf@ + seq!['\n']);
        self.depth = add_levels(self.base_indent, indent_level);
        self.buf = indentation_of(self.depth);
        self.commented = false;
    }

    /// Puts an empty line in the place of the current line and begins a new
    /// one, indented.
    pub fn blank_line(&mut self, indent_level: usize)
        ensures
            final(self).same_setup(old(self)),
            final(self).out() == old(self).out().blank_line(old(self).ctx(), indent_level),
    {
        self.done.push('\n');
        assert(self.done@ =~= old(self).done@ + seq!['\n']);
        self.depth = add_levels(self.base_indent, indent_level);
        self.buf = indentation_of(self.depth);
        self.commented = false;
    }

    /// Writes `content`.
    pub fn write(&mut self, content: &str)
        ensures
            final(self).same_setup(old(self)),
            final(self).out() == old(self).out().write(content@),
    {
        let chars = chars_of(content);
        self.write_chars(&chars);
    }

    /// Writes the characters `content`.
    pub fn write_chars(&mut self, content: &Vec<char>)
        ensures
            final(self).same_setup(old(self)),
            final(self).out() == old(self).out().write(content@),
    {
        if !self.commented {
            append_chars(&mut self.buf, content);
        } else {
            let skip = trim_start_len(content);
            if skip < content.len() {
                let rest = slice_of(content, skip, content.len());
                assert(rest@ == trim_start(content@)) by {
                    assert(content@.subrange(skip as int, content.len() as int) == content@.skip(
                        skip as int,
                    ));
                }
                append_chars(&mut self.done, &self.buf);
                self.done.push('\n');
                assert(self.done@ =~= old(self).done@ + old(self).buf@ + seq!['\n']);
                self.buf = indentation_of(add_levels(self.depth, 1));
                append_chars(&mut self.buf, &rest);
                self.commented = false;
            }
        }
    }

    /// Writes the character `c`.
    pub fn put(&mut self, c: char)
        ensures
            final(self).same_setup(old(self)),
            final(self).out() == old(self).out().write(seq![c]),
    {
        let mut one: Vec<char> = Vec::new();
        one.push(c);
        assert(one@ == seq![c]);
        self.write_chars(&one);
    }

    /// Writes the characters `a` and `b`.
    pub fn put2(&mut self, a: char, b: char)
        ensures
            final(self).same_setup(old(self)),
            final(self).out() == old(self).out().write(seq![a, b]),
    {
        let mut two: Vec<char> = Vec::new();
        two.push(a);
        two.push(b);
        assert(two@ == seq![a, b]);
        self.write_chars(&two);
    }

    /// The number of columns written to the current line.
    pub fn line_len(&self) -> (n: usize)
        ensures
            n == self.out().line_len(),
    {
        let mut at: usize = self.buf.len();
        assert(self.buf@.take(at as int) == self.buf@);
        while at > 0 && self.buf[at - 1] != '\n'
            invariant
                at <= self.buf.len(),
                column(self.buf@) == column(self.buf@.take(at as int)) + (self.buf.len() - at),
            decreases at,
        {
            assert(self.buf@.take(at as int).drop_last() == self.buf@.take(at - 1));
            at -= 1;
        }
        self.buf.len() - at
    }
}

} // verus!
