//! Elements: tag name, id, classes and named attributes in that order, then
//! the body.

use crate::ast::{
    Attribute, AttributeType, Element, ElementBody, HtmlName, HtmlNameFragment, HtmlNameOrMarkup,
    HtmlNamePart, HtmlNamePunct, LineColumn, Toggler,
};
use crate::line_length::{element_attrs_len, element_cost, last_id};
use crate::print::block::{exceeds, too_long};
use crate::print::{add_levels, level, Ctx, Out, Printer};
use crate::text::{append_str, string_of};
use vstd::prelude::*;

verus! {

/// The text of the string literal that `proc_macro2::Literal::string` makes
/// of a value.
pub uninterp spec fn string_literal(value: Seq<char>) -> Seq<char>;

/// `proc_macro2::Literal::string`, as text: the string literal that denotes
/// `value`.
#[verifier::external_body]
fn quoted(value: &str) -> (literal: String)
    ensures
        literal@ == string_literal(value@),
{
    proc_macro2::Literal::string(value).to_string()
}

/// A fragment of a name as it is written.
pub open spec fn fragment_text(fragment: HtmlNameFragment) -> Seq<char> {
    match fragment {
        HtmlNameFragment::Ident(s) => s@,
        HtmlNameFragment::LitInt(s) => s@,
        HtmlNameFragment::LitStr { token, .. } => token@,
        HtmlNameFragment::Empty => Seq::empty(),
    }
}

/// A fragment of a name as it is meant: a string literal stands for its
/// value.
pub open spec fn fragment_value(fragment: HtmlNameFragment) -> Seq<char> {
    match fragment {
        HtmlNameFragment::Ident(s) => s@,
        HtmlNameFragment::LitInt(s) => s@,
        HtmlNameFragment::LitStr { value, .. } => value@,
        HtmlNameFragment::Empty => Seq::empty(),
    }
}

/// The punctuation behind a fragment of a name.
pub open spec fn punct_text(punct: Option<HtmlNamePunct>) -> Seq<char> {
    match punct {
        Some(HtmlNamePunct::Hyphen) => seq!['-'],
        Some(HtmlNamePunct::Colon) => seq![':'],
        None => Seq::empty(),
    }
}

/// The parts of a name from index `from` on, as they are written.
pub open spec fn name_text(parts: Seq<HtmlNamePart>, from: int) -> Seq<char>
    decreases parts.len() - from,
{
    if 0 <= from < parts.len() {
        fragment_text(parts[from].fragment) + punct_text(parts[from].punct) + name_text(
            parts,
            from + 1,
        )
    } else {
        Seq::empty()
    }
}

/// The parts of a name from index `from` on, as they are meant.
pub open spec fn name_value(parts: Seq<HtmlNamePart>, from: int) -> Seq<char>
    decreases parts.len() - from,
{
    if 0 <= from < parts.len() {
        fragment_value(parts[from].fragment) + punct_text(parts[from].punct) + name_value(
            parts,
            from + 1,
        )
    } else {
        Seq::empty()
    }
}

/// Where an attribute starts in the source.
pub open spec fn attr_pos(attr: Attribute) -> LineColumn {
    match attr {
        Attribute::Class { dot, .. } => dot.start,
        Attribute::Id { pound, .. } => pound.start,
        Attribute::Named { name, .. } => name.span.start,
    }
}

/// Where an element without a tag name starts in the source: where the
/// first of its attributes starts, or its body where it has none.
pub open spec fn head_pos(attrs: Seq<Attribute>, body: ElementBody) -> LineColumn {
    if attrs.len() > 0 {
        attr_pos(attrs[0])
    } else {
        match body {
            ElementBody::Void { semi } => semi.start,
            ElementBody::Block(block) => block.brace.start,
        }
    }
}

/// The level of the line on which an attribute stands: one below that of
/// the element where the head is wrapped and the attribute is not the
/// first, and that of the element else.
pub open spec fn attr_level(is_first: bool, wrap: bool, indent_level: usize) -> usize {
    if wrap && !is_first {
        level(indent_level, 1)
    } else {
        indent_level
    }
}

/// One of the attributes `attrs` from index `from` on is a class.
pub open spec fn has_class(attrs: Seq<Attribute>, from: int) -> bool
    decreases attrs.len() - from,
{
    0 <= from < attrs.len() && (attrs[from] is Class || has_class(attrs, from + 1))
}

/// An attribute name that has to be written as a string literal: it holds
/// `@` or `.`, or starts with `:`.
pub open spec fn needs_quotes(value: Seq<char>) -> bool {
    value.contains('@') || value.contains('.') || (value.len() > 0 && value[0] == ':')
}

/// The name of a named attribute as it is printed.
pub open spec fn attribute_name_text(name: HtmlName) -> Seq<char> {
    let value = name_value(name.parts@, 0);
    if needs_quotes(value) {
        string_literal(value)
    } else {
        value
    }
}

impl Out {
    /// The head of the element does not fit on the current line, so each
    /// attribute but the first goes on a line of its own.
    pub open spec fn should_wrap(self, ctx: Ctx, element: Element) -> bool {
        too_long(
            self.line_len(),
            element_cost(element.name, element.attrs@, element.body),
            ctx.line_length,
        )
    }

    /// The state after a name is written.
    pub open spec fn html_name(self, name: HtmlName) -> Out {
        self.write(name_text(name.parts@, 0))
    }

    /// The state after a bracketed condition is written, with the comments
    /// that follow its brackets, for an attribute that stands on a line at
    /// `line_level`.
    pub open spec fn toggler(self, ctx: Ctx, toggler: Toggler, line_level: usize) -> Out {
        self.write(seq!['[']).attr_comment(ctx, toggler.bracket.open_end()).toggle_at(
            ctx,
            toggler.cond,
            line_level,
        ).write(seq![']']).attr_comment(ctx, toggler.bracket.end)
    }

    /// The state after the name of a class or an id is written.
    pub open spec fn name_or_markup(
        self,
        ctx: Ctx,
        name: HtmlNameOrMarkup,
        indent_level: usize,
    ) -> Out
        decreases name, 0nat,
    {
        match name {
            HtmlNameOrMarkup::HtmlName(html_name) => self.html_name(html_name).attr_comment(
                ctx,
                html_name.span.end,
            ),
            HtmlNameOrMarkup::Markup(markup) => self.markup(ctx, markup, indent_level, true),
        }
    }

    /// The state after the place of an attribute is prepared. The first
    /// attribute of an element stays with the tag name, behind `gap`, or,
    /// where there is no tag name, gets what leads up to the element, which
    /// starts at `at`. Any other goes on a new line, one level deeper, where
    /// the head is wrapped, and behind `gap` else.
    pub open spec fn attr_start(
        self,
        ctx: Ctx,
        is_first: bool,
        has_name: bool,
        wrap: bool,
        gap: Seq<char>,
        at: LineColumn,
        indent_level: usize,
        preserve_blank_lines: bool,
    ) -> Out {
        if is_first {
            if has_name {
                self.write(gap)
            } else {
                self.leading(ctx, at, indent_level, preserve_blank_lines)
            }
        } else if wrap {
            self.new_line(ctx, level(indent_level, 1))
        } else {
            self.write(gap)
        }
    }

    /// The state after the id of the element is written: the last id among
    /// `attrs`, if there is one. It is the first attribute of the element.
    pub open spec fn id_attr(
        self,
        ctx: Ctx,
        attrs: Seq<Attribute>,
        lead: LineColumn,
        has_name: bool,
        wrap: bool,
        indent_level: usize,
        preserve_blank_lines: bool,
    ) -> Out
        decreases attrs, attrs.len() + 1,
    {
        match last_id(attrs, attrs.len() as int) {
            Some(i) => if 0 <= i < attrs.len() {
                match attrs[i] {
                    Attribute::Id { pound, name } => self.attr_start(
                        ctx,
                        true,
                        has_name,
                        wrap,
                        seq![' '],
                        lead,
                        indent_level,
                        preserve_blank_lines,
                    ).write(seq!['#']).name_or_markup(ctx, name, indent_level),
                    _ => self,
                }
            } else {
                self
            },
            None => self,
        }
    }

    /// The state after the classes among `attrs` from index `from` on are
    /// written, in order; `is_first` tells whether no attribute of the
    /// element has been written before.
    pub open spec fn classes(
        self,
        ctx: Ctx,
        attrs: Seq<Attribute>,
        from: int,
        lead: LineColumn,
        is_first: bool,
        has_name: bool,
        wrap: bool,
        indent_level: usize,
        preserve_blank_lines: bool,
    ) -> Out
        decreases attrs, attrs.len() - from,
    {
        if 0 <= from < attrs.len() {
            match attrs[from] {
                Attribute::Class { dot, name, toggler } => {
                    let named = self.attr_start(
                        ctx,
                        is_first,
                        has_name,
                        wrap,
                        Seq::empty(),
                        lead,
                        indent_level,
                        preserve_blank_lines,
                    ).write(seq!['.']).name_or_markup(ctx, name, indent_level);
                    let toggled = match toggler {
                        Some(t) => named.toggler(
                            ctx,
                            t,
                            attr_level(is_first, wrap, indent_level),
                        ),
                        None => named,
                    };
                    toggled.classes(
                        ctx,
                        attrs,
                        from + 1,
                        lead,
                        false,
                        has_name,
                        wrap,
                        indent_level,
                        preserve_blank_lines,
                    )
                },
                _ => self.classes(
                    ctx,
                    attrs,
                    from + 1,
                    lead,
                    is_first,
                    has_name,
                    wrap,
                    indent_level,
                    preserve_blank_lines,
                ),
            }
        } else {
            self
        }
    }

    /// The state after the named attributes among `attrs` from index `from`
    /// on are written, in order; `is_first` tells whether no attribute of
    /// the element has been written before. A value, like a condition, is
    /// laid out at the level of the line that its attribute is on.
    pub open spec fn nameds(
        self,
        ctx: Ctx,
        attrs: Seq<Attribute>,
        from: int,
        lead: LineColumn,
        is_first: bool,
        has_name: bool,
        wrap: bool,
        indent_level: usize,
        preserve_blank_lines: bool,
    ) -> Out
        decreases attrs, attrs.len() - from,
    {
        if 0 <= from < attrs.len() {
            match attrs[from] {
                Attribute::Named { name, attr_type } => {
                    let named = self.attr_start(
                        ctx,
                        is_first,
                        has_name,
                        wrap,
                        seq![' '],
                        lead,
                        indent_level,
                        preserve_blank_lines,
                    ).write(attribute_name_text(name));
                    let valued = match attr_type {
                        AttributeType::Normal { value } => named.write(seq!['=']).markup(
                            ctx,
                            value,
                            attr_level(is_first, wrap, indent_level),
                            true,
                        ),
                        AttributeType::Optional { toggler } => named.write(seq!['=']).toggler(
                            ctx,
                            toggler,
                            attr_level(is_first, wrap, indent_level),
                        ),
                        AttributeType::Empty(Some(toggler)) => named.toggler(
                            ctx,
                            toggler,
                            attr_level(is_first, wrap, indent_level),
                        ),
                        AttributeType::Empty(None) => named,
                    };
                    valued.nameds(
                        ctx,
                        attrs,
                        from + 1,
                        lead,
                        false,
                        has_name,
                        wrap,
                        indent_level,
                        preserve_blank_lines,
                    )
                },
                _ => self.nameds(
                    ctx,
                    attrs,
                    from + 1,
                    lead,
                    is_first,
                    has_name,
                    wrap,
                    indent_level,
                    preserve_blank_lines,
                ),
            }
        } else {
            self
        }
    }

    /// The state after an element is written: its tag name with what leads
    /// up to it, its id, its classes, its named attributes, and its body: a
    /// semicolon, or a space and the block, which is laid out at the level
    /// of the element. Where the head is wrapped, the first attribute stays
    /// with the tag name and each of the others gets a line of its own.
    pub open spec fn element(
        self,
        ctx: Ctx,
        element: Element,
        indent_level: usize,
        preserve_blank_lines: bool,
    ) -> Out
        decreases element, 0nat,
    {
        let wrap = self.should_wrap(ctx, element);
        let named = match element.name {
            Some(name) => self.leading(ctx, name.span.start, indent_level, preserve_blank_lines).html_name(
                name,
            ).attr_comment(ctx, name.span.end),
            None => self,
        };
        let attrs = element.attrs@;
        let has_name = element.name is Some;
        let no_id = last_id(attrs, attrs.len() as int) is None;
        let lead = head_pos(attrs, element.body);
        let with_id = named.id_attr(ctx, attrs, lead, has_name, wrap, indent_level, preserve_blank_lines);
        let with_classes = with_id.classes(
            ctx,
            attrs,
            0,
            lead,
            no_id,
            has_name,
            wrap,
            indent_level,
            preserve_blank_lines,
        );
        let with_attrs = with_classes.nameds(
            ctx,
            attrs,
            0,
            lead,
            no_id && !has_class(attrs, 0),
            has_name,
            wrap,
            indent_level,
            preserve_blank_lines,
        );
        match element.body {
            ElementBody::Void { semi } => with_attrs.write(seq![';']).attr_comment(ctx, semi.end),
            ElementBody::Block(block) => with_attrs.write(seq![' ']).block(
                ctx,
                block,
                indent_level,
                false,
            ),
        }
    }
}

/// A head that fits stays on its line, and a head that is wrapped keeps its
/// first attribute: an attribute goes behind what is written, after its
/// gap, where the head is not wrapped or the attribute is the first behind
/// a tag name; any other attribute of a wrapped head begins a line of its
/// own, one level deeper.
pub proof fn lemma_attribute_places(
    out: Out,
    ctx: Ctx,
    is_first: bool,
    has_name: bool,
    wrap: bool,
    gap: Seq<char>,
    at: LineColumn,
    indent_level: usize,
    preserve_blank_lines: bool,
)
    ensures
        !is_first && !wrap ==> out.attr_start(
            ctx,
            is_first,
            has_name,
            wrap,
            gap,
            at,
            indent_level,
            preserve_blank_lines,
        ) == out.write(gap),
        is_first && has_name ==> out.attr_start(
            ctx,
            is_first,
            has_name,
            wrap,
            gap,
            at,
            indent_level,
            preserve_blank_lines,
        ) == out.write(gap),
        !is_first && wrap ==> out.attr_start(
            ctx,
            is_first,
            has_name,
            wrap,
            gap,
            at,
            indent_level,
            preserve_blank_lines,
        ) == out.new_line(ctx, level(indent_level, 1)),
        !out.commented ==> out.write(gap).done == out.done,
{
}

/// The text of a name as it is meant.
fn value_of(name: &HtmlName) -> (r: Vec<char>)
    ensures
        r@ == name_value(name.parts@, 0),
{
    let mut r: Vec<char> = Vec::new();
    let mut i: usize = name.parts.len();
    while i > 0
        invariant
            i <= name.parts.len(),
            r@ == name_value(name.parts@, i as int),
        decreases i,
    {
        i -= 1;
        let mut piece: Vec<char> = Vec::new();
        match &name.parts[i].fragment {
            HtmlNameFragment::Ident(s) => append_str(&mut piece, s.as_str()),
            HtmlNameFragment::LitInt(s) => append_str(&mut piece, s.as_str()),
            HtmlNameFragment::LitStr { value, .. } => append_str(&mut piece, value.as_str()),
            HtmlNameFragment::Empty => {},
        }
        match name.parts[i].punct {
            Some(HtmlNamePunct::Hyphen) => piece.push('-'),
            Some(HtmlNamePunct::Colon) => piece.push(':'),
            None => {},
        }
        assert(piece@ =~= fragment_value(name.parts@[i as int].fragment) + punct_text(
            name.parts@[i as int].punct,
        ));
        crate::text::append_chars(&mut piece, &r);
        r = piece;
    }
    r
}

/// The text of a name as it is written.
fn text_of(name: &HtmlName) -> (r: Vec<char>)
    ensures
        r@ == name_text(name.parts@, 0),
{
    let mut r: Vec<char> = Vec::new();
    let mut i: usize = name.parts.len();
    while i > 0
        invariant
            i <= name.parts.len(),
            r@ == name_text(name.parts@, i as int),
        decreases i,
    {
        i -= 1;
        let mut piece: Vec<char> = Vec::new();
        match &name.parts[i].fragment {
            HtmlNameFragment::Ident(s) => append_str(&mut piece, s.as_str()),
            HtmlNameFragment::LitInt(s) => append_str(&mut piece, s.as_str()),
            HtmlNameFragment::LitStr { token, .. } => append_str(&mut piece, token.as_str()),
            HtmlNameFragment::Empty => {},
        }
        match name.parts[i].punct {
            Some(HtmlNamePunct::Hyphen) => piece.push('-'),
            Some(HtmlNamePunct::Colon) => piece.push(':'),
            None => {},
        }
        assert(piece@ =~= fragment_text(name.parts@[i as int].fragment) + punct_text(
            name.parts@[i as int].punct,
        ));
        crate::text::append_chars(&mut piece, &r);
        r = piece;
    }
    r
}

/// Where an element without a tag name starts in the source.
fn head_of(attrs: &Vec<Attribute>, body: &ElementBody) -> (p: LineColumn)
    ensures
        p == head_pos(attrs@, *body),
{
    if attrs.len() > 0 {
        match &attrs[0] {
            Attribute::Class { dot, .. } => dot.start,
            Attribute::Id { pound, .. } => pound.start,
            Attribute::Named { name, .. } => name.span.start,
        }
    } else {
        match body {
            ElementBody::Void { semi } => semi.start,
            ElementBody::Block(block) => block.brace.start,
        }
    }
}

/// The level of the line on which an attribute stands.
fn line_level(is_first: bool, wrap: bool, indent_level: usize) -> (r: usize)
    ensures
        r == attr_level(is_first, wrap, indent_level),
{
    if wrap && !is_first {
        add_levels(indent_level, 1)
    } else {
        indent_level
    }
}

/// Tells whether an attribute name has to be written as a string literal.
fn quotes_needed(value: &Vec<char>) -> (b: bool)
    ensures
        b == needs_quotes(value@),
{
    let mut i: usize = 0;
    while i < value.len()
        invariant
            i <= value.len(),
            forall|j: int| 0 <= j < i ==> value@[j] != '@' && value@[j] != '.',
        decreases value.len() - i,
    {
        if value[i] == '@' || value[i] == '.' {
            return true;
        }
        i += 1;
    }
    value.len() > 0 && value[0] == ':'
}

impl<'a> Printer<'a> {
    /// Writes a name as it is written in the source.
    pub fn print_html_name(&mut self, name: &HtmlName)
        ensures
            final(self).same_setup(old(self)),
            final(self).out() == old(self).out().html_name(*name),
    {
        let text = text_of(name);
        self.write_chars(&text);
    }

    /// Writes the name of a named attribute, between quotes where it needs
    /// them.
    pub fn print_html_attribute_name(&mut self, name: &HtmlName)
        ensures
            final(self).same_setup(old(self)),
            final(self).out() == old(self).out().write(attribute_name_text(*name)),
    {
        let value = value_of(name);
        if quotes_needed(&value) {
            let literal = quoted(string_of(&value).as_str());
            self.write(literal.as_str());
        } else {
            self.write_chars(&value);
        }
    }

    /// Writes a bracketed condition with the comments behind its brackets.
    fn print_toggler(&mut self, toggler: &Toggler, line_level: usize)
        ensures
            final(self).same_setup(old(self)),
            final(self).out() == old(self).out().toggler(old(self).ctx(), *toggler, line_level),
    {
        self.put('[');
        self.print_attr_comment(toggler.bracket.after_open());
        self.print_toggle_at(&toggler.cond, line_level);
        self.put(']');
        self.print_attr_comment(toggler.bracket.end);
    }

    /// Writes the name of a class or an id.
    fn print_name_or_markup(&mut self, name: &HtmlNameOrMarkup, indent_level: usize)
        ensures
            final(self).same_setup(old(self)),
            final(self).out() == old(self).out().name_or_markup(
                old(self).ctx(),
                *name,
                indent_level,
            ),
        decreases *name, 0nat,
    {
        match name {
            HtmlNameOrMarkup::HtmlName(html_name) => {
                self.print_html_name(html_name);
                self.print_attr_comment(html_name.span.end);
            },
            HtmlNameOrMarkup::Markup(markup) => self.print_markup(markup, indent_level, true),
        }
    }

    /// Prepares the place of an attribute.
    fn print_attr_start(
        &mut self,
        is_first: bool,
        has_name: bool,
        wrap: bool,
        gap: bool,
        at: LineColumn,
        indent_level: usize,
        preserve_blank_lines: bool,
    )
        ensures
            final(self).same_setup(old(self)),
            final(self).out() == old(self).out().attr_start(
                old(self).ctx(),
                is_first,
                has_name,
                wrap,
                if gap {
                    seq![' ']
                } else {
                    Seq::empty()
                },
                at,
                indent_level,
                preserve_blank_lines,
            ),
    {
        if is_first && !has_name {
            self.print_inline_comment_and_whitespace(at, indent_level, preserve_blank_lines);
        } else if !is_first && wrap {
            self.new_line(add_levels(indent_level, 1));
        } else if gap {
            self.put(' ');
        } else {
            let nothing: Vec<char> = Vec::new();
            self.write_chars(&nothing);
        }
    }

    /// Writes the id of the element, if it has one, and tells whether it has.
    fn print_id(
        &mut self,
        attrs: &Vec<Attribute>,
        lead: LineColumn,
        has_name: bool,
        wrap: bool,
        indent_level: usize,
        preserve_blank_lines: bool,
    ) -> (found: bool)
        ensures
            final(self).same_setup(old(self)),
            final(self).out() == old(self).out().id_attr(
                old(self).ctx(),
                attrs@,
                lead,
                has_name,
                wrap,
                indent_level,
                preserve_blank_lines,
            ),
            found == last_id(attrs@, attrs.len() as int).is_some(),
        decreases *attrs, attrs.len() + 1,
    {
        let mut i: usize = attrs.len();
        while i > 0
            invariant
                i <= attrs.len(),
                last_id(attrs@, attrs.len() as int) == last_id(attrs@, i as int),
                self.same_setup(old(self)),
                self.out() == old(self).out(),
            decreases i,
        {
            i -= 1;
            if let Attribute::Id { pound, name } = &attrs[i] {
                self.print_attr_start(
                    true,
                    has_name,
                    wrap,
                    true,
                    lead,
                    indent_level,
                    preserve_blank_lines,
                );
                self.put('#');
                self.print_name_or_markup(name, indent_level);
                return true;
            }
        }
        false
    }

    /// Writes the classes of the element, and tells whether it has any.
    fn print_classes(
        &mut self,
        attrs: &Vec<Attribute>,
        lead: LineColumn,
        is_first: bool,
        has_name: bool,
        wrap: bool,
        indent_level: usize,
        preserve_blank_lines: bool,
    ) -> (found: bool)
        ensures
            final(self).same_setup(old(self)),
            final(self).out() == old(self).out().classes(
                old(self).ctx(),
                attrs@,
                0,
                lead,
                is_first,
                has_name,
                wrap,
                indent_level,
                preserve_blank_lines,
            ),
            found == has_class(attrs@, 0),
        decreases *attrs, attrs.len() + 1,
    {
        let ghost start = self.out();
        let ghost ctx = self.ctx();
        let mut first = is_first;
        let mut found = false;
        let mut i: usize = 0;
        while i < attrs.len()
            invariant
                i <= attrs.len(),
                self.same_setup(old(self)),
                ctx == old(self).ctx(),
                has_class(attrs@, 0) == (found || has_class(attrs@, i as int)),
                self.out().classes(
                    ctx,
                    attrs@,
                    i as int,
                    lead,
                    first,
                    has_name,
                    wrap,
                    indent_level,
                    preserve_blank_lines,
                ) == start.classes(
                    ctx,
                    attrs@,
                    0,
                    lead,
                    is_first,
                    has_name,
                    wrap,
                    indent_level,
                    preserve_blank_lines,
                ),
            decreases attrs.len() - i,
        {
            if let Attribute::Class { dot, name, toggler } = &attrs[i] {
                self.print_attr_start(
                    first,
                    has_name,
                    wrap,
                    false,
                    lead,
                    indent_level,
                    preserve_blank_lines,
                );
                self.put('.');
                self.print_name_or_markup(name, indent_level);
                if let Some(t) = toggler {
                    self.print_toggler(t, line_level(first, wrap, indent_level));
                }
                first = false;
                found = true;
            }
            i += 1;
        }
        found
    }

    /// Writes the named attributes of the element.
    fn print_named_attrs(
        &mut self,
        attrs: &Vec<Attribute>,
        lead: LineColumn,
        is_first: bool,
        has_name: bool,
        wrap: bool,
        indent_level: usize,
        preserve_blank_lines: bool,
    )
        ensures
            final(self).same_setup(old(self)),
            final(self).out() == old(self).out().nameds(
                old(self).ctx(),
                attrs@,
                0,
                lead,
                is_first,
                has_name,
                wrap,
                indent_level,
                preserve_blank_lines,
            ),
        decreases *attrs, attrs.len() + 1,
    {
        let ghost start = self.out();
        let ghost ctx = self.ctx();
        let mut first = is_first;
        let mut i: usize = 0;
        while i < attrs.len()
            invariant
                i <= attrs.len(),
                self.same_setup(old(self)),
                ctx == old(self).ctx(),
                self.out().nameds(
                    ctx,
                    attrs@,
                    i as int,
                    lead,
                    first,
                    has_name,
                    wrap,
                    indent_level,
                    preserve_blank_lines,
                ) == start.nameds(
                    ctx,
                    attrs@,
                    0,
                    lead,
                    is_first,
                    has_name,
                    wrap,
                    indent_level,
                    preserve_blank_lines,
                ),
            decreases attrs.len() - i,
        {
            if let Attribute::Named { name, attr_type } = &attrs[i] {
                self.print_attr_start(
                    first,
                    has_name,
                    wrap,
                    true,
                    lead,
                    indent_level,
                    preserve_blank_lines,
                );
                self.print_html_attribute_name(name);
                match attr_type {
                    AttributeType::Normal { value } => {
                        self.put('=');
                        self.print_markup(value, line_level(first, wrap, indent_level), true);
                    },
                    AttributeType::Optional { toggler } => {
                        self.put('=');
                        self.print_toggler(toggler, line_level(first, wrap, indent_level));
                    },
                    AttributeType::Empty(Some(toggler)) => {
                        self.print_toggler(toggler, line_level(first, wrap, indent_level));
                    },
                    AttributeType::Empty(None) => {},
                }
                first = false;
            }
            i += 1;
        }
    }

    /// Writes an element.
    pub fn print_element_with_contents(
        &mut self,
        element: &Element,
        indent_level: usize,
        preserve_blank_lines: bool,
    )
        ensures
            final(self).same_setup(old(self)),
            final(self).out() == old(self).out().element(
                old(self).ctx(),
                *element,
                indent_level,
                preserve_blank_lines,
            ),
        decreases *element, 0nat,
    {
        let should_wrap = exceeds(
            self.line_len(),
            element_attrs_len(&element.name, &element.attrs, &element.body),
            self.options.line_length,
        );
        let has_name = element.name.is_some();
        if let Some(html_name) = &element.name {
            self.print_inline_comment_and_whitespace(html_name.span.start, indent_level, preserve_blank_lines);
            self.print_html_name(html_name);
            self.print_attr_comment(html_name.span.end);
        }
        let lead = head_of(&element.attrs, &element.body);
        let has_id = self.print_id(
            &element.attrs,
            lead,
            has_name,
            should_wrap,
            indent_level,
            preserve_blank_lines,
        );
        let has_classes = self.print_classes(
            &element.attrs,
            lead,
            !has_id,
            has_name,
            should_wrap,
            indent_level,
            preserve_blank_lines,
        );
        self.print_named_attrs(
            &element.attrs,
            lead,
            !has_id && !has_classes,
            has_name,
            should_wrap,
            indent_level,
            preserve_blank_lines,
        );
        match &element.body {
            ElementBody::Void { semi } => {
                self.put(';');
                self.print_attr_comment(semi.end);
            },
            ElementBody::Block(block) => {
                self.put(' ');
                self.print_block(block, indent_level);
            },
        }
    }
}

} // verus!
