//! The line-fit estimator: how many columns a fragment of markup takes when
//! it is printed on one line, where that can be told without printing it.
//!
//! A cost is `None` where the fragment cannot be measured inline: it is an
//! element, a nested block or a control-flow form, it spans several source
//! lines, a part of it cannot be measured, or the count does not fit in a
//! machine word.

use crate::ast::{
    Attribute, AttributeType, Block, ElementBody, Expr, HtmlName, HtmlNameOrMarkup, Markup, Span,
    Toggler,
};
use vstd::prelude::*;

verus! {

/// The sum of two costs, where both are known and the sum fits.
pub open spec fn plus(a: Option<usize>, b: Option<usize>) -> Option<usize> {
    match (a, b) {
        (Some(x), Some(y)) => if x + y <= usize::MAX {
            Some((x + y) as usize)
        } else {
            None
        },
        _ => None,
    }
}

/// The number of columns between the two ends of `span`, where both are on
/// one line and in order.
pub open spec fn span_cost(span: Span) -> Option<usize> {
    if span.start.line == span.end.line && span.start.column <= span.end.column {
        Some((span.end.column - span.start.column) as usize)
    } else {
        None
    }
}

/// The cost of a markup node: the width of a literal or of the expression
/// of a splice, one column for a semicolon; what has a structure of its own
/// is not measured.
pub open spec fn markup_cost(markup: Markup) -> Option<usize> {
    match markup {
        Markup::Lit(lit) => span_cost(lit.span),
        Markup::Splice { expr, .. } => span_cost(expr.span),
        Markup::Element(_) => None,
        Markup::Block(_) => None,
        Markup::ControlFlow(_) => None,
        Markup::Semi { .. } => Some(1),
    }
}

/// The cost of the nodes of `markups` from index `from` on, each followed by
/// one space.
pub open spec fn markups_cost(markups: Seq<Markup>, from: int) -> Option<usize>
    decreases markups.len() - from,
{
    if 0 <= from < markups.len() {
        plus(plus(markup_cost(markups[from]), Some(1)), markups_cost(markups, from + 1))
    } else {
        Some(0)
    }
}

/// The cost of a block on one line: `{ `, each node with a space behind it,
/// and `}`.
pub open spec fn block_cost(block: Block) -> Option<usize> {
    plus(plus(Some(2), markups_cost(block.markups.markups@, 0)), Some(1))
}

/// The cost of a class or id name.
pub open spec fn name_or_markup_cost(name: HtmlNameOrMarkup) -> Option<usize> {
    match name {
        HtmlNameOrMarkup::HtmlName(html_name) => span_cost(html_name.span),
        HtmlNameOrMarkup::Markup(markup) => markup_cost(markup),
    }
}

/// The cost of a bracketed condition: both brackets and what they hold.
pub open spec fn toggler_cost(toggler: Toggler) -> Option<usize> {
    plus(plus(Some(1), span_cost(toggler.cond.span)), Some(1))
}

/// The cost of an optional bracketed condition.
pub open spec fn maybe_toggler_cost(toggler: Option<Toggler>) -> Option<usize> {
    match toggler {
        Some(t) => toggler_cost(t),
        None => Some(0),
    }
}

/// The index of the id attribute that counts: the last one of `attrs`
/// before index `upto`.
pub open spec fn last_id(attrs: Seq<Attribute>, upto: int) -> Option<int>
    decreases upto,
{
    if upto <= 0 || upto > attrs.len() {
        None
    } else if attrs[upto - 1] is Id {
        Some(upto - 1)
    } else {
        last_id(attrs, upto - 1)
    }
}

/// The cost of the id of an element: `#` and the name, with a space before
/// them where a tag name precedes.
pub open spec fn id_cost(attrs: Seq<Attribute>, has_name: bool) -> Option<usize> {
    match last_id(attrs, attrs.len() as int) {
        Some(i) => match attrs[i] {
            Attribute::Id { name, .. } => plus(
                Some(
                    if has_name {
                        2
                    } else {
                        1
                    },
                ),
                name_or_markup_cost(name),
            ),
            _ => Some(0),
        },
        None => Some(0),
    }
}

/// The cost of one attribute as a class: `.`, the name and its condition;
/// nothing for an attribute of another kind.
pub open spec fn class_cost(attr: Attribute) -> Option<usize> {
    match attr {
        Attribute::Class { name, toggler, .. } => plus(
            plus(Some(1), name_or_markup_cost(name)),
            maybe_toggler_cost(toggler),
        ),
        _ => Some(0),
    }
}

/// The cost of what follows the name of a named attribute.
pub open spec fn attr_type_cost(attr_type: AttributeType) -> Option<usize> {
    match attr_type {
        AttributeType::Normal { value } => plus(Some(1), markup_cost(value)),
        AttributeType::Optional { toggler } => plus(Some(1), toggler_cost(toggler)),
        AttributeType::Empty(toggler) => maybe_toggler_cost(toggler),
    }
}

/// The cost of one attribute as a named attribute: a space, the name and
/// what follows it; nothing for an attribute of another kind.
pub open spec fn named_cost(attr: Attribute) -> Option<usize> {
    match attr {
        Attribute::Named { name, attr_type } => plus(
            plus(Some(1), span_cost(name.span)),
            attr_type_cost(attr_type),
        ),
        _ => Some(0),
    }
}

/// The cost of the classes among `attrs` from index `from` on.
pub open spec fn classes_cost(attrs: Seq<Attribute>, from: int) -> Option<usize>
    decreases attrs.len() - from,
{
    if 0 <= from < attrs.len() {
        plus(class_cost(attrs[from]), classes_cost(attrs, from + 1))
    } else {
        Some(0)
    }
}

/// The cost of the named attributes among `attrs` from index `from` on.
pub open spec fn nameds_cost(attrs: Seq<Attribute>, from: int) -> Option<usize>
    decreases attrs.len() - from,
{
    if 0 <= from < attrs.len() {
        plus(named_cost(attrs[from]), nameds_cost(attrs, from + 1))
    } else {
        Some(0)
    }
}

/// The cost of the end of an element's head: `;` for a void element, a
/// space and the opening brace for one with a block.
pub open spec fn body_cost(body: ElementBody) -> usize {
    match body {
        ElementBody::Void { .. } => 1,
        ElementBody::Block(_) => 2,
    }
}

/// The cost of the tag name of an element.
pub open spec fn tag_cost(name: Option<HtmlName>) -> Option<usize> {
    match name {
        Some(html_name) => span_cost(html_name.span),
        None => Some(0),
    }
}

/// The cost of the head of an element on one line: tag name, id, classes,
/// named attributes, and the end of the head.
pub open spec fn element_cost(
    name: Option<HtmlName>,
    attrs: Seq<Attribute>,
    body: ElementBody,
) -> Option<usize> {
    plus(
        plus(
            plus(plus(tag_cost(name), id_cost(attrs, name is Some)), classes_cost(attrs, 0)),
            nameds_cost(attrs, 0),
        ),
        Some(body_cost(body)),
    )
}

/// The sum of two costs.
fn sum(a: Option<usize>, b: Option<usize>) -> (r: Option<usize>)
    ensures
        r == plus(a, b),
{
    match (a, b) {
        (Some(x), Some(y)) => if y <= usize::MAX - x {
            Some(x + y)
        } else {
            None
        },
        _ => None,
    }
}

/// The width of a span on one line.
fn span_len(span: &Span) -> (r: Option<usize>)
    ensures
        r == span_cost(*span),
{
    if span.start.line == span.end.line && span.start.column <= span.end.column {
        Some(span.end.column - span.start.column)
    } else {
        None
    }
}

/// The cost of a markup node; `None` where it has to go on several lines.
pub fn markup_len(markup: &Markup) -> (r: Option<usize>)
    ensures
        r == markup_cost(*markup),
{
    match markup {
        Markup::Lit(lit) => span_len(&lit.span),
        Markup::Splice { expr, .. } => expr_len(expr),
        Markup::Element(_) => None,
        Markup::Block(_) => None,
        Markup::ControlFlow(_) => None,
        Markup::Semi { .. } => Some(1),
    }
}

/// The cost of a block on one line.
pub fn block_len(block: &Block) -> (r: Option<usize>)
    ensures
        r == block_cost(*block),
{
    let markups = &block.markups.markups;
    let mut i: usize = markups.len();
    let mut rest: Option<usize> = Some(0);
    while i > 0
        invariant
            i <= markups.len(),
            markups == &block.markups.markups,
            rest == markups_cost(markups@, i as int),
        decreases i,
    {
        i -= 1;
        rest = sum(sum(markup_len(&markups[i]), Some(1)), rest);
    }
    sum(sum(Some(2), rest), Some(1))
}

/// The cost of a class or id name.
pub fn html_name_or_markup_len(html_or_markup: &HtmlNameOrMarkup) -> (r: Option<usize>)
    ensures
        r == name_or_markup_cost(*html_or_markup),
{
    match html_or_markup {
        HtmlNameOrMarkup::HtmlName(html_name) => html_name_len(html_name),
        HtmlNameOrMarkup::Markup(markup) => markup_len(markup),
    }
}

/// The cost of a name: its width in the source, where it is on one line.
pub fn html_name_len(html_name: &HtmlName) -> (r: Option<usize>)
    ensures
        r == span_cost(html_name.span),
{
    span_len(&html_name.span)
}

/// The cost of a host expression: its width in the source, where it is on
/// one line.
pub fn expr_len(expr: &Expr) -> (r: Option<usize>)
    ensures
        r == span_cost(expr.span),
{
    span_len(&expr.span)
}

/// The cost of a bracketed condition.
fn toggler_len(toggler: &Toggler) -> (r: Option<usize>)
    ensures
        r == toggler_cost(*toggler),
{
    sum(sum(Some(1), expr_len(&toggler.cond)), Some(1))
}

/// The cost of an optional bracketed condition.
fn maybe_toggler_len(toggler: &Option<Toggler>) -> (r: Option<usize>)
    ensures
        r == maybe_toggler_cost(*toggler),
{
    match toggler {
        Some(t) => toggler_len(t),
        None => Some(0),
    }
}

/// The cost of the id of an element.
fn id_len(attrs: &Vec<Attribute>, has_name: bool) -> (r: Option<usize>)
    ensures
        r == id_cost(attrs@, has_name),
{
    let mut i: usize = attrs.len();
    while i > 0
        invariant
            i <= attrs.len(),
            last_id(attrs@, attrs.len() as int) == last_id(attrs@, i as int),
        decreases i,
    {
        i -= 1;
        if let Attribute::Id { name, .. } = &attrs[i] {
            return sum(
                Some(
                    if has_name {
                        2
                    } else {
                        1
                    },
                ),
                html_name_or_markup_len(name),
            );
        }
    }
    Some(0)
}

/// The cost of one attribute as a class.
fn class_len(attr: &Attribute) -> (r: Option<usize>)
    ensures
        r == class_cost(*attr),
{
    match attr {
        Attribute::Class { name, toggler, .. } => sum(
            sum(Some(1), html_name_or_markup_len(name)),
            maybe_toggler_len(toggler),
        ),
        _ => Some(0),
    }
}

/// The cost of one attribute as a named attribute.
fn named_len(attr: &Attribute) -> (r: Option<usize>)
    ensures
        r == named_cost(*attr),
{
    match attr {
        Attribute::Named { name, attr_type } => {
            let tail = match attr_type {
                AttributeType::Normal { value } => sum(Some(1), markup_len(value)),
                AttributeType::Optional { toggler } => sum(Some(1), toggler_len(toggler)),
                AttributeType::Empty(toggler) => maybe_toggler_len(toggler),
            };
            sum(sum(Some(1), html_name_len(name)), tail)
        },
        _ => Some(0),
    }
}

/// The cost of the head of an element on one line; `None` where a part of
/// it cannot be measured.
pub fn element_attrs_len(
    name: &Option<HtmlName>,
    attrs: &Vec<Attribute>,
    body: &ElementBody,
) -> (r: Option<usize>)
    ensures
        r == element_cost(*name, attrs@, *body),
{
    let tag = match name {
        Some(html_name) => html_name_len(html_name),
        None => Some(0),
    };
    let id = id_len(attrs, name.is_some());
    let mut i: usize = attrs.len();
    let mut classes: Option<usize> = Some(0);
    let mut nameds: Option<usize> = Some(0);
    while i > 0
        invariant
            i <= attrs.len(),
            classes == classes_cost(attrs@, i as int),
            nameds == nameds_cost(attrs@, i as int),
        decreases i,
    {
        i -= 1;
        classes = sum(class_len(&attrs[i]), classes);
        nameds = sum(named_len(&attrs[i]), nameds);
    }
    let end: usize = match body {
        ElementBody::Void { .. } => 1,
        ElementBody::Block(_) => 2,
    };
    sum(sum(sum(sum(tag, id), classes), nameds), Some(end))
}

} // verus!
