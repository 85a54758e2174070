use maudfmt::ast::{
    Attribute, AttributeType, Block, ControlFlow, ControlFlowKind, Element, ElementBody, Expr,
    ExprKind, ForExpr, HtmlLit, HtmlName, HtmlNameFragment, HtmlNameOrMarkup, HtmlNamePart,
    HtmlNamePunct, IfExpr, IfOrBlock, LineColumn, Local, Markup, Markups, MatchArm, MatchExpr,
    Pat, Span, Toggler, WhileExpr,
};
use maudfmt::collect::{attr_is_rustfmt_skip, get_macro_full_path, should_format, Indent, MaudMacro};
use maudfmt::format::FormatOptions;
use proc_macro2::Delimiter;
use quote::ToTokens;
use syn::ext::IdentExt;
use syn::parse::{ParseStream, Parser};
use syn::spanned::Spanned;
use syn::token;
use syn::visit::{self, Visit};

// ---- from the host syntax tree to the markup tree ----

fn point(p: proc_macro2::LineColumn) -> LineColumn {
    LineColumn { line: p.line, column: p.column }
}

fn span(s: proc_macro2::Span) -> Span {
    Span { start: point(s.start()), end: point(s.end()) }
}

fn text<T: ToTokens>(t: &T) -> String {
    t.to_token_stream().to_string()
}

fn expr(e: &syn::Expr) -> Expr {
    let kind = match e {
        syn::Expr::Block(b) => ExprKind::Block {
            stmts: b.block.stmts.iter().map(text).collect::<Vec<_>>().join(" "),
        },
        syn::Expr::Range(r) => ExprKind::Range {
            start: r.start.as_deref().map(|e| Box::new(expr(e))),
            closed: matches!(r.limits, syn::RangeLimits::Closed(_)),
            end: r.end.as_deref().map(|e| Box::new(expr(e))),
        },
        syn::Expr::Let(l) => ExprKind::Let { pat: pat(&l.pat), expr: Box::new(expr(&l.expr)) },
        _ => ExprKind::Other,
    };
    Expr { span: span(e.span()), tokens: text(e), kind }
}

fn pat(p: &syn::Pat) -> Pat {
    Pat { span: span(p.span()), tokens: text(p) }
}

// ---- the template grammar ----

fn group(input: ParseStream, delimiter: Delimiter) -> syn::Result<proc_macro2::Group> {
    let g: proc_macro2::Group = input.parse()?;
    if g.delimiter() == delimiter {
        Ok(g)
    } else {
        Err(syn::Error::new(g.span(), "unexpected delimiter"))
    }
}

fn markups(input: ParseStream) -> syn::Result<Vec<Markup>> {
    let mut all = Vec::new();
    while !input.is_empty() {
        all.push(markup(input, true)?);
    }
    Ok(all)
}

fn markup(input: ParseStream, elements: bool) -> syn::Result<Markup> {
    let lookahead = input.lookahead1();
    if lookahead.peek(token::Brace) {
        Ok(Markup::Block(block(input, elements)?))
    } else if lookahead.peek(syn::Lit) {
        let lit: syn::Lit = input.parse()?;
        Ok(Markup::Lit(HtmlLit { span: span(lit.span()), text: text(&lit) }))
    } else if lookahead.peek(token::Paren) {
        let g = group(input, Delimiter::Parenthesis)?;
        let inner: syn::Expr = syn::parse2(g.stream())?;
        Ok(Markup::Splice { paren: span(g.span()), expr: expr(&inner) })
    } else if elements
        && (lookahead.peek(syn::Ident::peek_any)
            || lookahead.peek(token::Dot)
            || lookahead.peek(token::Pound))
    {
        Ok(Markup::Element(element(input)?))
    } else if lookahead.peek(token::At) {
        Ok(Markup::ControlFlow(control_flow(input, elements)?))
    } else if lookahead.peek(token::Semi) {
        Ok(Markup::Semi { semi: span(input.parse::<token::Semi>()?.span) })
    } else {
        Err(lookahead.error())
    }
}

fn block(input: ParseStream, elements: bool) -> syn::Result<Block> {
    let g = group(input, Delimiter::Brace)?;
    let inside = (|content: ParseStream| {
        let mut all = Vec::new();
        while !content.is_empty() {
            all.push(markup(content, elements)?);
        }
        Ok(all)
    })
    .parse2(g.stream())?;
    Ok(Block { brace: span(g.span()), markups: Markups { markups: inside } })
}

fn element(input: ParseStream) -> syn::Result<Element> {
    let name = if input.peek(syn::Ident::peek_any) { Some(html_name(input)?) } else { None };
    let mut attrs = Vec::new();
    while input.peek(syn::Ident::peek_any)
        || input.peek(syn::Lit)
        || input.peek(token::Dot)
        || input.peek(token::Pound)
    {
        attrs.push(attribute(input)?);
    }
    let lookahead = input.lookahead1();
    let body = if lookahead.peek(token::Semi) {
        ElementBody::Void { semi: span(input.parse::<token::Semi>()?.span) }
    } else if lookahead.peek(token::Brace) {
        ElementBody::Block(block(input, true)?)
    } else {
        return Err(lookahead.error());
    };
    Ok(Element { name, attrs, body })
}

fn attribute(input: ParseStream) -> syn::Result<Attribute> {
    if input.peek(token::Dot) {
        let dot = span(input.parse::<token::Dot>()?.span);
        let name = name_or_markup(input)?;
        let toggler = if input.peek(token::Bracket) { Some(toggler(input)?) } else { None };
        Ok(Attribute::Class { dot, name, toggler })
    } else if input.peek(token::Pound) {
        let pound = span(input.parse::<token::Pound>()?.span);
        Ok(Attribute::Id { pound, name: name_or_markup(input)? })
    } else {
        let name = html_name(input)?;
        let attr_type = if input.peek(token::Eq) {
            input.parse::<token::Eq>()?;
            if input.peek(token::Bracket) {
                AttributeType::Optional { toggler: toggler(input)? }
            } else {
                AttributeType::Normal { value: markup(input, false)? }
            }
        } else if input.peek(token::Bracket) {
            AttributeType::Empty(Some(toggler(input)?))
        } else {
            AttributeType::Empty(None)
        };
        Ok(Attribute::Named { name, attr_type })
    }
}

fn name_or_markup(input: ParseStream) -> syn::Result<HtmlNameOrMarkup> {
    if input.peek(syn::Ident::peek_any) || input.peek(syn::Lit) {
        Ok(HtmlNameOrMarkup::HtmlName(html_name(input)?))
    } else {
        Ok(HtmlNameOrMarkup::Markup(markup(input, false)?))
    }
}

fn html_name(input: ParseStream) -> syn::Result<HtmlName> {
    let mut parts = Vec::new();
    let mut first: Option<proc_macro2::Span> = None;
    let mut last: Option<proc_macro2::Span> = None;
    loop {
        let fragment = if input.peek(syn::Ident::peek_any) {
            let ident = input.call(syn::Ident::parse_any)?;
            last = Some(ident.span());
            HtmlNameFragment::Ident(ident.to_string())
        } else if input.peek(syn::LitInt) {
            let lit: syn::LitInt = input.parse()?;
            last = Some(lit.span());
            HtmlNameFragment::LitInt(lit.to_string())
        } else if input.peek(syn::LitStr) {
            let lit: syn::LitStr = input.parse()?;
            last = Some(lit.span());
            HtmlNameFragment::LitStr { token: text(&lit), value: lit.value() }
        } else {
            HtmlNameFragment::Empty
        };
        first = first.or(last);
        let punct = if input.peek(token::Minus) {
            let minus: token::Minus = input.parse()?;
            last = Some(minus.span);
            Some(HtmlNamePunct::Hyphen)
        } else if input.peek(token::Colon) {
            let colon: token::Colon = input.parse()?;
            last = Some(colon.span);
            Some(HtmlNamePunct::Colon)
        } else {
            None
        };
        first = first.or(last);
        let done = punct.is_none();
        parts.push(HtmlNamePart { fragment, punct });
        if done {
            break;
        }
    }
    match (first, last) {
        (Some(first), Some(last)) => {
            Ok(HtmlName { span: span(first.join(last).unwrap_or(first)), parts })
        }
        _ => Err(input.error("expected a name")),
    }
}

fn toggler(input: ParseStream) -> syn::Result<Toggler> {
    let g = group(input, Delimiter::Bracket)?;
    let cond: syn::Expr = syn::parse2(g.stream())?;
    Ok(Toggler { bracket: span(g.span()), cond: expr(&cond) })
}

fn control_flow(input: ParseStream, elements: bool) -> syn::Result<ControlFlow> {
    let at = span(input.parse::<token::At>()?.span);
    let lookahead = input.lookahead1();
    let kind = if lookahead.peek(token::If) {
        ControlFlowKind::If(if_expr(input, elements)?)
    } else if lookahead.peek(token::For) {
        input.parse::<token::For>()?;
        let pattern = syn::Pat::parse_multi_with_leading_vert(input)?;
        input.parse::<token::In>()?;
        let source = input.call(syn::Expr::parse_without_eager_brace)?;
        ControlFlowKind::For(ForExpr {
            pat: pat(&pattern),
            expr: expr(&source),
            body: block(input, elements)?,
        })
    } else if lookahead.peek(token::While) {
        input.parse::<token::While>()?;
        let cond = input.call(syn::Expr::parse_without_eager_brace)?;
        ControlFlowKind::While(WhileExpr { cond: expr(&cond), body: block(input, elements)? })
    } else if lookahead.peek(token::Match) {
        input.parse::<token::Match>()?;
        let scrutinee = input.call(syn::Expr::parse_without_eager_brace)?;
        let g = group(input, Delimiter::Brace)?;
        let arms = (|content: ParseStream| {
            let mut arms = Vec::new();
            while !content.is_empty() {
                let pattern = syn::Pat::parse_multi_with_leading_vert(content)?;
                let guard = if content.peek(token::If) {
                    content.parse::<token::If>()?;
                    Some(expr(&content.parse::<syn::Expr>()?))
                } else {
                    None
                };
                content.parse::<token::FatArrow>()?;
                let body = markup(content, elements)?;
                if content.peek(token::Comma) {
                    content.parse::<token::Comma>()?;
                }
                arms.push(MatchArm { pat: pat(&pattern), guard, body });
            }
            Ok(arms)
        })
        .parse2(g.stream())?;
        ControlFlowKind::Match(MatchExpr { expr: expr(&scrutinee), brace: span(g.span()), arms })
    } else if lookahead.peek(token::Let) {
        match input.parse::<syn::Stmt>()? {
            syn::Stmt::Local(local) => {
                ControlFlowKind::Let(Local { span: span(local.span()), tokens: text(&local) })
            }
            other => return Err(syn::Error::new(other.span(), "expected a `let` binding")),
        }
    } else {
        return Err(lookahead.error());
    };
    Ok(ControlFlow { at, kind })
}

fn if_expr(input: ParseStream, elements: bool) -> syn::Result<IfExpr> {
    input.parse::<token::If>()?;
    let cond = input.call(syn::Expr::parse_without_eager_brace)?;
    let then_branch = block(input, elements)?;
    let else_branch = if input.peek(token::At) && input.peek2(token::Else) {
        input.parse::<token::At>()?;
        input.parse::<token::Else>()?;
        let lookahead = input.lookahead1();
        if lookahead.peek(token::If) {
            Some(Box::new(IfOrBlock::If(if_expr(input, elements)?)))
        } else if lookahead.peek(token::Brace) {
            Some(Box::new(IfOrBlock::Block(block(input, elements)?)))
        } else {
            return Err(lookahead.error());
        }
    } else {
        None
    };
    Ok(IfExpr { cond: expr(&cond), then_branch, else_branch })
}

// ---- finding the invocations ----

struct MacroVisitor<'a> {
    macros: Vec<MaudMacro>,
    lines: Vec<&'a str>,
    macro_names: &'a Vec<String>,
    skip_count: usize,
}

fn segments(path: &syn::Path) -> Vec<String> {
    path.segments.iter().map(|segment| segment.ident.to_string()).collect()
}

impl<'ast, 'a> Visit<'ast> for MacroVisitor<'a> {
    fn visit_macro(&mut self, node: &'ast syn::Macro) {
        let name = get_macro_full_path(&segments(&node.path));
        if should_format(&name, self.macro_names, self.skip_count) {
            let line = node.span().start().line;
            let delimiter = node.delimiter.span();
            self.macros.push(MaudMacro {
                indent: Indent::of_line(self.lines.get(line - 1).copied().unwrap_or("")),
                macro_name: name,
                start: point(node.path.span().start()),
                delimiter: span(delimiter.join()),
                markups: markups.parse2(node.tokens.clone()).ok().map(|m| Markups { markups: m }),
            });
        }
        visit::visit_macro(self, node);
    }

    fn visit_stmt(&mut self, i: &'ast syn::Stmt) {
        let skipped = self.skip_count;
        visit::visit_stmt(self, i);
        self.skip_count = skipped;
    }

    fn visit_item(&mut self, i: &'ast syn::Item) {
        let skipped = self.skip_count;
        visit::visit_item(self, i);
        self.skip_count = skipped;
    }

    fn visit_attribute(&mut self, i: &'ast syn::Attribute) {
        let is_outer = matches!(i.style, syn::AttrStyle::Outer);
        let is_bare_path = matches!(i.meta, syn::Meta::Path(_));
        if attr_is_rustfmt_skip(&segments(i.path()), is_outer, is_bare_path) {
            self.skip_count += 1;
        }
        visit::visit_attribute(self, i);
    }
}

/// Finds the invocations of `processed` and parses their templates.
fn locate(processed: &str, macro_names: &Vec<String>) -> Result<Vec<MaudMacro>, String> {
    let file = syn::parse_file(processed).map_err(|e| format!("Failed to parse source: {e}"))?;
    let mut visitor = MacroVisitor {
        macros: Vec::new(),
        lines: processed.split('\n').collect(),
        macro_names,
        skip_count: 0,
    };
    visitor.visit_file(&file);
    Ok(visitor.macros)
}

/// Renders a file of the host language; `None` where it does not parse.
fn render(file: &str) -> Option<String> {
    syn::parse_file(file).ok().map(|parsed| prettyplease::unparse(&parsed))
}

fn try_fmt_file(source: &str, options: &FormatOptions) -> Result<String, String> {
    maudfmt::try_fmt_file(source, options, |text: &str| locate(text, &options.macro_names), render)
}

fn small() -> FormatOptions {
    FormatOptions { line_length: 40, ..FormatOptions::default() }
}

/// Formats `content` and expects `expected`; then formats `expected` and
/// expects it to stay as it is.
fn check(content: &str, expected: &str, options: &FormatOptions) {
    assert_eq!(try_fmt_file(content, options).expect("should be able to parse"), expected);
    assert_eq!(
        try_fmt_file(expected, options).expect("expected should be parsable and valid"),
        expected
    );
}

#[test]
fn maudfmt_ignore_multiple_lines() {
    check(
        r#"
        html! {
            p {"formatted" }
            // maudfmt-ignore
            div class="unformatted"   id="test" { "content" }
            // maudfmt-ignore
            span  style="color:red;" { "text" }
            h1 {"formatted" }
        }
        "#,
        r#"
        html! {
            p { "formatted" }
            // maudfmt-ignore
            div class="unformatted"   id="test" { "content" }
            // maudfmt-ignore
            span  style="color:red;" { "text" }
            h1 { "formatted" }
        }
        "#,
        &FormatOptions::default(),
    );
}

#[test]
fn maudfmt_ignore_with_extra_brace() {
    check(
        r#"
        html! {
            p {"formatted" }
            //maudfmt-ignore
            div class="unformatted"   id="test" { "content" } { {
            span {"formatted again" }
        }
        "#,
        r#"
        html! {
            p { "formatted" }
            // maudfmt-ignore
            div class="unformatted"   id="test" { "content" } { {
            span { "formatted again" }
        }
        "#,
        &FormatOptions::default(),
    );
}

#[test]
fn maudfmt_ignore_with_comment_text() {
    check(
        r#"
        html! {
            p {"formatted" }
            // maudfmt-ignore this line is special
            div class="unformatted"   id="test" { "content" }
            span {"formatted again" }
        }
        "#,
        r#"
        html! {
            p { "formatted" }
            // maudfmt-ignore this line is special
            div class="unformatted"   id="test" { "content" }
            span { "formatted again" }
        }
        "#,
        &FormatOptions::default(),
    );
}

#[test]
fn maudfmt_ignore_long_line_no_split() {
    check(
        r#"
        html! {
            div {
                p { "formatted"}
                // maudfmt-ignore
                span class="unformatted"   id="test" { "content" "more content to split the lines" "even more content to split the lines further" }
                h1 {"formatted" }
            }
        }
        "#,
        r#"
        html! {
            div {
                p { "formatted" }
                // maudfmt-ignore
                span class="unformatted"   id="test" { "content" "more content to split the lines" "even more content to split the lines further" }
                h1 { "formatted" }
            }
        }
        "#,
        &FormatOptions::default(),
    );
}

#[test]
fn comment_markup() {
    check(
        r##"
        use maud::DOCTYPE;
        html!{
        (DOCTYPE)     // <!DOCTYPE html>
        }
        "##,
        r##"
        use maud::DOCTYPE;
        html! {
            (DOCTYPE)  // <!DOCTYPE html>
        }
        "##,
        &FormatOptions::default(),
    );
}

#[test]
fn comment_empty_block() {
    check(
        r#"
        html!{
            p {
                // lonely comment
            }
        }
        "#,
        r#"
        html! {
            p {
                // lonely comment
            }
        }
        "#,
        &FormatOptions::default(),
    );
}

#[test]
fn comment_end_block() {
    check(
        r#"
        html! {
            p {
                "test"
                // trailing comment
            }
        }
        "#,
        r#"
        html! {
            p {
                "test"
                // trailing comment
            }
        }
        "#,
        &FormatOptions::default(),
    );
}

#[test]
fn comment_end_block_before_control() {
    check(
        r#"
        html! {
            p {
                "test"
                // trailing comment
                @for x in y { "hi" }
            }
        }
        "#,
        r#"
        html! {
            p {
                "test"
                // trailing comment
                @for x in y {
                    "hi"
                }
            }
        }
        "#,
        &FormatOptions::default(),
    );
}

#[test]
fn keep_whitespace() {
    check(
        r##"
        html!{
        "Hello"

        "World"
        }
        "##,
        r##"
        html! {
            "Hello"

            "World"
        }
        "##,
        &FormatOptions::default(),
    );
}

#[test]
fn keep_single_whitespace() {
    check(
        r##"
        html!{
        "Hello"



        "World"
        }
        "##,
        r##"
        html! {
            "Hello"

            "World"
        }
        "##,
        &FormatOptions::default(),
    );
}

#[test]
fn force_expand_inline() {
    check(
        r#"
        html! {
        h1 {
        // keep expanded
        "Poem"
        }
        }
        "#,
        r#"
        html! {
            h1 {
                // keep expanded
                "Poem"
            }
        }
        "#,
        &FormatOptions::default(),
    );
}

#[test]
fn force_expand_attrs() {
    check(
        r#"
        html! { 
        h1 { //
        "Poem"
        }
        }
        "#,
        r#"
        html! {
            h1 {  //
                "Poem"
            }
        }
        "#,
        &FormatOptions::default(),
    );
}

#[test]
fn keep_comment_1() {
    check(
        r#"
        html! {
            (DOCTYPE)
            html lang="en" {
                head {
                    // meta
                    .first {}
                    .second {}
                }
            }
        }
        "#,
        r#"
        html! {
            (DOCTYPE)
            html lang="en" {
                head {
                    // meta
                    .first {}
                    .second {}
                }
            }
        }
        "#,
        &FormatOptions::default(),
    );
}

#[test]
fn comments_slashes_in_string() {
    check(
        r#"
        html! {
            a href="http://example.org" { "This is not a comment" }
        }
        "#,
        r#"
        html! {
            a href="http://example.org" { "This is not a comment" }
        }
        "#,
        &FormatOptions::default(),
    );
}

#[test]
fn keep_indents_in_comments_attrs() {
    check(
        r#"
        html! {
        // p {
        //     "pls keep indent"
        // }
        p { }
        }
        "#,
        r#"
        html! {
            // p {
            //     "pls keep indent"
            // }
            p {}
        }
        "#,
        &FormatOptions::default(),
    );
}

#[test]
fn keep_indents_in_comments_blocks() {
    check(
        r#"
        html! {
        p { 
        // p {
        //     "pls keep indent"
        // }
        }
        }
        "#,
        r#"
        html! {
            p {
                // p {
                //     "pls keep indent"
                // }
            }
        }
        "#,
        &FormatOptions::default(),
    );
}

#[test]
fn ensure_leading_space_in_comments() {
    check(
        r#"
        html! {
        //please add leading space
        p { }
        }
        "#,
        r#"
        html! {
            // please add leading space
            p {}
        }
        "#,
        &FormatOptions::default(),
    );
}

#[test]
fn comments_before_after_elements() {
    check(
        r#"
        html! {
            // comment before element
            p { "content" }
            // comment after element
            div { "more content" }
            // final comment
        }
        "#,
        r#"
        html! {
            // comment before element
            p { "content" }
            // comment after element
            div { "more content" }
            // final comment
        }
        "#,
        &FormatOptions::default(),
    );
}

#[test]
fn comments_before_after_control_structures() {
    check(
        r#"
        html! {
            // before if
            @if condition {
                "true"
            }
            // between if and for
            @for item in items {
                // inside for
                span { (item) }
            }
            // after for
            @let x = 5;
            // after let
        }
        "#,
        r#"
        html! {
            // before if
            @if condition { "true" }
            // between if and for
            @for item in items {
                // inside for
                span { (item) }
            }
            // after for
            @let x = 5;
            // after let
        }
        "#,
        &FormatOptions::default(),
    );
}

#[test]
fn comments_with_nested_blocks() {
    check(
        r#"
        html! {
            div {
                // comment in outer block
                p {
                    // comment in inner block
                    "text"
                    // trailing comment in inner
                }
                // comment between elements
                span { "more text" }
                // final comment in outer
            }
        }
        "#,
        r#"
        html! {
            div {
                // comment in outer block
                p {
                    // comment in inner block
                    "text"
                    // trailing comment in inner
                }
                // comment between elements
                span { "more text" }
                // final comment in outer
            }
        }
        "#,
        &FormatOptions::default(),
    );
}

#[test]
fn comments_with_attributes() {
    check(
        r#"
        html! {
            // before element with attrs
            div class="test" id="main" {
                "content"
            }
            // after element with attrs
        }
        "#,
        r#"
        html! {
            // before element with attrs
            div class="test" id="main" { "content" }
            // after element with attrs
        }
        "#,
        &FormatOptions::default(),
    );
}

#[test]
fn inline_comments_on_constructs() {
    check(
        r#"
        html! {
            p { "text" }  // inline on element
            @if true { "yes" }  // inline on control
            (variable)  // inline on splice
            div;  // inline on void element
        }
        "#,
        r#"
        html! {
            p { "text" }  // inline on element
            @if true { "yes" }  // inline on control
            (variable)  // inline on splice
            div;  // inline on void element
        }
        "#,
        &FormatOptions::default(),
    );
}

#[test]
fn comments_with_match_expressions() {
    check(
        r#"
        html! {
            // before match
            @match value {
                // comment in match
                Some(x) => {
                    // comment in arm
                    span { (x) }
                },
                // comment between arms
                None => {
                    "empty"
                    // trailing in arm
                }
                // final comment in match
            }
            // after match
        }
        "#,
        r#"
        html! {
            // before match
            @match value {
                Some(x) => {
                    // comment in arm
                    span { (x) }
                }
                None => {
                    "empty"
                    // trailing in arm
                }
                // final comment in match
            }
            // after match
        }
        "#,
        &FormatOptions::default(),
    );
}

#[test]
fn comments_with_while_loops() {
    check(
        r#"
        html! {
            // before while
            @while condition {
                // inside while
                p { "looping" }
                // more in while
            }
            // after while
            @while let Some(x) = iter.next() {
                // inside while let
                span { (x) }
            }
            // final comment
        }
        "#,
        r#"
        html! {
            // before while
            @while condition {
                // inside while
                p { "looping" }
                // more in while
            }
            // after while
            @while let Some(x) = iter.next() {
                // inside while let
                span { (x) }
            }
            // final comment
        }
        "#,
        &FormatOptions::default(),
    );
}

#[test]
fn comments_with_complex_splices() {
    check(
        r#"
        html! {
            // before splice
            (complex_expression())  // inline on splice
            // after splice
            ({
                // comment in block splice
                let x = 5;
                x + 1
            })
            // after block splice
        }
        "#,
        r#"
        html! {
            // before splice
            (complex_expression())  // inline on splice
            // after splice
            ({
                let x = 5;
                x + 1
            })
            // after block splice
        }
        "#,
        &FormatOptions::default(),
    );
}

#[test]
fn comments_with_classes_and_ids() {
    check(
        r#"
        html! {
            // before element with class
            div.class1.class2 {
                "content"
            }
            // between elements
            p #id.class {
                "more"
            }  // inline after element
            // final comment
        }
        "#,
        r#"
        html! {
            // before element with class
            div.class1.class2 { "content" }
            // between elements
            p #id.class {
                "more"
            }  // inline after element
            // final comment
        }
        "#,
        &FormatOptions::default(),
    );
}

#[test]
fn comments_at_block_boundaries() {
    check(
        r#"
        html! {
            // start of main block
            div {
                // start of div block
                p { "content" }
                // end of div block
            }
            // end of main block
        }
        "#,
        r#"
        html! {
            // start of main block
            div {
                // start of div block
                p { "content" }
                // end of div block
            }
            // end of main block
        }
        "#,
        &FormatOptions::default(),
    );
}

#[test]
fn comments_mixed_with_control_and_elements() {
    check(
        r#"
        html! {
            // header comment
            h1 { "Title" }
            // before conditional
            @if show_content {
                // inside if
                p { "Content" }
                // before loop
                @for item in list {
                    // inside loop
                    li { (item) }  // inline in loop
                }
                // after loop
            }
            // before else
            @else {
                // inside else
                p { "No content" }
            }
            // footer comment
        }
        "#,
        r#"
        html! {
            // header comment
            h1 { "Title" }
            // before conditional
            @if show_content {
                // inside if
                p { "Content" }
                // before loop
                @for item in list {
                    // inside loop
                    li { (item) }  // inline in loop
                }
                // after loop
            } @else {
                // inside else
                p { "No content" }
            }
            // footer comment
        }
        "#,
        &FormatOptions::default(),
    );
}

#[test]
fn utf8_characters_in_content_and_comments() {
    check(
        r#"
        html! {
            p { "âœ• âŒ ğŸš« â›”" }  // Various UTF-8 symbols âœ“ âœ— âš ï¸
            div { "ã“ã‚“ã«ã¡ã¯ä¸–ç•Œ" }  // Japanese text æ—¥æœ¬èª
            span { "ğŸ‰ğŸŠğŸˆ" }  // Emojis ğŸŒŸ
        }
        "#,
        r#"
        html! {
            p { "âœ• âŒ ğŸš« â›”" }  // Various UTF-8 symbols âœ“ âœ— âš ï¸
            div { "ã“ã‚“ã«ã¡ã¯ä¸–ç•Œ" }  // Japanese text æ—¥æœ¬èª
            span { "ğŸ‰ğŸŠğŸˆ" }  // Emojis ğŸŒŸ
        }
        "#,
        &FormatOptions::default(),
    );
}

#[test]
fn control_if() {
    check(
        r#"
        html! { @if user == Princess::Luna {h1{"Super secret woona to-do list"}
        ul{li{"Nuke the Crystal Empire"}li{"Kick a puppy"}li{"Evil laugh"}}}}
        "#,
        r#"
        html! {
            @if user == Princess::Luna {
                h1 { "Super secret woona to-do list" }
                ul {
                    li { "Nuke the Crystal Empire" }
                    li { "Kick a puppy" }
                    li { "Evil laugh" }
                }
            }
        }
        "#,
        &FormatOptions::default(),
    );
}

#[test]
fn control_if_else() {
    check(
        r#"
        html! { @if user == Princess::Luna {h1{"Super secret woona to-do list"}
        ul{li{"Nuke the Crystal Empire"}li{"Kick a puppy"}li{"Evil laugh"}}}
        @else { p { "Nothing to see here; move along." } }}
        "#,
        r#"
        html! {
            @if user == Princess::Luna {
                h1 { "Super secret woona to-do list" }
                ul {
                    li { "Nuke the Crystal Empire" }
                    li { "Kick a puppy" }
                    li { "Evil laugh" }
                }
            } @else {
                p { "Nothing to see here; move along." }
            }
        }
        "#,
        &FormatOptions::default(),
    );
}

#[test]
fn control_if_elseif_else() {
    check(
        r#"
        html! { @if user == Princess::Luna {h1{"Super secret woona to-do list"}
        ul{li{"Nuke the Crystal Empire"}li{"Kick a puppy"}li{"Evil laugh"}}}
        @else if user==Princess::Celestia{p{"Sister, please stop reading my diary. It's rude."}}
        @else { p { "Nothing to see here; move along." } }}
        "#,
        r#"
        html! {
            @if user == Princess::Luna {
                h1 { "Super secret woona to-do list" }
                ul {
                    li { "Nuke the Crystal Empire" }
                    li { "Kick a puppy" }
                    li { "Evil laugh" }
                }
            } @else if user == Princess::Celestia {
                p { "Sister, please stop reading my diary. It's rude." }
            } @else {
                p { "Nothing to see here; move along." }
            }
        }
        "#,
        &FormatOptions::default(),
    );
}

#[test]
fn if_let() {
    check(
        r#"
        html! { p { "Hello, " @if let Some(name) = user { (name) } @else { "stranger" } "!"}}
        "#,
        r#"
        html! {
            p {
                "Hello, "
                @if let Some(name) = user { (name) } @else { "stranger" }
                "!"
            }
        }
        "#,
        &FormatOptions::default(),
    );
}

#[test]
fn control_for() {
    check(
        r#"
        html!{p{"My favorite ponies are:"}ol{@for name in &names{li{(name)}}}}
        "#,
        r#"
        html! {
            p { "My favorite ponies are:" }
            ol {
                @for name in &names {
                    li { (name) }
                }
            }
        }
        "#,
        &FormatOptions::default(),
    );
}

#[test]
fn control_let() {
    check(
        r#"
        html!{@for name in &names{@let first_letter=name.chars().next().unwrap();
        p{"The first letter of " b{(name)}" is " b{(first_letter)}"."}}}
        "#,
        r#"
        html! {
            @for name in &names {
                @let first_letter = name.chars().next().unwrap();
                p {
                    "The first letter of "
                    b { (name) }
                    " is "
                    b { (first_letter) }
                    "."
                }
            }
        }
        "#,
        &FormatOptions::default(),
    );
}

#[test]
fn control_match() {
    check(
        r#"
        html! { @match user { Princess::Luna => { h1 { "Super secret woona to-do list" } ul { li {
        "Nuke the Crystal Empire" } li { "Kick a puppy" } li { "Evil laugh" } } }, 
        Princess::Celestia => { p { "Sister, please stop reading my diary. It's rude." } }, _ => p
        { "Nothing to see here; move along." } } }
        "#,
        r#"
        html! {
            @match user {
                Princess::Luna => {
                    h1 { "Super secret woona to-do list" }
                    ul {
                        li { "Nuke the Crystal Empire" }
                        li { "Kick a puppy" }
                        li { "Evil laugh" }
                    }
                }
                Princess::Celestia => {
                    p { "Sister, please stop reading my diary. It's rude." }
                }
                _ => p { "Nothing to see here; move along." }
            }
        }
        "#,
        &FormatOptions::default(),
    );
}

#[test]
fn control_match_with_guard() {
    check(
        r#"
        html!{@match user{Princess::Luna if !is_asleep=>{h1{"Title"}
        h2{"Subtitle"}} _=>p{"Nothing to see here; move along."}}}
        "#,
        r#"
        html! {
            @match user {
                Princess::Luna if !is_asleep => {
                    h1 { "Title" }
                    h2 { "Subtitle" }
                }
                _ => p { "Nothing to see here; move along." }
            }
        }
        "#,
        &FormatOptions::default(),
    );
}

#[test]
fn control_while() {
    check(
        r#"
        html! { @while flag {p{"flag is true"}}}
        "#,
        r#"
        html! {
            @while flag {
                p { "flag is true" }
            }
        }
        "#,
        &FormatOptions::default(),
    );
}

#[test]
fn control_while_let() {
    check(
        r#"
        html! { @while let Some(value) = iter {p{(value)}}}
        "#,
        r#"
        html! {
            @while let Some(value) = iter {
                p { (value) }
            }
        }
        "#,
        &FormatOptions::default(),
    );
}

#[test]
fn comment_inline() {
    check(
        r##"
        use maud::DOCTYPE;
        html!{
        // <!DOCTYPE html>
        (DOCTYPE)
        }
        "##,
        r##"
        use maud::DOCTYPE;
        html! {
            // <!DOCTYPE html>
            (DOCTYPE)
        }
        "##,
        &FormatOptions::default(),
    );
}

#[test]
fn control_for_range() {
    check(
        r##"
        html!{ @for i in 0..10 { p { (i) } } }
        "##,
        r##"
        html! {
            @for i in 0..10 {
                p { (i) }
            }
        }
        "##,
        &FormatOptions::default(),
    );
}

#[test]
fn elements_with_contents() {
    check(
        r#"
        html! { h1 { "Poem" } p { strong { "Rock," } " you are a rock."}}
        "#,
        r#"
        html! {
            h1 { "Poem" }
            p {
                strong { "Rock," }
                " you are a rock."
            }
        }
        "#,
        &FormatOptions::default(),
    );
}

#[test]
fn void_element() {
    check(
        r#"
        html! {
          p { "Rock, you are a rock." br; "Gray, you are gray," br;
            "Like a rock, which you are." br; "Rock." } }
        "#,
        r#"
        html! {
            p {
                "Rock, you are a rock."
                br;
                "Gray, you are gray,"
                br;
                "Like a rock, which you are."
                br;
                "Rock."
            }
        }
        "#,
        &FormatOptions::default(),
    );
}

#[test]
fn custom_elements_and_attributes() {
    check(
        r#"
        html! {
          article data-index="12345"{h1 { "My blog"}tag-cloud {"pinkie pie pony cute"}}}
        "#,
        r#"
        html! {
            article data-index="12345" {
                h1 { "My blog" }
                tag-cloud { "pinkie pie pony cute" }
            }
        }
        "#,
        &FormatOptions::default(),
    );
}

#[test]
fn non_empty_attributes() {
    check(
        r#"
        html! { ul { li { a href="about:blank" { "Apple Bloom" } }
        li class="lower-middle" { "Sweetie Belle" }
        li dir="rtl" { "Scootaloo " small { "(also a chicken)" } } } }
        "#,
        r#"
        html! {
            ul {
                li {
                    a href="about:blank" { "Apple Bloom" }
                }
                li class="lower-middle" { "Sweetie Belle" }
                li dir="rtl" {
                    "Scootaloo "
                    small { "(also a chicken)" }
                }
            }
        }
        "#,
        &FormatOptions::default(),
    );
}

#[test]
fn empty_attributes() {
    check(
        r#"
        html! { form { input type="checkbox" name="cupcakes" checked;
        " " label for="cupcakes" { "Do you like cupcakes?" } } }
        "#,
        r#"
        html! {
            form {
                input type="checkbox" name="cupcakes" checked;
                " "
                label for="cupcakes" { "Do you like cupcakes?" }
            }
        }
        "#,
        &FormatOptions::default(),
    );
}

#[test]
fn classes_and_ids() {
    check(
        r#"
        html! { input#cannon .big.scary.bright-red type="button" value="Launch Party Cannon"; }
        "#,
        r#"
        html! {
            input #cannon.big.scary.bright-red type="button" value="Launch Party Cannon";
        }
        "#,
        &FormatOptions::default(),
    );
}

#[test]
fn quoted_class_and_ids() {
    check(
        r#"
        html!{div   #"quoted-id"   ."col-sm-2" { "Bootstrap column!" } }
        "#,
        r#"
        html! {
            div #"quoted-id"."col-sm-2" { "Bootstrap column!" }
        }
        "#,
        &FormatOptions::default(),
    );
}

#[test]
fn implicit_div() {
    check(
        r#"
        html! { #main { "Main content!" .tip { 
        "Storing food in a refrigerator can make it 20% cooler." } } }
        "#,
        r#"
        html! {
            #main {
                "Main content!"
                .tip { "Storing food in a refrigerator can make it 20% cooler." }
            }
        }
        "#,
        &FormatOptions::default(),
    );
}

#[test]
fn splice_in_attributes() {
    check(
        r#"
        html!{p title=  (secret_message){"Nothing to see here, move along."}}
        "#,
        r#"
        html! {
            p title=(secret_message) { "Nothing to see here, move along." }
        }
        "#,
        &FormatOptions::default(),
    );
}

#[test]
fn splice_concatenation() {
    check(
        r#"
        html!{a href={(GITHUB)"/lambda-fairy/maud"}{"Fork me on GitHub"}}
        "#,
        r#"
        html! {
            a href={ (GITHUB) "/lambda-fairy/maud" } { "Fork me on GitHub" }
        }
        "#,
        &FormatOptions::default(),
    );
}

#[test]
fn splice_classes_and_ids() {
    check(
        r#"
        html!{aside #(name){p.{ "color-"(severity)}{"This is the worst! Possible! Thing!"}}}
        "#,
        r#"
        html! {
            aside #(name) {
                p.{ "color-" (severity) } { "This is the worst! Possible! Thing!" }
            }
        }
        "#,
        &FormatOptions::default(),
    );
}

#[test]
fn toggle_empty_attributes() {
    check(
        r#"
        html!{p contenteditable[allow_editing]{"Edit me, I " em{"dare"}" you."}}
        "#,
        r#"
        html! {
            p contenteditable[allow_editing] {
                "Edit me, I "
                em { "dare" }
                " you."
            }
        }
        "#,
        &FormatOptions::default(),
    );
}

#[test]
fn toggle_classes() {
    check(
        r#"
        html!{p.cute[cuteness>50]{"Squee!"}}
        "#,
        r#"
        html! {
            p.cute[cuteness > 50] { "Squee!" }
        }
        "#,
        &FormatOptions::default(),
    );
}

#[test]
fn toggle_optional_attributes() {
    check(
        r#"
        html!{p title=[Some("Good password")]{"Correct horse"}}
        "#,
        r#"
        html! {
            p title=[Some("Good password")] { "Correct horse" }
        }
        "#,
        &FormatOptions::default(),
    );
}

#[test]
fn line_length_element_id() {
    check(
        r##"
        html! {
        random-element#big-id-that-should-wrap {}
        }
        "##,
        r##"
        html! {
            random-element #big-id-that-should-wrap {}
        }
        "##,
        &small(),
    );
}

#[test]
fn line_length_class() {
    check(
        r##"
        html! {
        random-element.class1.class2.class3 {}
        }
        "##,
        r##"
        html! {
            random-element.class1
                .class2
                .class3 {}
        }
        "##,
        &small(),
    );
}

#[test]
fn line_length_attrs_empty() {
    check(
        r##"
        html! {
        random-element data-something-long {}
        }
        "##,
        r##"
        html! {
            random-element data-something-long {}
        }
        "##,
        &small(),
    );
}

#[test]
fn line_length_attrs_empty_toggle() {
    check(
        r##"
        html! {
        random-element data-something[true] {}
        }
        "##,
        r##"
        html! {
            random-element data-something[true] {}
        }
        "##,
        &small(),
    );
}

#[test]
fn line_length_attrs_normal() {
    check(
        r##"
        html! {
        random-element data-something="foo" {}
        }
        "##,
        r##"
        html! {
            random-element data-something="foo" {}
        }
        "##,
        &small(),
    );
}

#[test]
fn line_length_attrs_optional() {
    check(
        r##"
        html! {
        random-element data-something=[toggle] {}
        }
        "##,
        r##"
        html! {
            random-element data-something=[toggle] {}
        }
        "##,
        &small(),
    );
}

#[test]
fn line_length_element_body_no_expand() {
    check(
        r##"
        html! {
            p { 
                "one line" 
            }
        }
        "##,
        r##"
        html! {
            p { "one line" }
        }
        "##,
        &small(),
    );
}

#[test]
fn line_length_element_body_expand_one_el() {
    check(
        r##"
        html! {
            p { "one line very very long omg" }
        }
        "##,
        r##"
        html! {
            p {
                "one line very very long omg"
            }
        }
        "##,
        &small(),
    );
}

#[test]
fn line_length_element_body_no_expand_multi_el() {
    check(
        r##"
        html! {
            p { 
                "one"
                "line"
            }
        }
        "##,
        r##"
        html! {
            p { "one" "line" }
        }
        "##,
        &small(),
    );
}

#[test]
fn line_length_element_body_expand_multi_el() {
    check(
        r##"
        html! {
            p { "one very" "chunky line" }
        }
        "##,
        r##"
        html! {
            p {
                "one very"
                "chunky line"
            }
        }
        "##,
        &small(),
    );
}

#[test]
fn indented_multi_line_attribute_value() {
    check(
        r#"
        html! {
            div test={ "This is a long multi-line attribute." "This is another line in the long attribute value." } {
                p { "hi" }
            }
        }
        "#,
        r#"
        html! {
            div test={
                "This is a long multi-line attribute."
                "This is another line in the long attribute value."
            } {
                p { "hi" }
            }
        }
        "#,
        &small(),
    );
}

#[test]
fn quoted_attributes() {
    check(
        r#"
        html! {
            p "class"="bold" { "text" }
        }
        "#,
        r#"
        html! {
            p class="bold" { "text" }
        }
        "#,
        &FormatOptions::default(),
    );
}

#[test]
fn quoted_attributes_special_chars() {
    check(
        r#"
        html! {
            p "@click.window"="console.log('click')" "x-on:click"="test" ":class"="bold" { "click" }
        }
        "#,
        r#"
        html! {
            p "@click.window"="console.log('click')" x-on:click="test" ":class"="bold" { "click" }
        }
        "#,
        &FormatOptions::default(),
    );
}

#[test]
fn multiline_attribute_toggle_expression() {
    check(
        r#"
        html! {
            input checked[example_rust_condition().unwrap().map(|x| x.to_string()).unwrap_or_default() == some_long_testing_variable_name];
        }
        "#,
        r#"
        html! {
            input checked[
                example_rust_condition()
                    .unwrap()
                    .map(|x| x.to_string())
                    .unwrap_or_default() == some_long_testing_variable_name
            ];
        }
        "#,
        &FormatOptions::default(),
    );
}

#[test]
fn multiline_attribute_toggle_block() {
    check(
        r#"
        html! {
            input checked
                disabled[{let x = example_rust_condition().unwrap().map(|x| x.to_string()).unwrap_or_default() == some_long_testing_variable_name; let _y = example_rust_condition().unwrap().map(|x| x.to_string()).unwrap_or_default() == some_long_testing_variable_name; x}];
        }
        "#,
        r#"
        html! {
            input checked
                disabled[{
                    let x = example_rust_condition()
                        .unwrap()
                        .map(|x| x.to_string())
                        .unwrap_or_default() == some_long_testing_variable_name;
                    let _y = example_rust_condition()
                        .unwrap()
                        .map(|x| x.to_string())
                        .unwrap_or_default() == some_long_testing_variable_name;
                    x
                }];
        }
        "#,
        &FormatOptions::default(),
    );
}

#[test]
fn lit() {
    check(
        r#"
        html!{ "Hello world!" }
        "#,
        r#"
        html! {
            "Hello world!"
        }
        "#,
        &FormatOptions::default(),
    );
}

#[test]
fn whitespace_in_multi_line_strings_edge_case() {
    check(
        r##"
        html! {
        p {
            (PreEscaped(r#"
            Multiline

            String
            "#))
        }
        }
        "##,
        r##"
        html! {
            p {
                ({
                    PreEscaped(
                        r#"
            Multiline

            String
            "#,
                    )
                })
            }
        }
        "##,
        &FormatOptions::default(),
    );
}

#[test]
fn correct_multiline_string_indent_in_splices() {
    check(
        r##"
        html! {
            (r#"
            Multiline
            String
            "#)
        }
        "##,
        r##"
        html! {
            ({
                r#"
            Multiline
            String
            "#
            })
        }
        "##,
        &FormatOptions::default(),
    );
}

#[test]
fn escaping() {
    check(
        r#"
        use maud::PreEscaped;
        html!{"<script>alert(\"XSS\")</script>" (PreEscaped("<script>alert(\"XSS\")</script>"))}
        "#,
        r#"
        use maud::PreEscaped;
        html! {
            "<script>alert(\"XSS\")</script>"
            (PreEscaped("<script>alert(\"XSS\")</script>"))
        }
        "#,
        &FormatOptions::default(),
    );
}

#[test]
fn doctype() {
    check(
        r#"
        use maud::DOCTYPE;
        html!{(DOCTYPE)}
        "#,
        r#"
        use maud::DOCTYPE;
        html! {
            (DOCTYPE)
        }
        "#,
        &FormatOptions::default(),
    );
}

#[test]
fn splices() {
    check(
        r#"
        html! { p { "Hi, " (best_pony) "!" }
            p{"I have "(numbers.len())" numbers, ""and the first one is "(numbers[0])}}
        "#,
        r#"
        html! {
            p { "Hi, " (best_pony) "!" }
            p { "I have " (numbers.len()) " numbers, " "and the first one is " (numbers[0]) }
        }
        "#,
        &FormatOptions::default(),
    );
}

#[test]
fn splices_block() {
    check(
        r#"
        html!{p{({
        let f: Foo = something_convertible_to_foo()?; f.time().format("%H%Mh") })}}
        "#,
        r#"
        html! {
            p {
                ({
                    let f: Foo = something_convertible_to_foo()?;
                    f.time().format("%H%Mh")
                })
            }
        }
        "#,
        &FormatOptions::default(),
    );
}

#[test]
fn line_length_long_splice() {
    check(
        r##"
        html! {
            (super_long_splice.with_a_super_long_method().and_an_other_super_super_long_method_to_call_afer().unwarp())
        }
        "##,
        r##"
        html! {
            ({
                super_long_splice
                    .with_a_super_long_method()
                    .and_an_other_super_super_long_method_to_call_afer()
                    .unwarp()
            })
        }
        "##,
        &FormatOptions::default(),
    );
}

#[test]
fn blank_line_above_splice() {
    check(
        r#"
        html!{
            .test {

            .test3 {

            (a)
            }
            }
        }
        "#,
        r#"
        html! {
            .test {

                .test3 { (a) }
            }
        }
        "#,
        &FormatOptions::default(),
    );
}

#[test]
fn hello_world_at_column_zero() {
    check(
        "fn f() { html!{ \"Hello world!\" } }",
        "fn f() { html! {\n    \"Hello world!\"\n} }",
        &FormatOptions::default(),
    );
}

#[test]
fn collapses_under_the_budget_and_wraps_over_it() {
    let content = "fn f() {\nhtml!{div class=\"test\" id=\"main\"{\"content\"}}\n}\n";
    check(
        content,
        "fn f() {\nhtml! {\n    div class=\"test\" id=\"main\" { \"content\" }\n}\n}\n",
        &FormatOptions::default(),
    );
    let narrow = FormatOptions { line_length: 30, ..FormatOptions::default() };
    check(
        content,
        "fn f() {\nhtml! {\n    div class=\"test\"\n        id=\"main\" {\n        \"content\"\n    }\n}\n}\n",
        &narrow,
    );
}

#[test]
fn comment_alone_in_block_forces_expansion() {
    check(
        "fn f() {\n    html! { p {\n    // only this\n    } }\n}\n",
        "fn f() {\n    html! {\n        p {\n            // only this\n        }\n    }\n}\n",
        &FormatOptions::default(),
    );
}

#[test]
fn comment_alone_in_invocation_forces_expansion() {
    check(
        "fn f() {\n    html! {\n    //   only this\n    }\n}\n",
        "fn f() {\n    html! {\n        //   only this\n    }\n}\n",
        &FormatOptions::default(),
    );
}

#[test]
fn skipped_invocation_stays_as_it_is() {
    let content = "\
#[rustfmt::skip]
fn a() -> Markup {
    html!{ p   {  \"a\"  } }
}

fn b() -> Markup {
    html!{ p   {  \"b\"  } }
}
";
    let expected = "\
#[rustfmt::skip]
fn a() -> Markup {
    html!{ p   {  \"a\"  } }
}

fn b() -> Markup {
    html! {
        p { \"b\" }
    }
}
";
    check(content, expected, &FormatOptions::default());
}

#[test]
fn skip_covers_only_the_statement_it_marks() {
    let content = "\
fn a() {
    #[rustfmt::skip]
    let x = html!{ p{} };
    let y = html!{ p{} };
}
";
    let expected = "\
fn a() {
    #[rustfmt::skip]
    let x = html!{ p{} };
    let y = html! {
        p {}
    };
}
";
    check(content, expected, &FormatOptions::default());
}

#[test]
fn template_that_does_not_parse_is_left_alone() {
    let content = "fn f() {\n    let a = html!{ = };\n    let b = html!{ p{} };\n}\n";
    let expected = "fn f() {\n    let a = html!{ = };\n    let b = html! {\n        p {}\n    };\n}\n";
    check(content, expected, &FormatOptions::default());
}

#[test]
fn file_that_does_not_parse_is_an_error() {
    assert!(try_fmt_file("fn f( { html!{ p{} } }", &FormatOptions::default()).is_err());
}

#[test]
fn other_macros_are_left_alone() {
    let content = "fn f() { let v = vec!{ 1,2 }; markup!{ p{} } }\n";
    check(content, content, &FormatOptions::default());
}

#[test]
fn custom_macro_names() {
    let options = FormatOptions {
        line_length: 100,
        macro_names: vec!["maud".to_string(), "hyperscript::maud".to_string()],
    };
    check(
        "fn f() {\n    maud!{ p{} }\n    hyperscript::maud!{ p{} }\n    html!{ p{} }\n}\n",
        "fn f() {\n    maud! {\n        p {}\n    }\n    hyperscript::maud! {\n        p {}\n    }\n    html!{ p{} }\n}\n",
        &options,
    );
}

#[test]
fn bytes_outside_invocations_are_kept() {
    let content = "// ünïcödé \u{1F600}\t \r\nfn a() { html!{p{}} /* ß */ }\r\n\r\n\r\nfn b() {\thtml!{\"é\"}  }   // end";
    let formatted = try_fmt_file(content, &FormatOptions::default()).unwrap();
    assert_eq!(
        formatted,
        "// ünïcödé \u{1F600}\t \r\nfn a() { html! {\n    p {}\n} /* ß */ }\r\n\r\n\r\nfn b() {\thtml! {\n    \"é\"\n}  }   // end"
    );
}

#[test]
fn comment_behind_the_invocation_is_not_repeated() {
    check(
        "fn f() {\n    html!{ p{} } // note\n}\n",
        "fn f() {\n    html! {\n        p {}\n    } // note\n}\n",
        &FormatOptions::default(),
    );
}

#[test]
fn tabs_indent_like_four_spaces() {
    check(
        "fn f() {\n\thtml!{ p{} }\n}\n",
        "fn f() {\n\thtml! {\n        p {}\n    }\n}\n",
        &FormatOptions::default(),
    );
}

#[test]
fn blank_lines_between_siblings_collapse_to_one() {
    let with = |gap: &str| format!("fn f() {{\n    html! {{\n        \"a\"\n{gap}        \"b\"\n    }}\n}}\n");
    let one = with("\n");
    for gap in ["\n", "\n\n", "  \n\t\n\n\n\n"] {
        assert_eq!(try_fmt_file(&with(gap), &FormatOptions::default()).unwrap(), one);
    }
    let none = with("");
    assert_eq!(try_fmt_file(&none, &FormatOptions::default()).unwrap(), none);
}

#[test]
fn comments_keep_their_text() {
    check(
        "fn f() {\n    html! {\n        //no space\n        //   three spaces and a tail   \n        //\n        p {}  //trailing\n    }\n}\n",
        "fn f() {\n    html! {\n        // no space\n        //   three spaces and a tail\n        //\n        p {}  // trailing\n    }\n}\n",
        &FormatOptions::default(),
    );
}

#[test]
fn loop_bodies_are_always_expanded() {
    check(
        "fn f() {\n    html! { @for x in y { \"hi\" } @while go { \"on\" } @for x in y {} }\n}\n",
        "fn f() {\n    html! {\n        @for x in y {\n            \"hi\"\n        }\n        @while go {\n            \"on\"\n        }\n        @for x in y {}\n    }\n}\n",
        &FormatOptions::default(),
    );
}

#[test]
fn match_arm_with_several_nodes_is_expanded() {
    check(
        "fn f() {\n    html! { @match x { 1 => { \"a\" \"b\" } 2 => { \"c\" } _ => {} } }\n}\n",
        "fn f() {\n    html! {\n        @match x {\n            1 => {\n                \"a\"\n                \"b\"\n            }\n            2 => { \"c\" }\n            _ => {}\n        }\n    }\n}\n",
        &FormatOptions::default(),
    );
}

#[test]
fn closed_range_as_loop_source() {
    check(
        "fn f() {\n    html! { @for i in 1..=n { (i) } @for i in .. { (i) } }\n}\n",
        "fn f() {\n    html! {\n        @for i in 1..=n {\n            (i)\n        }\n        @for i in .. {\n            (i)\n        }\n    }\n}\n",
        &FormatOptions::default(),
    );
}

#[test]
fn colon_in_a_tag_name() {
    check(
        "fn f() {\n    html! { svg:rect width=\"1\"; }\n}\n",
        "fn f() {\n    html! {\n        svg:rect width=\"1\";\n    }\n}\n",
        &FormatOptions::default(),
    );
}

#[test]
fn nested_block_and_semicolon() {
    check(
        "fn f() {\n    html! { { \"a\" } ; }\n}\n",
        "fn f() {\n    html! {\n        { \"a\" }\n        ;\n    }\n}\n",
        &FormatOptions::default(),
    );
}

#[test]
fn empty_invocation() {
    check("fn f() { html!{   } }\n", "fn f() { html! {} }\n", &FormatOptions::default());
}

#[test]
fn line_breaks_outside_invocations_are_kept() {
    let content = "fn f() {\r\n    html! {\r\n        // maudfmt-ignore\r\n        p   {  }\r\n        p   {  }\r\n    }\r\n}\r\n";
    let expected = "fn f() {\r\n    html! {\n        // maudfmt-ignore\n        p   {  }\n        p {}\n    }\r\n}\r\n";
    assert_eq!(try_fmt_file(content, &FormatOptions::default()).unwrap(), expected);
}

#[test]
fn blank_line_before_a_brace_drops_nothing() {
    check(
        "fn f() {\n    html! {\n        p\n\n        { \"a\" }\n    }\n}\n",
        "fn f() {\n    html! {\n        p { \"a\" }\n    }\n}\n",
        &FormatOptions::default(),
    );
}

#[test]
fn comment_before_a_brace_is_kept() {
    check(
        "fn f() {\n    html! {\n        p\n        // why\n        { \"a\" }\n    }\n}\n",
        "fn f() {\n    html! {\n        p\n            // why\n            { \"a\" }\n    }\n}\n",
        &FormatOptions::default(),
    );
}

#[test]
fn nothing_is_written_behind_a_comment() {
    check(
        "fn f() {\n    html! {\n        p // one\n        .a // three\n        title=\"t\" // four\n        { \"a\" } // five\n        @if a { \"b\" } // six\n        @else { \"c\" }\n    }\n}\n",
        "fn f() {\n    html! {\n        p  // one\n            .a  // three\n            title=\"t\"  // four\n            { \"a\" }  // five\n        @if a { \"b\" }  // six\n            @else { \"c\" }\n    }\n}\n",
        &FormatOptions::default(),
    );
}

// ---- whole files, as the command line formats them ----

const IN_FILE: &str = r#"
use maud::{DOCTYPE, html, Markup};

/// A basic header with a dynamic `page_title`.
fn header(page_title: &str) -> Markup {
    html!{(DOCTYPE) meta charset="utf-8";title{(page_title)}}
}

/// A static footer.
fn footer() -> Markup {
    html!{footer{a href="rss.atom"{"RSS Feed"}}}
}

/// The final Markup, including `header` and `footer`.
///
/// Additionally takes a `greeting_box` that's `Markup`, not `&str`.
pub fn page(title: &str, greeting_box: Markup) -> Markup {
    html!{(header(title)) h1{(title)}(greeting_box)(footer())}
}
"#;

const OUT_FILE: &str = r#"
use maud::{DOCTYPE, html, Markup};

/// A basic header with a dynamic `page_title`.
fn header(page_title: &str) -> Markup {
    html! {
        (DOCTYPE)
        meta charset="utf-8";
        title { (page_title) }
    }
}

/// A static footer.
fn footer() -> Markup {
    html! {
        footer {
            a href="rss.atom" { "RSS Feed" }
        }
    }
}

/// The final Markup, including `header` and `footer`.
///
/// Additionally takes a `greeting_box` that's `Markup`, not `&str`.
pub fn page(title: &str, greeting_box: Markup) -> Markup {
    html! {
        (header(title))
        h1 { (title) }
        (greeting_box)
        (footer())
    }
}
"#;

const CUSTOM_MACRO_IN_FILE: &str = r#"
use hypertext::prelude::*;

fn header(page_title: &str) -> Markup {
    maud!{(DOCTYPE) meta charset="utf-8";title{(page_title)}}
}

fn footer() -> Markup {
    hyperscript::maud!{footer{a href="rss.atom"{"RSS Feed"}}}
}

fn sidebar() -> Markup {
    html!{div class="sidebar"{p{"This should not be formatted"}}}
}

pub fn page(title: &str, greeting_box: Markup) -> Markup {
    maud!{(header(title)) h1{(title)}(greeting_box)(footer())(sidebar())}
}
"#;

const CUSTOM_MACRO_OUT_FILE: &str = r#"
use hypertext::prelude::*;

fn header(page_title: &str) -> Markup {
    maud! {
        (DOCTYPE)
        meta charset="utf-8";
        title { (page_title) }
    }
}

fn footer() -> Markup {
    hyperscript::maud! {
        footer {
            a href="rss.atom" { "RSS Feed" }
        }
    }
}

fn sidebar() -> Markup {
    html!{div class="sidebar"{p{"This should not be formatted"}}}
}

pub fn page(title: &str, greeting_box: Markup) -> Markup {
    maud! {
        (header(title))
        h1 { (title) }
        (greeting_box)
        (footer())
        (sidebar())
    }
}
"#;

const LONG_LINE_IN_FILE: &str = r#"
use maud::{html, Markup};

fn test() -> Markup {
    html!{div class="very-long-class-name" id="super-long-id-name"{p data-attr="value"{"Content"}}}
}
"#;

const LONG_LINE_OUT_FILE_LONG_LENGTH: &str = r#"
use maud::{html, Markup};

fn test() -> Markup {
    html! {
        div class="very-long-class-name" id="super-long-id-name" {
            p data-attr="value" { "Content" }
        }
    }
}
"#;

fn custom_names() -> FormatOptions {
    FormatOptions {
        macro_names: vec!["maud".to_string(), "hyperscript::maud".to_string()],
        ..FormatOptions::default()
    }
}

fn with_line_length(line_length: usize) -> FormatOptions {
    FormatOptions { line_length, ..FormatOptions::default() }
}

#[test]
fn format_file_from_argument() {
    assert_eq!(try_fmt_file(IN_FILE, &FormatOptions::default()).unwrap(), OUT_FILE);
}

#[test]
fn format_multiple_files_from_argument() {
    assert_eq!(try_fmt_file(IN_FILE, &FormatOptions::default()).unwrap(), OUT_FILE);
    assert_eq!(try_fmt_file(IN_FILE, &FormatOptions::default()).unwrap(), OUT_FILE);
}

#[test]
fn format_dir_from_argument() {
    assert_eq!(try_fmt_file(IN_FILE, &FormatOptions::default()).unwrap(), OUT_FILE);
    assert_eq!(try_fmt_file(IN_FILE, &FormatOptions::default()).unwrap(), OUT_FILE);
}

#[test]
fn format_file_from_stdin() {
    check(IN_FILE, OUT_FILE, &FormatOptions::default());
}

#[test]
fn format_file_with_custom_macro_names() {
    assert_eq!(try_fmt_file(CUSTOM_MACRO_IN_FILE, &custom_names()).unwrap(), CUSTOM_MACRO_OUT_FILE);
}

#[test]
fn format_stdin_with_custom_macro_names() {
    check(CUSTOM_MACRO_IN_FILE, CUSTOM_MACRO_OUT_FILE, &custom_names());
}

#[test]
fn format_file_with_custom_macro_names_short_arg() {
    assert_eq!(try_fmt_file(CUSTOM_MACRO_IN_FILE, &custom_names()).unwrap(), CUSTOM_MACRO_OUT_FILE);
}


#[test]
fn format_file_with_long_line_length() {
    assert_eq!(
        try_fmt_file(LONG_LINE_IN_FILE, &with_line_length(200)).unwrap(),
        LONG_LINE_OUT_FILE_LONG_LENGTH
    );
}


#[test]
fn wrapped_head_keeps_its_first_attribute() {
    let content = "fn f() {\n    html! { input #a.b.c[on] type=\"checkbox\" checked[is_checked] disabled; .x.y name=\"n\" { \"body\" } #only { } }\n}\n";
    check(
        content,
        "fn f() {\n    html! {\n        input #a\n            .b\n            .c[on]\n            type=\"checkbox\"\n            checked[is_checked]\n            disabled;\n        .x\n            .y\n            name=\"n\" {\n            \"body\"\n        }\n        #only {}\n    }\n}\n",
        &with_line_length(20),
    );
    check(
        content,
        "fn f() {\n    html! {\n        input #a.b.c[on] type=\"checkbox\" checked[is_checked] disabled;\n        .x.y name=\"n\" { \"body\" }\n        #only {}\n    }\n}\n",
        &FormatOptions::default(),
    );
}

#[test]
fn nested_block_expands_the_block_around_it() {
    check(
        "fn f() {\n    html! { p { { \"a\" } \"b\" } }\n}\n",
        "fn f() {\n    html! {\n        p {\n            { \"a\" }\n            \"b\"\n        }\n    }\n}\n",
        &FormatOptions::default(),
    );
}

// ---- many templates, put together at random ----

struct Dice(u64);

impl Dice {
    fn roll(&mut self, sides: usize) -> usize {
        self.0 = self.0.wrapping_mul(6364136223846793005).wrapping_add(1442695040888963407);
        ((self.0 >> 33) as usize) % sides
    }

    fn pick<'a>(&mut self, from: &[&'a str]) -> &'a str {
        from[self.roll(from.len())]
    }
}

struct Writer {
    dice: Dice,
    text: String,
    comments: Vec<String>,
    with_comments: bool,
    stray_comments: bool,
}

impl Writer {
    fn gap(&mut self) {
        let gap = self.dice.pick(&[" ", " ", "  ", "\n", "\n    ", "\n\n  ", "\n \n\n\t", "\r\n", "\r\n\r\n "]);
        self.text.push_str(gap);
        if gap.contains('\n') && self.with_comments && self.dice.roll(4) == 0 {
            let comment = format!("note {}", self.comments.len());
            let marker = self.dice.pick(&["// ", "//", "//  "]);
            self.text.push_str(marker);
            self.text.push_str(&comment);
            self.text.push_str("\n  ");
            self.comments.push(format!("{}{comment}\n", if marker == "//" { "// " } else { marker }));
        }
    }

    fn tail(&mut self) {
        if self.with_comments && self.dice.roll(6) == 0 {
            let comment = format!("tail {}", self.comments.len());
            let marker = self.dice.pick(&[" // ", "//", "   //  "]);
            self.text.push_str(marker);
            self.text.push_str(&comment);
            self.text.push_str("\n");
            self.comments.push(format!("{}{comment}\n", if marker == "//" { "// " } else { marker.trim_start() }));
        }
    }

    fn expr(&mut self) {
        let e = self.dice.pick(&[
            "a",
            "user.name",
            "items.len() + 1",
            "f(x, y)",
            "a == b",
            "some.very_long_chain().of_calls(with, many, arguments).and_more_calls_to_fill().the_line_up()",
        ]);
        self.text.push_str(e);
    }

    fn name(&mut self) {
        self.text.push_str(self.dice.pick(&["p", "div", "li", "a", "custom-tag", "h1", "svg:rect"]));
    }

    fn stray(&mut self) {
        if self.stray_comments && self.dice.roll(5) == 0 {
            self.text.push_str(self.dice.pick(&[" // stray\n", "\n// stray\n", "\n\n", "\n  //stray\n\n //  stray\n"]));
        }
    }

    fn attrs(&mut self) {
        for _ in 0..self.dice.roll(4) {
            self.stray();
            match self.dice.roll(6) {
                0 => {
                    self.text.push('.');
                    self.text.push_str(self.dice.pick(&["a", "big-one", "\"q\""]));
                }
                1 => self.text.push_str(" #main"),
                2 => {
                    self.text.push(' ');
                    self.text.push_str(self.dice.pick(&["checked", "data-x:y"]));
                }
                3 => {
                    self.text.push_str(self.dice.pick(&[
                        " title=\"some title\"",
                        " href={ \"/\" (path) }",
                        " x:y=(value)",
                        " \"@click\"=\"go()\"",
                    ]))
                }
                4 => {
                    self.text.push_str(" value=[");
                    self.expr();
                    self.text.push(']');
                }
                _ => {
                    self.text.push_str(" .on[");
                    self.expr();
                    self.text.push(']');
                }
            }
        }
    }

    fn block(&mut self, depth: usize) {
        self.text.push('{');
        if self.with_comments && self.dice.roll(8) == 0 {
            let comment = format!("open {}", self.comments.len());
            self.text.push_str(" // ");
            self.text.push_str(&comment);
            self.text.push_str("\n");
            self.comments.push(format!("// {comment}\n"));
        }
        for _ in 0..self.dice.roll(4) {
            self.gap();
            self.node(depth + 1);
            self.tail();
        }
        self.gap();
        self.text.push('}');
    }

    fn node(&mut self, depth: usize) {
        let kinds = if depth > 3 { 3 } else { 11 };
        match self.dice.roll(kinds) {
            0 => self.text.push_str(self.dice.pick(&[
                "\"text\"",
                "\"a longer piece of text\"",
                "42",
                "\"\u{e9}t\u{e9} \u{1F600} // no comment\"",
            ])),
            1 => {
                self.text.push('(');
                self.expr();
                self.text.push(')');
            }
            2 => {
                self.name();
                self.attrs();
                self.stray();
                self.text.push(';');
            }
            3 | 4 => {
                if self.dice.roll(5) == 0 {
                    self.text.push_str(".only");
                } else {
                    self.name();
                }
                self.stray();
                self.attrs();
                self.stray();
                self.text.push(' ');
                self.block(depth);
            }
            5 => {
                self.text.push_str("@if ");
                self.text.push_str(self.dice.pick(&["a", "let Some(x) = y", "a && b"]));
                self.text.push(' ');
                self.stray();
                self.block(depth);
                self.stray();
                if self.dice.roll(2) == 0 {
                    self.text.push_str(" @else ");
                    self.stray();
                    self.block(depth);
                }
            }
            6 => {
                self.text.push_str(self.dice.pick(&["@for x in xs ", "@for (i, x) in 0..n ", "@while go "]));
                self.block(depth);
            }
            7 => {
                self.text.push_str("@match x {");
                self.stray();
                self.text.push_str(" 1 => ");
                self.block(depth);
                self.text.push_str(",");
                self.stray();
                self.text.push_str(" Some(y) if y > 2 => ");
                self.stray();
                self.node(depth + 1);
                self.stray();
                self.text.push_str(" _ => ");
                self.block(depth);
                self.text.push_str(" }");
            }
            8 => self.text.push_str("@let x = 1 + 2;"),
            9 => self.block(depth),
            _ => {
                self.text.push_str("@if a ");
                self.block(depth);
                self.text.push_str(" @else if let Some(b) = c ");
                self.block(depth);
                self.text.push_str(" @else ");
                self.block(depth);
            }
        }
    }
}

fn random_file(seed: u64, with_comments: bool, stray_comments: bool) -> (String, Vec<String>) {
    let mut writer = Writer {
        dice: Dice(seed),
        text: String::new(),
        comments: Vec::new(),
        with_comments,
        stray_comments,
    };
    writer.text.push_str("// top\nfn f() {\n");
    writer.text.push_str(writer.dice.pick(&["", "    ", "\t", "        "]));
    writer.text.push_str("let page = html! ");
    writer.block(0);
    writer.text.push_str("; // end\n}\n");
    (writer.text, writer.comments)
}

fn squeeze(tokens: &str) -> String {
    tokens.chars().filter(|c| !c.is_whitespace() && *c != '{' && *c != '}').collect()
}

fn name_shape(name: &HtmlName) -> String {
    let mut shape = String::new();
    for part in &name.parts {
        shape.push_str(match &part.fragment {
            HtmlNameFragment::Ident(s) | HtmlNameFragment::LitInt(s) => s,
            HtmlNameFragment::LitStr { value, .. } => value,
            HtmlNameFragment::Empty => "",
        });
        shape.push_str(match part.punct {
            Some(HtmlNamePunct::Hyphen) => "-",
            Some(HtmlNamePunct::Colon) => ":",
            None => "",
        });
    }
    shape
}

fn name_or_markup_shape(name: &HtmlNameOrMarkup) -> String {
    match name {
        HtmlNameOrMarkup::HtmlName(name) => name_shape(name),
        HtmlNameOrMarkup::Markup(markup) => shape(markup),
    }
}

fn toggler_shape(toggler: &Option<Toggler>) -> String {
    toggler.as_ref().map_or(String::new(), |t| format!("[{}]", squeeze(&t.cond.tokens)))
}

fn block_shape(block: &Block) -> String {
    let inside: Vec<String> = block.markups.markups.iter().map(shape).collect();
    format!("{{{}}}", inside.join(" "))
}

fn if_shape(if_expr: &IfExpr) -> String {
    let rest = match if_expr.else_branch.as_deref() {
        Some(IfOrBlock::If(next)) => format!(" else {}", if_shape(next)),
        Some(IfOrBlock::Block(block)) => format!(" else {}", block_shape(block)),
        None => String::new(),
    };
    format!("if {} {}{rest}", squeeze(&if_expr.cond.tokens), block_shape(&if_expr.then_branch))
}

/// What a node says, whatever its layout: attributes in the order in
/// which they are printed, host fragments without white space and braces.
fn shape(markup: &Markup) -> String {
    match markup {
        Markup::Block(block) => block_shape(block),
        Markup::Lit(lit) => lit.text.clone(),
        Markup::Splice { expr, .. } => format!("({})", squeeze(&expr.tokens)),
        Markup::Semi { .. } => ";".to_string(),
        Markup::Element(element) => {
            let mut head = element.name.as_ref().map_or(String::new(), name_shape);
            for attr in element.attrs.iter().rev() {
                if let Attribute::Id { name, .. } = attr {
                    head.push_str(&format!(" #{}", name_or_markup_shape(name)));
                    break;
                }
            }
            for attr in &element.attrs {
                if let Attribute::Class { name, toggler, .. } = attr {
                    head.push_str(&format!(" .{}{}", name_or_markup_shape(name), toggler_shape(toggler)));
                }
            }
            for attr in &element.attrs {
                if let Attribute::Named { name, attr_type } = attr {
                    head.push_str(&format!(" {}", name_shape(name)));
                    match attr_type {
                        AttributeType::Normal { value } => head.push_str(&format!("={}", shape(value))),
                        AttributeType::Optional { toggler } => {
                            head.push_str(&format!("=[{}]", squeeze(&toggler.cond.tokens)))
                        }
                        AttributeType::Empty(toggler) => head.push_str(&toggler_shape(toggler)),
                    }
                }
            }
            match &element.body {
                ElementBody::Void { .. } => format!("{head};"),
                ElementBody::Block(block) => format!("{head} {}", block_shape(block)),
            }
        }
        Markup::ControlFlow(control_flow) => match &control_flow.kind {
            ControlFlowKind::Let(local) => format!("@{}", squeeze(&local.tokens)),
            ControlFlowKind::If(if_expr) => format!("@{}", if_shape(if_expr)),
            ControlFlowKind::For(for_expr) => format!(
                "@for {} in {} {}",
                squeeze(&for_expr.pat.tokens),
                squeeze(&for_expr.expr.tokens),
                block_shape(&for_expr.body)
            ),
            ControlFlowKind::While(while_expr) => {
                format!("@while {} {}", squeeze(&while_expr.cond.tokens), block_shape(&while_expr.body))
            }
            ControlFlowKind::Match(match_expr) => {
                let arms: Vec<String> = match_expr
                    .arms
                    .iter()
                    .map(|arm| {
                        format!(
                            "{}{} => {}",
                            squeeze(&arm.pat.tokens),
                            arm.guard.as_ref().map_or(String::new(), |g| format!(" if {}", squeeze(&g.tokens))),
                            shape(&arm.body)
                        )
                    })
                    .collect();
                format!("@match {} {{{}}}", squeeze(&match_expr.expr.tokens), arms.join(" "))
            }
        },
    }
}

fn shapes(text: &str, options: &FormatOptions) -> Vec<String> {
    locate(text, &options.macro_names)
        .unwrap_or_else(|e| panic!("{e}"))
        .iter()
        .map(|mac| {
            let nodes = &mac.markups.as_ref().expect("the template parses").markups;
            nodes.iter().map(shape).collect::<Vec<_>>().join(" ")
        })
        .collect()
}

fn first_difference(a: &str, b: &str) -> String {
    for (i, (x, y)) in a.lines().zip(b.lines()).enumerate() {
        if x != y {
            return format!("line {}: {x:?} became {y:?}", i + 1);
        }
    }
    format!("{} lines became {}", a.lines().count(), b.lines().count())
}

fn check_random(seed: u64, with_comments: bool, stray_comments: bool) {
    let (content, comments) = random_file(seed, with_comments, stray_comments);
    for line_length in [100, 40, 1] {
        let options = with_line_length(line_length);
        let once = try_fmt_file(&content, &options).unwrap_or_else(|e| panic!("seed {seed}: {e}"));
        let before = shapes(&content, &options);
        let after = shapes(&once, &options);
        assert!(
            before == after,
            "seed {seed} at {line_length}: {}",
            first_difference(&before.join("\n").replace(' ', "\n"), &after.join("\n").replace(' ', "\n"))
        );
        let twice = try_fmt_file(&once, &options).unwrap();
        assert!(
            once == twice,
            "seed {seed} at {line_length}: {}",
            first_difference(&once, &twice)
        );
        assert!(once.starts_with("// top\nfn f() {\n"), "seed {seed}");
        assert!(once.ends_with("; // end\n}\n"), "seed {seed}");
        if !stray_comments {
            for comment in &comments {
                assert!(
                    once.matches(comment.as_str()).count() == 1,
                    "seed {seed} at {line_length}: {comment:?}"
                );
            }
        }
    }
}

#[test]
fn random_templates_are_formatted_once_and_for_all() {
    for seed in 0..300 {
        check_random(seed, false, false);
    }
}

#[test]
fn random_templates_keep_their_comments() {
    for seed in 10000..10300 {
        check_random(seed, true, false);
    }
}



#[test]
fn random_templates_with_comments_anywhere_keep_what_they_say() {
    for seed in 20000..20300 {
        check_random(seed, true, true);
    }
}

#[test]
fn pattern_that_the_renderer_refuses_is_copied() {
    check(
        "fn f() {\n    html! { @match x { A|B   => \"ab\", C(..) | D{..} if y => p{} } }\n}\n",
        "fn f() {\n    html! {\n        @match x {\n            A|B => \"ab\"\n            C(..) | D{..} if y => p {}\n        }\n    }\n}\n",
        &FormatOptions::default(),
    );
}

#[test]
fn fragment_that_the_renderer_gives_up_on_is_copied() {
    let options = FormatOptions::default();
    let gives_up = |file: &str| if file.contains("macro_rules") { None } else { render(file) };
    let formatted = maudfmt::try_fmt_file(
        "fn f() {\n    html! { ({ macro_rules! m { x } }) (a+b) }\n}\n",
        &options,
        |text: &str| locate(text, &options.macro_names),
        gives_up,
    );
    assert_eq!(
        formatted.unwrap(),
        "fn f() {\n    html! {\n        ({ macro_rules! m { x } })\n        (a + b)\n    }\n}\n"
    );
}

#[test]
fn without_a_renderer_host_fragments_stay_as_they_are() {
    let content = "fn f() {\n    html!{ p.a[x==y]{ (a+b) @for  i  in 0 .. n{ (i) } @let z=1; } }\n}\n";
    let formatted = maudfmt::try_fmt_file(
        content,
        &FormatOptions::default(),
        |text: &str| locate(text, &FormatOptions::default().macro_names),
        |_: &str| None,
    );
    assert_eq!(
        formatted.unwrap(),
        "fn f() {\n    html! {\n        p.a[x==y] {\n            (a+b)\n            @for i in 0..n {\n                (i)\n            }\n            @let z=1;\n        }\n    }\n}\n"
    );
}
