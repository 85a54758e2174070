//! The markup tree of one template, with the source positions of its parts.
//!
//! Positions are those of the file the template was read from: lines count
//! from 1, columns count characters from 0. Fragments of the host language
//! (expressions, patterns, bindings) are kept as token text.

use vstd::prelude::*;

verus! {

/// A position in the source file.
#[derive(Clone, Copy, Debug, PartialEq, Eq, Structural)]
pub struct LineColumn {
    /// The line, counted from 1.
    pub line: usize,
    /// The column, in characters, counted from 0.
    pub column: usize,
}

/// A region of the source file, from `start` up to `end`.
#[derive(Clone, Copy, Debug, PartialEq, Eq, Structural)]
pub struct Span {
    pub start: LineColumn,
    pub end: LineColumn,
}

impl LineColumn {
    /// The index, counted from 0, of the line this position is on.
    pub open spec fn row(self) -> int {
        if self.line >= 1 {
            self.line - 1
        } else {
            0
        }
    }

    /// The index, counted from 0, of the line this position is on.
    pub fn line_index(&self) -> (i: usize)
        ensures
            i == self.row(),
    {
        if self.line >= 1 {
            self.line - 1
        } else {
            0
        }
    }
}

impl Span {
    /// The position just behind the opening delimiter of a delimited group
    /// whose whole extent is `self`.
    pub open spec fn open_end(self) -> LineColumn {
        LineColumn {
            line: self.start.line,
            column: if self.start.column < usize::MAX {
                (self.start.column + 1) as usize
            } else {
                self.start.column
            },
        }
    }

    /// The position just behind the opening delimiter of a delimited group
    /// whose whole extent is `self`.
    pub fn after_open(&self) -> (p: LineColumn)
        ensures
            p == self.open_end(),
    {
        LineColumn {
            line: self.start.line,
            column: if self.start.column < usize::MAX {
                self.start.column + 1
            } else {
                self.start.column
            },
        }
    }
}

/// An expression of the host language.
#[derive(Debug)]
pub struct Expr {
    /// Where the expression stands in the source.
    pub span: Span,
    /// The tokens of the expression, as text.
    pub tokens: String,
    /// The form of the expression, as far as the layout depends on it.
    pub kind: ExprKind,
}

/// The forms of a host expression that the layout tells apart.
#[derive(Debug)]
pub enum ExprKind {
    /// A block `{ .. }`; `stmts` holds the tokens of its statements.
    Block { stmts: String },
    /// A range `start..end` or `start..=end`.
    Range { start: Option<Box<Expr>>, closed: bool, end: Option<Box<Expr>> },
    /// A binding condition `let pat = expr`.
    Let { pat: Pat, expr: Box<Expr> },
    /// Any other expression.
    Other,
}

/// A pattern of the host language.
#[derive(Debug)]
pub struct Pat {
    /// Where the pattern stands in the source.
    pub span: Span,
    /// The tokens of the pattern, as text.
    pub tokens: String,
}

/// A `let` binding of the host language, with its closing semicolon.
#[derive(Debug)]
pub struct Local {
    /// Where the binding stands in the source, semicolon included.
    pub span: Span,
    /// The tokens of the binding, semicolon included, as text.
    pub tokens: String,
}

/// A sequence of markup nodes.
#[derive(Debug)]
pub struct Markups {
    pub markups: Vec<Markup>,
}

/// One node of a template.
#[derive(Debug)]
pub enum Markup {
    /// A nested block `{ .. }`.
    Block(Block),
    /// A literal.
    Lit(HtmlLit),
    /// An embedded expression `( .. )`; `paren` is the extent of the
    /// parentheses.
    Splice { paren: Span, expr: Expr },
    /// An element.
    Element(Element),
    /// A control-flow form, introduced by `@`.
    ControlFlow(ControlFlow),
    /// A lone semicolon; `semi` is its extent.
    Semi { semi: Span },
}

/// A literal, kept as the text of its token.
#[derive(Debug)]
pub struct HtmlLit {
    pub span: Span,
    pub text: String,
}

/// A braced sequence of markup nodes; `brace` is the extent of the braces.
#[derive(Debug)]
pub struct Block {
    pub brace: Span,
    pub markups: Markups,
}

/// An element: an optional tag name, its attributes in source order, and a
/// body.
#[derive(Debug)]
pub struct Element {
    pub name: Option<HtmlName>,
    pub attrs: Vec<Attribute>,
    pub body: ElementBody,
}

/// The body of an element.
#[derive(Debug)]
pub enum ElementBody {
    /// No content: the element ends with the semicolon at `semi`.
    Void { semi: Span },
    /// A block of content.
    Block(Block),
}

/// One attribute of an element.
#[derive(Debug)]
#[allow(inconsistent_fields)]
pub enum Attribute {
    /// `.name`, optionally toggled; `dot` is the extent of the dot.
    Class { dot: Span, name: HtmlNameOrMarkup, toggler: Option<Toggler> },
    /// `#name`; `pound` is the extent of the pound sign.
    Id { pound: Span, name: HtmlNameOrMarkup },
    /// `name`, `name=value`, `name=[cond]` or `name[cond]`.
    Named { name: HtmlName, attr_type: AttributeType },
}

/// The name of a class or id: a plain name or a piece of markup.
#[derive(Debug)]
pub enum HtmlNameOrMarkup {
    HtmlName(HtmlName),
    Markup(Markup),
}

/// What follows the name of a named attribute.
#[derive(Debug)]
pub enum AttributeType {
    /// `=value`.
    Normal { value: Markup },
    /// `=[cond]`.
    Optional { toggler: Toggler },
    /// Nothing, or `[cond]`.
    Empty(Option<Toggler>),
}

/// A name made of fragments joined by hyphens and colons.
#[derive(Debug)]
pub struct HtmlName {
    pub span: Span,
    pub parts: Vec<HtmlNamePart>,
}

/// One fragment of a name, with the punctuation that follows it.
#[derive(Debug)]
pub struct HtmlNamePart {
    pub fragment: HtmlNameFragment,
    pub punct: Option<HtmlNamePunct>,
}

/// A fragment of a name.
#[derive(Debug)]
pub enum HtmlNameFragment {
    /// An identifier.
    Ident(String),
    /// An integer literal, as written.
    LitInt(String),
    /// A string literal: the text of its token, and the value it denotes.
    LitStr { token: String, value: String },
    /// Nothing.
    Empty,
}

/// The punctuation between two fragments of a name.
#[derive(Clone, Copy, Debug, PartialEq, Eq, Structural)]
pub enum HtmlNamePunct {
    Colon,
    Hyphen,
}

/// A bracketed condition `[cond]`; `bracket` is the extent of the brackets.
#[derive(Debug)]
pub struct Toggler {
    pub bracket: Span,
    pub cond: Expr,
}

/// A control-flow form; `at` is the extent of the `@` that introduces it.
#[derive(Debug)]
pub struct ControlFlow {
    pub at: Span,
    pub kind: ControlFlowKind,
}

/// The kinds of control flow.
#[derive(Debug)]
pub enum ControlFlowKind {
    Let(Local),
    If(IfExpr),
    For(ForExpr),
    While(WhileExpr),
    Match(MatchExpr),
}

/// `if cond { .. }`, with an optional `@else` arm.
#[derive(Debug)]
pub struct IfExpr {
    pub cond: Expr,
    pub then_branch: Block,
    pub else_branch: Option<Box<IfOrBlock>>,
}

/// What follows `@else`: another conditional, or a block.
#[derive(Debug)]
pub enum IfOrBlock {
    If(IfExpr),
    Block(Block),
}

/// `for pat in expr { .. }`.
#[derive(Debug)]
pub struct ForExpr {
    pub pat: Pat,
    pub expr: Expr,
    pub body: Block,
}

/// `while cond { .. }`.
#[derive(Debug)]
pub struct WhileExpr {
    pub cond: Expr,
    pub body: Block,
}

/// `match expr { arms }`; `brace` is the extent of the braces.
#[derive(Debug)]
pub struct MatchExpr {
    pub expr: Expr,
    pub brace: Span,
    pub arms: Vec<MatchArm>,
}

/// One arm of a match: `pat [if guard] => body`.
#[derive(Debug)]
pub struct MatchArm {
    pub pat: Pat,
    pub guard: Option<Expr>,
    pub body: Markup,
}


impl IfExpr {
    /// Where the conditional ends: behind the block of its last arm.
    pub open spec fn end(self) -> LineColumn
        decreases self,
    {
        match self.else_branch {
            Some(branch) => match *branch {
                IfOrBlock::If(else_if) => else_if.end(),
                IfOrBlock::Block(block) => block.brace.end,
            },
            None => self.then_branch.brace.end,
        }
    }

    /// Where the conditional ends in the source.
    pub fn end_point(&self) -> (p: LineColumn)
        ensures
            p == self.end(),
        decreases *self,
    {
        match &self.else_branch {
            Some(branch) => match &**branch {
                IfOrBlock::If(else_if) => else_if.end_point(),
                IfOrBlock::Block(block) => block.brace.end,
            },
            None => self.then_branch.brace.end,
        }
    }
}

impl Markup {
    /// Where the node ends in the source: behind its last token.
    pub open spec fn end(self) -> LineColumn {
        match self {
            Markup::Block(block) => block.brace.end,
            Markup::Lit(lit) => lit.span.end,
            Markup::Splice { paren, .. } => paren.end,
            Markup::Element(element) => match element.body {
                ElementBody::Void { semi } => semi.end,
                ElementBody::Block(block) => block.brace.end,
            },
            Markup::ControlFlow(control_flow) => match control_flow.kind {
                ControlFlowKind::Let(local) => local.span.end,
                ControlFlowKind::If(if_expr) => if_expr.end(),
                ControlFlowKind::For(for_expr) => for_expr.body.brace.end,
                ControlFlowKind::While(while_expr) => while_expr.body.brace.end,
                ControlFlowKind::Match(match_expr) => match_expr.brace.end,
            },
            Markup::Semi { semi } => semi.end,
        }
    }

    /// Where the node ends in the source.
    pub fn end_point(&self) -> (p: LineColumn)
        ensures
            p == self.end(),
    {
        match self {
            Markup::Block(block) => block.brace.end,
            Markup::Lit(lit) => lit.span.end,
            Markup::Splice { paren, .. } => paren.end,
            Markup::Element(element) => match &element.body {
                ElementBody::Void { semi } => semi.end,
                ElementBody::Block(block) => block.brace.end,
            },
            Markup::ControlFlow(control_flow) => match &control_flow.kind {
                ControlFlowKind::Let(local) => local.span.end,
                ControlFlowKind::If(if_expr) => if_expr.end_point(),
                ControlFlowKind::For(for_expr) => for_expr.body.brace.end,
                ControlFlowKind::While(while_expr) => while_expr.body.brace.end,
                ControlFlowKind::Match(match_expr) => match_expr.brace.end,
            },
            Markup::Semi { semi } => semi.end,
        }
    }
}

} // verus!
