//! The syntax tree: what the parser produces and the lowering pass consumes.
//!
//! Every node owns its children, so a tree has no sharing and no cycles. Each
//! type has a view that replaces owned text by a sequence of characters and
//! byte offsets by natural numbers; contracts speak of trees through it.

use std::ops::Range;
use vstd::prelude::*;

verus! {

/// A half-open range of byte offsets into the source text.
pub type Span = Range<usize>;

/// A value together with the place in the source that it was read from.
pub type Spanned<T> = (T, Span);

/// A whole program: exactly one function.
#[derive(Debug, PartialEq)]
pub struct Program {
    pub func: FnDef,
}

/// A function: its name and the one statement of its body.
#[derive(Debug, PartialEq)]
pub struct FnDef {
    pub name: String,
    pub body: Stmt,
}

#[derive(Debug, PartialEq)]
pub enum Stmt {
    Return(ReturnStmt),
}

/// A prefix operator applied to one operand.
#[derive(Debug, PartialEq)]
pub struct ExprUnary {
    pub op: UnaryOp,
    pub expr: Spanned<Expr>,
}

/// An infix operator applied to a left and a right operand.
#[derive(Debug, PartialEq)]
pub struct ExprInfix {
    pub op: OpInfix,
    pub lhs: Spanned<Expr>,
    pub rhs: Spanned<Expr>,
}

#[derive(Debug, PartialEq)]
pub enum Expr {
    Binary(Box<ExprInfix>),
    Unary(Box<ExprUnary>),
    Literal(ExprLiteral),
    /// A number written without the `Literal` wrapper. The parser never builds
    /// one; trees built by hand may hold it, and it means what
    /// `Literal(ExprLiteral::Number(_))` means.
    Number(String),
}

/// A literal, holding its text as written (a string without its quotes).
#[derive(Debug, PartialEq)]
pub enum ExprLiteral {
    String(String),
    Number(String),
}

#[derive(Debug, Clone, Copy, PartialEq, Eq)]
pub enum UnaryOp {
    Neg,
    Complement,
    Not,
}

#[derive(Debug, Clone, Copy, PartialEq, Eq)]
pub enum OpInfix {
    Add,
    Sub,
    Mul,
    Div,
    Eq,
    Ne,
    Lt,
    Le,
    Gt,
    Ge,
    And,
    Or,
}

/// A `return`, with the returned expression if there is one.
#[derive(Debug, PartialEq)]
pub struct ReturnStmt {
    pub expr: Option<Expr>,
}

/// The view of a [`Span`].
pub struct SpanView {
    pub start: nat,
    pub end: nat,
}

/// The view of an [`ExprLiteral`].
pub enum LiteralView {
    String(Seq<char>),
    Number(Seq<char>),
}

/// The view of an [`Expr`]. The operands of an operator stand beside it, each
/// with its span.
pub enum ExprView {
    Binary { op: OpInfix, lhs: Box<ExprView>, lhs_span: SpanView, rhs: Box<ExprView>, rhs_span: SpanView },
    Unary { op: UnaryOp, expr: Box<ExprView>, span: SpanView },
    Literal(LiteralView),
    Number(Seq<char>),
}

/// The view of a [`Stmt`].
pub enum StmtView {
    Return(Option<ExprView>),
}

/// The view of a [`FnDef`].
pub struct FnDefView {
    pub name: Seq<char>,
    pub body: StmtView,
}

/// The view of a [`Program`].
pub struct ProgramView {
    pub func: FnDefView,
}

/// The view of a span: the same two offsets.
pub open spec fn span_view(span: Span) -> SpanView {
    SpanView { start: span.start as nat, end: span.end as nat }
}

impl View for ExprLiteral {
    type V = LiteralView;

    open spec fn view(&self) -> LiteralView {
        match self {
            ExprLiteral::String(text) => LiteralView::String(text@),
            ExprLiteral::Number(text) => LiteralView::Number(text@),
        }
    }
}

impl View for Expr {
    type V = ExprView;

    open spec fn view(&self) -> ExprView
        decreases self,
    {
        match self {
            Expr::Binary(infix) => ExprView::Binary {
                op: infix.op,
                lhs: Box::new(infix.lhs.0.view()),
                lhs_span: span_view(infix.lhs.1),
                rhs: Box::new(infix.rhs.0.view()),
                rhs_span: span_view(infix.rhs.1),
            },
            Expr::Unary(unary) => ExprView::Unary {
                op: unary.op,
                expr: Box::new(unary.expr.0.view()),
                span: span_view(unary.expr.1),
            },
            Expr::Literal(literal) => ExprView::Literal(literal@),
            Expr::Number(text) => ExprView::Number(text@),
        }
    }
}

impl View for ReturnStmt {
    type V = Option<ExprView>;

    open spec fn view(&self) -> Option<ExprView> {
        match self.expr {
            Some(expr) => Some(expr@),
            None => None,
        }
    }
}

impl View for Stmt {
    type V = StmtView;

    open spec fn view(&self) -> StmtView {
        match self {
            Stmt::Return(ret) => StmtView::Return(ret@),
        }
    }
}

impl View for FnDef {
    type V = FnDefView;

    open spec fn view(&self) -> FnDefView {
        FnDefView { name: self.name@, body: self.body@ }
    }
}

impl View for Program {
    type V = ProgramView;

    open spec fn view(&self) -> ProgramView {
        ProgramView { func: self.func@ }
    }
}

} // verus!
