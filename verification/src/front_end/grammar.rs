//! The grammar, stated as what it means for a run of tokens to be an
//! expression or a program, and the proof that the parser reads exactly
//! that.

use crate::front_end::ast::{ExprView, LiteralView, OpInfix, ProgramView, SpanView, StmtView};
use crate::front_end::lang::{
    continued, end_at, expression, expression_at, infix_at, infix_operator, items_left,
    levels_left, operand, precedence, prefix_operator, program, start_at, statement, token_at,
    ParseErrorView, Parsed,
};
use crate::front_end::lexer::{SpannedView, TokenView};
use vstd::prelude::*;

verus! {

/// The span from the first byte of the token at place `lo` to the last byte
/// of the token before place `hi`.
pub open spec fn cover(ts: Seq<SpannedView>, lo: int, hi: int) -> SpanView {
    SpanView { start: start_at(ts, lo), end: end_at(ts, hi - 1) }
}

/// The expression that a literal token is.
pub open spec fn literal(token: TokenView) -> Option<ExprView> {
    match token {
        TokenView::NumberLiteral(text) => Some(ExprView::Literal(LiteralView::Number(text))),
        TokenView::String(text) => Some(ExprView::Literal(LiteralView::String(text))),
        _ => None,
    }
}

/// Whether the infix operator `op` stands at place `k`, strictly inside the
/// places from `lo` up to `hi`.
pub open spec fn joins(ts: Seq<SpannedView>, lo: int, hi: int, k: int, op: OpInfix) -> bool {
    &&& lo < k < hi - 1
    &&& token_at(ts, k) matches Some(token)
    &&& infix_operator(token) == Some(op)
}

/// Whether the tokens at the places from `lo` up to, not including, `hi` are,
/// all of them together, an expression with the tree `e`, in which every
/// infix operator outside parentheses has precedence `level` or more.
///
/// Such a run of tokens is one of four things: a literal; an expression in
/// parentheses, which has the tree of the expression inside; a prefix operator
/// before an operand, which is an expression with no infix operator outside
/// parentheses; or two expressions joined by an infix operator, where no
/// operator of the left one binds less than the joining operator, and every
/// operator of the right one binds more. Each operand in a tree carries the
/// span of its tokens.
pub open spec fn derives(ts: Seq<SpannedView>, lo: int, hi: int, level: int, e: ExprView) -> bool
    decreases hi - lo,
{
    &&& 0 <= lo < hi <= ts.len()
    &&& token_at(ts, lo) matches Some(first)
    &&& {
        ||| hi == lo + 1 && literal(first) == Some(e)
        ||| first == TokenView::LParen && token_at(ts, hi - 1) == Some(TokenView::RParen)
            && derives(ts, lo + 1, hi - 1, 1, e)
        ||| e matches ExprView::Unary { op, expr, span } && prefix_operator(first) == Some(op)
            && span == cover(ts, lo + 1, hi) && derives(ts, lo + 1, hi, 7, *expr)
        ||| e matches ExprView::Binary { op, lhs, lhs_span, rhs, rhs_span } && level <= precedence(
            op,
        ) && exists|k: int|
            #[trigger] joins(ts, lo, hi, k, op) && lhs_span == cover(ts, lo, k) && rhs_span
                == cover(ts, k + 1, hi) && derives(ts, lo, k, precedence(op), *lhs) && derives(
                ts,
                k + 1,
                hi,
                precedence(op) + 1,
                *rhs,
            )
    }
}

/// Whether the tokens at the places from `lo` up to `hi` are two expressions
/// joined by the infix operator at place `k`, with the tree `e`: the operator
/// is that of `e`; the tokens before it are its left operand, an expression
/// in which no operator outside parentheses binds less than it; the tokens
/// after it are its right operand, one in which every such operator binds
/// more.
pub open spec fn joined_by(ts: Seq<SpannedView>, lo: int, hi: int, k: int, e: ExprView) -> bool {
    &&& e matches ExprView::Binary { op, lhs, lhs_span, rhs, rhs_span }
    &&& joins(ts, lo, hi, k, op)
    &&& lhs_span == cover(ts, lo, k)
    &&& rhs_span == cover(ts, k + 1, hi)
    &&& derives(ts, lo, k, precedence(op), *lhs)
    &&& derives(ts, k + 1, hi, precedence(op) + 1, *rhs)
}

/// Whether the tokens at the places from `lo` up to `hi` are two expressions
/// joined by an infix operator of precedence `level` or more, with the tree
/// `e`.
pub open spec fn joined_from(ts: Seq<SpannedView>, lo: int, hi: int, level: int, e: ExprView) -> bool {
    &&& e is Binary
    &&& level <= precedence(e->Binary_op)
    &&& exists|k: int| #[trigger] joins(ts, lo, hi, k, e->Binary_op) && joined_by(ts, lo, hi, k, e)
}

/// Whether `parsed` is an expression of precedence `level` that stands at
/// place `pos`: its tokens are such an expression with its tree, its span is
/// theirs, and its length is their number.
pub open spec fn stands_at(ts: Seq<SpannedView>, pos: int, level: int, parsed: Parsed) -> bool {
    &&& derives(ts, pos, pos + parsed.len, level, parsed.expr)
    &&& parsed.span == cover(ts, pos, pos + parsed.len)
}

/// An expression has at least one token, lies among the items, and begins
/// with a token.
pub proof fn lemma_derives_bounds(ts: Seq<SpannedView>, lo: int, hi: int, level: int, e: ExprView)
    requires
        derives(ts, lo, hi, level, e),
    ensures
        0 <= lo < hi <= ts.len(),
        token_at(ts, lo) is Some,
{
}

/// An expression of some precedence is an expression of any lower one.
pub proof fn lemma_derives_lower(
    ts: Seq<SpannedView>,
    lo: int,
    hi: int,
    level: int,
    lower: int,
    e: ExprView,
)
    requires
        derives(ts, lo, hi, level, e),
        lower <= level,
    ensures
        derives(ts, lo, hi, lower, e),
{
    if joined_from(ts, lo, hi, level, e) {
        let k = choose|k: int|
            #[trigger] joins(ts, lo, hi, k, e->Binary_op) && joined_by(ts, lo, hi, k, e);
        assert(joins(ts, lo, hi, k, e->Binary_op));
    }
}

/// What the parser reads as an operand is an expression without an infix
/// operator outside parentheses.
pub proof fn lemma_operand_sound(ts: Seq<SpannedView>, pos: int)
    requires
        0 <= pos,
        operand(ts, pos) is Ok,
    ensures
        stands_at(ts, pos, 7, operand(ts, pos)->Ok_0),
    decreases items_left(ts, pos), 0nat,
{
    let first = token_at(ts, pos)->0;
    match first {
        TokenView::NumberLiteral(_) => {},
        TokenView::String(_) => {},
        TokenView::LParen => {
            lemma_expression_sound(ts, pos + 1, 1);
        },
        _ => {
            lemma_operand_sound(ts, pos + 1);
        },
    }
}

/// What the parser reads as an expression of precedence `level` is one.
pub proof fn lemma_expression_sound(ts: Seq<SpannedView>, pos: int, level: int)
    requires
        0 <= pos,
        1 <= level <= 7,
        expression_at(ts, pos, level) is Ok,
    ensures
        stands_at(ts, pos, level, expression_at(ts, pos, level)->Ok_0),
    decreases items_left(ts, pos), 2 * levels_left(level) + 2,
{
    if level > 6 {
        lemma_operand_sound(ts, pos);
    } else {
        lemma_expression_sound(ts, pos, level + 1);
        let first = expression_at(ts, pos, level + 1)->Ok_0;
        lemma_derives_lower(ts, pos, pos + first.len, level + 1, level, first.expr);
        lemma_continued_sound(ts, pos, level, first);
    }
}

/// What an expression of precedence `level` grows into, as the parser goes on
/// from it, is again one.
pub proof fn lemma_continued_sound(ts: Seq<SpannedView>, pos: int, level: int, lhs: Parsed)
    requires
        0 <= pos,
        1 <= level <= 6,
        stands_at(ts, pos, level, lhs),
        continued(ts, pos, level, lhs) is Ok,
    ensures
        stands_at(ts, pos, level, continued(ts, pos, level, lhs)->Ok_0),
    decreases items_left(ts, pos + lhs.len), 2 * levels_left(level) + 1,
{
    match infix_at(ts, pos + lhs.len, level) {
        Some(op) => {
            let at = pos + lhs.len;
            lemma_expression_sound(ts, at + 1, level + 1);
            let rhs = expression_at(ts, at + 1, level + 1)->Ok_0;
            let joined = Parsed {
                expr: ExprView::Binary {
                    op,
                    lhs: Box::new(lhs.expr),
                    lhs_span: lhs.span,
                    rhs: Box::new(rhs.expr),
                    rhs_span: rhs.span,
                },
                span: SpanView { start: lhs.span.start, end: rhs.span.end },
                len: lhs.len + 1 + rhs.len,
            };
            lemma_derives_bounds(ts, pos, at, level, lhs.expr);
            lemma_derives_bounds(ts, at + 1, at + 1 + rhs.len, level + 1, rhs.expr);
            assert(joins(ts, pos, pos + joined.len, at, op));
            assert(stands_at(ts, pos, level, joined));
            lemma_continued_sound(ts, pos, level, joined);
        },
        None => {},
    }
}

/// Whether an expression of precedence `level` that ends before place `pos`
/// cannot go on there: no infix operator of precedence `level` or more stands
/// at `pos`.
pub open spec fn ends_at(ts: Seq<SpannedView>, pos: int, level: int) -> bool {
    match token_at(ts, pos) {
        Some(token) => match infix_operator(token) {
            Some(op) => precedence(op) < level,
            None => true,
        },
        None => true,
    }
}

/// The expression with tree `e` that stands at the places from `lo` up to
/// `hi`, as the parser gives it.
pub open spec fn read_of(ts: Seq<SpannedView>, lo: int, hi: int, e: ExprView) -> Parsed {
    Parsed { expr: e, span: cover(ts, lo, hi), len: (hi - lo) as nat }
}

/// Where an expression without an infix operator outside parentheses stands,
/// the parser reads it as an operand.
pub proof fn lemma_operand_complete(ts: Seq<SpannedView>, lo: int, hi: int, e: ExprView)
    requires
        derives(ts, lo, hi, 7, e),
    ensures
        operand(ts, lo) == Ok::<Parsed, ParseErrorView>(read_of(ts, lo, hi, e)),
    decreases hi - lo, 0nat, 0nat,
{
    let first = token_at(ts, lo)->0;
    if hi == lo + 1 && literal(first) == Some(e) {
    } else if first == TokenView::LParen {
        lemma_expression_complete(ts, lo + 1, hi - 1, 1, e);
    } else {
        match e {
            ExprView::Unary { op, expr, span } => {
                lemma_operand_complete(ts, lo + 1, hi, *expr);
            },
            _ => {},
        }
    }
}

/// Where an expression of precedence `level` stands and no operator that
/// binds more follows it, the parser, reading at that precedence, comes to
/// the same as if it went on from that expression.
pub proof fn lemma_expression_grows(
    ts: Seq<SpannedView>,
    lo: int,
    hi: int,
    level: int,
    e: ExprView,
)
    requires
        1 <= level <= 6,
        derives(ts, lo, hi, level, e),
        ends_at(ts, hi, level + 1),
    ensures
        expression_at(ts, lo, level) == continued(ts, lo, level, read_of(ts, lo, hi, e)),
    decreases hi - lo, (8 - level) as nat, 0nat,
{
    if joined_from(ts, lo, hi, level, e) && precedence(e->Binary_op) == level {
        let k = choose|k: int|
            #[trigger] joins(ts, lo, hi, k, e->Binary_op) && joined_by(ts, lo, hi, k, e);
        let op = e->Binary_op;
        let lhs = *e->lhs;
        let rhs = *e->rhs;
        lemma_expression_grows(ts, lo, k, level, lhs);
        lemma_expression_complete(ts, k + 1, hi, level + 1, rhs);
        let left = read_of(ts, lo, k, lhs);
        let right = read_of(ts, k + 1, hi, rhs);
        assert(infix_at(ts, lo + left.len, level) == Some(op));
        assert(expression_at(ts, lo + left.len + 1, level + 1) == Ok::<Parsed, ParseErrorView>(
            right,
        ));
        assert(read_of(ts, lo, hi, e) == Parsed {
            expr: ExprView::Binary {
                op,
                lhs: Box::new(left.expr),
                lhs_span: left.span,
                rhs: Box::new(right.expr),
                rhs_span: right.span,
            },
            span: SpanView { start: left.span.start, end: right.span.end },
            len: left.len + 1 + right.len,
        });
    } else {
        lemma_derives_higher(ts, lo, hi, level, e);
        lemma_expression_complete(ts, lo, hi, level + 1, e);
    }
}

/// An expression of precedence `level` that is not two expressions joined by
/// an operator of just that precedence is an expression of the next
/// precedence.
proof fn lemma_derives_higher(ts: Seq<SpannedView>, lo: int, hi: int, level: int, e: ExprView)
    requires
        derives(ts, lo, hi, level, e),
        !(joined_from(ts, lo, hi, level, e) && precedence(e->Binary_op) == level),
    ensures
        derives(ts, lo, hi, level + 1, e),
{
    if joined_from(ts, lo, hi, level, e) {
        let k = choose|k: int|
            #[trigger] joins(ts, lo, hi, k, e->Binary_op) && joined_by(ts, lo, hi, k, e);
        assert(joins(ts, lo, hi, k, e->Binary_op));
    }
}

/// Where an expression of precedence `level` stands and no operator of that
/// precedence or more follows it, the parser reads exactly that expression:
/// its tree, its span and all of its tokens.
pub proof fn lemma_expression_complete(
    ts: Seq<SpannedView>,
    lo: int,
    hi: int,
    level: int,
    e: ExprView,
)
    requires
        1 <= level <= 7,
        derives(ts, lo, hi, level, e),
        ends_at(ts, hi, level),
    ensures
        expression_at(ts, lo, level) == Ok::<Parsed, ParseErrorView>(read_of(ts, lo, hi, e)),
    decreases hi - lo, (8 - level) as nat, 1nat,
{
    if level > 6 {
        lemma_operand_complete(ts, lo, hi, e);
    } else {
        lemma_expression_grows(ts, lo, hi, level, e);
    }
}

/// Whether `token` can be the first of an expression: a literal, an opening
/// parenthesis or a prefix operator.
pub open spec fn begins_expression(token: TokenView) -> bool {
    literal(token) is Some || token == TokenView::LParen || prefix_operator(token) is Some
}

/// An expression begins with a literal, an opening parenthesis or a prefix
/// operator.
pub proof fn lemma_derives_first(ts: Seq<SpannedView>, lo: int, hi: int, level: int, e: ExprView)
    requires
        derives(ts, lo, hi, level, e),
    ensures
        token_at(ts, lo) matches Some(first) && begins_expression(first),
    decreases hi - lo,
{
    if joined_from(ts, lo, hi, level, e) {
        let k = choose|k: int|
            #[trigger] joins(ts, lo, hi, k, e->Binary_op) && joined_by(ts, lo, hi, k, e);
        lemma_derives_first(ts, lo, k, precedence(e->Binary_op), *e->lhs);
    }
}

/// Whether the items `ts`, all of them together, are the program `p`: the
/// head of a function definition with the name of `p`, an opening brace,
/// `return`, then either nothing or the tokens of the expression that `p`
/// returns, a semicolon and a closing brace.
pub open spec fn is_program(ts: Seq<SpannedView>, p: ProgramView) -> bool {
    let n = ts.len() as int;
    &&& n >= 10
    &&& token_at(ts, 0) == Some(TokenView::Fn)
    &&& token_at(ts, 1) == Some(TokenView::Identifier(p.func.name))
    &&& token_at(ts, 2) == Some(TokenView::LParen)
    &&& token_at(ts, 3) == Some(TokenView::RParen)
    &&& token_at(ts, 4) == Some(TokenView::RightArrow)
    &&& token_at(ts, 5) == Some(TokenView::NumberType)
    &&& token_at(ts, 6) == Some(TokenView::LBrace)
    &&& token_at(ts, 7) == Some(TokenView::Return)
    &&& token_at(ts, n - 2) == Some(TokenView::Semicolon)
    &&& token_at(ts, n - 1) == Some(TokenView::RBrace)
    &&& match p.func.body {
        StmtView::Return(None) => n == 10,
        StmtView::Return(Some(e)) => derives(ts, 8, n - 2, 1, e),
    }
}

/// What the parser reads as a program is one.
pub proof fn lemma_program_sound(ts: Seq<SpannedView>, p: ProgramView)
    requires
        program(ts) == Ok::<ProgramView, ParseErrorView>(p),
    ensures
        is_program(ts, p),
{
    if token_at(ts, 8) != Some(TokenView::Semicolon) {
        lemma_expression_sound(ts, 8, 1);
        let value = expression(ts, 8)->Ok_0;
        lemma_derives_bounds(ts, 8, value.len + 8int, 1, value.expr);
    }
}

/// The parser reads every program, and reads it as what it is.
pub proof fn lemma_program_complete(ts: Seq<SpannedView>, p: ProgramView)
    requires
        is_program(ts, p),
    ensures
        program(ts) == Ok::<ProgramView, ParseErrorView>(p),
{
    let n = ts.len() as int;
    match p.func.body {
        StmtView::Return(None) => {},
        StmtView::Return(Some(e)) => {
            lemma_derives_first(ts, 8, n - 2, 1, e);
            lemma_expression_complete(ts, 8, n - 2, 1, e);
            assert(statement(ts, 7) == Ok::<(StmtView, nat), ParseErrorView>(
                (p.func.body, (n - 8) as nat),
            ));
        },
    }
}

/// The parser accepts exactly the programs of the grammar: it reads the items
/// as the program `p` if and only if they are `p`, and it reports an error if
/// and only if they are no program at all.
pub proof fn lemma_parser_decides(ts: Seq<SpannedView>)
    ensures
        forall|p: ProgramView| #[trigger]
            is_program(ts, p) <==> program(ts) == Ok::<ProgramView, ParseErrorView>(p),
        program(ts) is Err <==> forall|p: ProgramView| !#[trigger] is_program(ts, p),
{
    assert forall|p: ProgramView| #[trigger]
        is_program(ts, p) <==> program(ts) == Ok::<ProgramView, ParseErrorView>(p) by {
        if is_program(ts, p) {
            lemma_program_complete(ts, p);
        }
        if program(ts) == Ok::<ProgramView, ParseErrorView>(p) {
            lemma_program_sound(ts, p);
        }
    }
    if program(ts) is Ok {
        lemma_program_sound(ts, program(ts)->Ok_0);
    }
}

/// The grammar is unambiguous: the same items are never two different
/// programs.
pub proof fn lemma_program_unique(ts: Seq<SpannedView>, p: ProgramView, q: ProgramView)
    requires
        is_program(ts, p),
        is_program(ts, q),
    ensures
        p == q,
{
    lemma_program_complete(ts, p);
    lemma_program_complete(ts, q);
}

} // verus!
