//! The grammar of the language, and the parser for it.
//!
//! ```text
//! Program := FnDef
//! FnDef   := "function" Identifier "(" ")" "->" NumberType "{" Stmt "}"
//! Stmt    := "return" Expr? ";"
//! Expr    := Expr InfixOp Expr | PrefixOp Expr | "(" Expr ")" | String | Number
//! ```
//!
//! Infix operators associate to the left. From those that bind least to those
//! that bind most: `||`; `&&`; `==` `!=`; `<` `<=` `>` `>=`; `+` `-`; `*` `/`.
//! A prefix operator, one of `-` `!` `~`, binds more than any infix operator.
//!
//! The parser reads the lexer's items from left to right and stops at the
//! first that cannot stand where it does.

use crate::front_end::ast::{
    Expr, ExprInfix, ExprLiteral, ExprUnary, ExprView, FnDef, FnDefView, LiteralView, OpInfix,
    Program, ProgramView, ReturnStmt, Span, SpanView, Stmt, StmtView, UnaryOp, span_view,
};
use crate::front_end::lexer::{
    item_view, items_view, Error, Lexer, Spanned, SpannedView, Token, TokenView,
};
use vstd::prelude::*;

verus! {

/// Why a sequence of items is no program.
#[derive(Debug, PartialEq)]
pub enum ParseError {
    /// The items ended where the grammar asks for more. `location` is the
    /// byte offset at which the last token ended, or zero if there was none.
    UnrecognizedEof { location: usize },
    /// This token, with its byte offsets before and after it, cannot stand
    /// where it does.
    UnrecognizedToken { token: (usize, Token, usize) },
    /// The parser came upon the lexer's error.
    User { error: Error },
}

/// The view of a [`ParseError`].
pub enum ParseErrorView {
    UnrecognizedEof { location: nat },
    UnrecognizedToken { start: nat, token: TokenView, end: nat },
    User { offset: nat },
}

impl View for ParseError {
    type V = ParseErrorView;

    open spec fn view(&self) -> ParseErrorView {
        match self {
            ParseError::UnrecognizedEof { location } => ParseErrorView::UnrecognizedEof {
                location: *location as nat,
            },
            ParseError::UnrecognizedToken { token } => ParseErrorView::UnrecognizedToken {
                start: token.0 as nat,
                token: token.1@,
                end: token.2 as nat,
            },
            ParseError::User { error: Error::LexicalError { offset } } => ParseErrorView::User {
                offset: *offset as nat,
            },
        }
    }
}

/// An expression that was read: its tree, the span of its tokens, and how
/// many items it took.
pub struct Parsed {
    pub expr: ExprView,
    pub span: SpanView,
    pub len: nat,
}

/// The token at place `pos`, if a token stands there.
pub open spec fn token_at(ts: Seq<SpannedView>, pos: int) -> Option<TokenView> {
    if 0 <= pos < ts.len() {
        match ts[pos] {
            SpannedView::Token { token, .. } => Some(token),
            SpannedView::Error { .. } => None,
        }
    } else {
        None
    }
}

/// The byte offset at which the token at place `pos` begins.
pub open spec fn start_at(ts: Seq<SpannedView>, pos: int) -> nat {
    ts[pos]->start
}

/// The byte offset at which the token at place `pos` ends.
pub open spec fn end_at(ts: Seq<SpannedView>, pos: int) -> nat {
    ts[pos]->end
}

/// The error for the item at place `pos`, which cannot stand there: the
/// lexer's own where the item is its error, and the end of the items where
/// `pos` is past the last.
pub open spec fn unexpected(ts: Seq<SpannedView>, pos: int) -> ParseErrorView {
    if 0 <= pos < ts.len() {
        match ts[pos] {
            SpannedView::Token { start, token, end } => ParseErrorView::UnrecognizedToken {
                start,
                token,
                end,
            },
            SpannedView::Error { offset } => ParseErrorView::User { offset },
        }
    } else if ts.len() > 0 && ts.last() is Token {
        ParseErrorView::UnrecognizedEof { location: ts.last()->end }
    } else {
        ParseErrorView::UnrecognizedEof { location: 0 }
    }
}

/// The prefix operator that `token` is, if it is one.
pub open spec fn prefix_operator(token: TokenView) -> Option<UnaryOp> {
    match token {
        TokenView::Minus => Some(UnaryOp::Neg),
        TokenView::Not => Some(UnaryOp::Not),
        TokenView::Tilde => Some(UnaryOp::Complement),
        _ => None,
    }
}

/// The infix operator that `token` is, if it is one.
pub open spec fn infix_operator(token: TokenView) -> Option<OpInfix> {
    match token {
        TokenView::Add => Some(OpInfix::Add),
        TokenView::Minus => Some(OpInfix::Sub),
        TokenView::Star => Some(OpInfix::Mul),
        TokenView::Slash => Some(OpInfix::Div),
        TokenView::EqualEqual => Some(OpInfix::Eq),
        TokenView::NotEqual => Some(OpInfix::Ne),
        TokenView::Less => Some(OpInfix::Lt),
        TokenView::LessEqual => Some(OpInfix::Le),
        TokenView::Greater => Some(OpInfix::Gt),
        TokenView::GreaterEqual => Some(OpInfix::Ge),
        TokenView::And => Some(OpInfix::And),
        TokenView::Or => Some(OpInfix::Or),
        _ => None,
    }
}

/// How tightly an infix operator binds, from 1 for the loosest to 6 for the
/// tightest.
pub open spec fn precedence(op: OpInfix) -> int {
    match op {
        OpInfix::Or => 1,
        OpInfix::And => 2,
        OpInfix::Eq | OpInfix::Ne => 3,
        OpInfix::Lt | OpInfix::Le | OpInfix::Gt | OpInfix::Ge => 4,
        OpInfix::Add | OpInfix::Sub => 5,
        OpInfix::Mul | OpInfix::Div => 6,
    }
}

/// The infix operator of precedence `level` at place `pos`, if one stands
/// there.
pub open spec fn infix_at(ts: Seq<SpannedView>, pos: int, level: int) -> Option<OpInfix> {
    match token_at(ts, pos) {
        Some(token) => match infix_operator(token) {
            Some(op) => if precedence(op) == level {
                Some(op)
            } else {
                None
            },
            None => None,
        },
        None => None,
    }
}

/// How many items stand at place `pos` and after it.
pub open spec fn items_left(ts: Seq<SpannedView>, pos: int) -> nat {
    if pos < ts.len() {
        (ts.len() - pos) as nat
    } else {
        0
    }
}

/// How many precedences lie at `level` and above it.
pub open spec fn levels_left(level: int) -> nat {
    if level <= 6 {
        (7 - level) as nat
    } else {
        0
    }
}

/// An operand, read from place `pos`: a literal, an expression in
/// parentheses, or a prefix operator before an operand.
pub open spec fn operand(ts: Seq<SpannedView>, pos: int) -> Result<Parsed, ParseErrorView>
    decreases items_left(ts, pos), 0nat,
{
    match token_at(ts, pos) {
        Some(TokenView::NumberLiteral(text)) => Ok(
            Parsed {
                expr: ExprView::Literal(LiteralView::Number(text)),
                span: SpanView { start: start_at(ts, pos), end: end_at(ts, pos) },
                len: 1,
            },
        ),
        Some(TokenView::String(text)) => Ok(
            Parsed {
                expr: ExprView::Literal(LiteralView::String(text)),
                span: SpanView { start: start_at(ts, pos), end: end_at(ts, pos) },
                len: 1,
            },
        ),
        Some(TokenView::LParen) => match expression_at(ts, pos + 1, 1) {
            Ok(inner) => if token_at(ts, pos + 1 + inner.len) == Some(TokenView::RParen) {
                Ok(
                    Parsed {
                        expr: inner.expr,
                        span: SpanView {
                            start: start_at(ts, pos),
                            end: end_at(ts, pos + 1 + inner.len),
                        },
                        len: inner.len + 2,
                    },
                )
            } else {
                Err(unexpected(ts, pos + 1 + inner.len))
            },
            Err(error) => Err(error),
        },
        Some(token) => match prefix_operator(token) {
            Some(op) => match operand(ts, pos + 1) {
                Ok(inner) => Ok(
                    Parsed {
                        expr: ExprView::Unary { op, expr: Box::new(inner.expr), span: inner.span },
                        span: SpanView { start: start_at(ts, pos), end: inner.span.end },
                        len: inner.len + 1,
                    },
                ),
                Err(error) => Err(error),
            },
            None => Err(unexpected(ts, pos)),
        },
        None => Err(unexpected(ts, pos)),
    }
}

/// An expression whose infix operators outside parentheses all have
/// precedence `level` or more, read from place `pos`: the longest there is.
pub open spec fn expression_at(ts: Seq<SpannedView>, pos: int, level: int) -> Result<
    Parsed,
    ParseErrorView,
>
    decreases items_left(ts, pos), 2 * levels_left(level) + 2,
{
    if level > 6 {
        operand(ts, pos)
    } else {
        match expression_at(ts, pos, level + 1) {
            Ok(first) => continued(ts, pos, level, first),
            Err(error) => Err(error),
        }
    }
}

/// The expression that `lhs`, read from place `pos`, grows into as long as
/// an infix operator of precedence `level` follows it: each such operator
/// takes what was read so far as its left operand.
pub open spec fn continued(ts: Seq<SpannedView>, pos: int, level: int, lhs: Parsed) -> Result<
    Parsed,
    ParseErrorView,
>
    decreases items_left(ts, pos + lhs.len), 2 * levels_left(level) + 1,
{
    match infix_at(ts, pos + lhs.len, level) {
        Some(op) => match expression_at(ts, pos + lhs.len + 1, level + 1) {
            Ok(rhs) => continued(
                ts,
                pos,
                level,
                Parsed {
                    expr: ExprView::Binary {
                        op,
                        lhs: Box::new(lhs.expr),
                        lhs_span: lhs.span,
                        rhs: Box::new(rhs.expr),
                        rhs_span: rhs.span,
                    },
                    span: SpanView { start: lhs.span.start, end: rhs.span.end },
                    len: lhs.len + 1 + rhs.len,
                },
            ),
            Err(error) => Err(error),
        },
        None => Ok(lhs),
    }
}

/// A whole expression, read from place `pos`.
pub open spec fn expression(ts: Seq<SpannedView>, pos: int) -> Result<Parsed, ParseErrorView> {
    expression_at(ts, pos, 1)
}

/// A statement, read from place `pos`, with the number of items it took.
pub open spec fn statement(ts: Seq<SpannedView>, pos: int) -> Result<
    (StmtView, nat),
    ParseErrorView,
> {
    if token_at(ts, pos) != Some(TokenView::Return) {
        Err(unexpected(ts, pos))
    } else if token_at(ts, pos + 1) == Some(TokenView::Semicolon) {
        Ok((StmtView::Return(None), 2))
    } else {
        match expression(ts, pos + 1) {
            Ok(value) => if token_at(ts, pos + 1 + value.len) == Some(TokenView::Semicolon) {
                Ok((StmtView::Return(Some(value.expr)), value.len + 2))
            } else {
                Err(unexpected(ts, pos + 1 + value.len))
            },
            Err(error) => Err(error),
        }
    }
}

/// The name of the function, where the items begin with the head of a
/// function definition up to the brace that opens its body: seven items.
pub open spec fn function_head(ts: Seq<SpannedView>) -> Result<Seq<char>, ParseErrorView> {
    if token_at(ts, 0) != Some(TokenView::Fn) {
        Err(unexpected(ts, 0))
    } else if !(token_at(ts, 1) matches Some(TokenView::Identifier(_))) {
        Err(unexpected(ts, 1))
    } else if token_at(ts, 2) != Some(TokenView::LParen) {
        Err(unexpected(ts, 2))
    } else if token_at(ts, 3) != Some(TokenView::RParen) {
        Err(unexpected(ts, 3))
    } else if token_at(ts, 4) != Some(TokenView::RightArrow) {
        Err(unexpected(ts, 4))
    } else if token_at(ts, 5) != Some(TokenView::NumberType) {
        Err(unexpected(ts, 5))
    } else if token_at(ts, 6) != Some(TokenView::LBrace) {
        Err(unexpected(ts, 6))
    } else {
        Ok(token_at(ts, 1)->0->Identifier_0)
    }
}

/// The program that the items `ts` are, or the error at the first item that
/// cannot stand where it does.
pub open spec fn program(ts: Seq<SpannedView>) -> Result<ProgramView, ParseErrorView> {
    match function_head(ts) {
        Ok(name) => match statement(ts, 7) {
            Ok((body, len)) => if token_at(ts, len + 7int) != Some(TokenView::RBrace) {
                Err(unexpected(ts, len + 7int))
            } else if len + 8int < ts.len() {
                Err(unexpected(ts, len + 8int))
            } else {
                Ok(ProgramView { func: FnDefView { name, body } })
            },
            Err(error) => Err(error),
        },
        Err(error) => Err(error),
    }
}

/// Whether `result` is what was expected of a read from place `pos`: the
/// same tree with the same span and the place after it, or the same error.
pub open spec fn reads(
    result: Result<(Expr, Span, usize), ParseError>,
    expected: Result<Parsed, ParseErrorView>,
    pos: usize,
) -> bool {
    match expected {
        Ok(parsed) => {
            &&& result matches Ok((expr, span, next))
            &&& expr@ == parsed.expr
            &&& span_view(span) == parsed.span
            &&& next == pos + parsed.len
        },
        Err(error) => {
            &&& result matches Err(found)
            &&& found@ == error
        },
    }
}

/// Whether `result` is what was expected: the same program, or the same
/// error.
pub open spec fn parses(
    result: Result<Program, ParseError>,
    expected: Result<ProgramView, ParseErrorView>,
) -> bool {
    match expected {
        Ok(program) => {
            &&& result matches Ok(found)
            &&& found@ == program
        },
        Err(error) => {
            &&& result matches Err(found)
            &&& found@ == error
        },
    }
}

/// A copy of `token`.
fn copy_token(token: &Token) -> (copy: Token)
    ensures
        copy == *token,
{
    match token {
        Token::Fn => Token::Fn,
        Token::RightArrow => Token::RightArrow,
        Token::NumberType => Token::NumberType,
        Token::Return => Token::Return,
        Token::True => Token::True,
        Token::False => Token::False,
        Token::Add => Token::Add,
        Token::Minus => Token::Minus,
        Token::Not => Token::Not,
        Token::Tilde => Token::Tilde,
        Token::LParen => Token::LParen,
        Token::RParen => Token::RParen,
        Token::LBrace => Token::LBrace,
        Token::RBrace => Token::RBrace,
        Token::Semicolon => Token::Semicolon,
        Token::Null => Token::Null,
        Token::Star => Token::Star,
        Token::Slash => Token::Slash,
        Token::EqualEqual => Token::EqualEqual,
        Token::NotEqual => Token::NotEqual,
        Token::Less => Token::Less,
        Token::LessEqual => Token::LessEqual,
        Token::Greater => Token::Greater,
        Token::GreaterEqual => Token::GreaterEqual,
        Token::And => Token::And,
        Token::Or => Token::Or,
        Token::String(text) => Token::String(text.clone()),
        Token::Identifier(text) => Token::Identifier(text.clone()),
        Token::NumberLiteral(text) => Token::NumberLiteral(text.clone()),
    }
}

/// The token at place `pos`, if a token stands there.
fn peek(items: &Vec<Spanned<Token, usize, Error>>, pos: usize) -> (found: Option<&Token>)
    ensures
        match found {
            Some(token) => {
                &&& token_at(items_view(items@), pos as int) == Some(token@)
                &&& pos < items.len()
            },
            None => token_at(items_view(items@), pos as int) is None,
        },
{
    if pos < items.len() {
        match &items[pos] {
            Ok((_, token, _)) => Some(token),
            Err(_) => None,
        }
    } else {
        None
    }
}

/// The span of the token at place `pos`.
fn span_at(items: &Vec<Spanned<Token, usize, Error>>, pos: usize) -> (span: Span)
    requires
        token_at(items_view(items@), pos as int) is Some,
    ensures
        span_view(span) == (SpanView {
            start: start_at(items_view(items@), pos as int),
            end: end_at(items_view(items@), pos as int),
        }),
{
    match &items[pos] {
        Ok((start, _, end)) => *start..*end,
        Err(_) => 0..0,
    }
}

/// The error for the item at place `pos`, which cannot stand there.
fn unexpected_at(items: &Vec<Spanned<Token, usize, Error>>, pos: usize) -> (error: ParseError)
    ensures
        error@ == unexpected(items_view(items@), pos as int),
{
    let n = items.len();
    if pos < n {
        match &items[pos] {
            Ok((start, token, end)) => ParseError::UnrecognizedToken {
                token: (*start, copy_token(token), *end),
            },
            Err(error) => ParseError::User { error: *error },
        }
    } else if n > 0 {
        assert(items_view(items@).last() == item_view(items@[n - 1]));
        match &items[n - 1] {
            Ok((_, _, end)) => ParseError::UnrecognizedEof { location: *end },
            Err(_) => ParseError::UnrecognizedEof { location: 0 },
        }
    } else {
        ParseError::UnrecognizedEof { location: 0 }
    }
}

/// The infix operator of precedence `level` at place `pos`, if one stands
/// there.
fn infix_operator_at(items: &Vec<Spanned<Token, usize, Error>>, pos: usize, level: u8) -> (found:
    Option<OpInfix>)
    ensures
        found == infix_at(items_view(items@), pos as int, level as int),
        found is Some ==> pos < items.len(),
{
    let op = match peek(items, pos) {
        Some(Token::Add) => OpInfix::Add,
        Some(Token::Minus) => OpInfix::Sub,
        Some(Token::Star) => OpInfix::Mul,
        Some(Token::Slash) => OpInfix::Div,
        Some(Token::EqualEqual) => OpInfix::Eq,
        Some(Token::NotEqual) => OpInfix::Ne,
        Some(Token::Less) => OpInfix::Lt,
        Some(Token::LessEqual) => OpInfix::Le,
        Some(Token::Greater) => OpInfix::Gt,
        Some(Token::GreaterEqual) => OpInfix::Ge,
        Some(Token::And) => OpInfix::And,
        Some(Token::Or) => OpInfix::Or,
        _ => {
            return None;
        },
    };
    let binds: u8 = match op {
        OpInfix::Or => 1,
        OpInfix::And => 2,
        OpInfix::Eq | OpInfix::Ne => 3,
        OpInfix::Lt | OpInfix::Le | OpInfix::Gt | OpInfix::Ge => 4,
        OpInfix::Add | OpInfix::Sub => 5,
        OpInfix::Mul | OpInfix::Div => 6,
    };
    if binds == level {
        Some(op)
    } else {
        None
    }
}

/// Reads an operand from place `pos`.
fn parse_operand(items: &Vec<Spanned<Token, usize, Error>>, pos: usize) -> (result: Result<
    (Expr, Span, usize),
    ParseError,
>)
    ensures
        reads(result, operand(items_view(items@), pos as int), pos),
    decreases items_left(items_view(items@), pos as int), 0nat,
{
    let op = match peek(items, pos) {
        Some(Token::NumberLiteral(text)) => {
            return Ok(
                (Expr::Literal(ExprLiteral::Number(text.clone())), span_at(items, pos), pos + 1),
            );
        },
        Some(Token::String(text)) => {
            return Ok(
                (Expr::Literal(ExprLiteral::String(text.clone())), span_at(items, pos), pos + 1),
            );
        },
        Some(Token::LParen) => {
            let (inner, _, close) = match parse_level(items, pos + 1, 1) {
                Ok(read) => read,
                Err(error) => {
                    return Err(error);
                },
            };
            return match peek(items, close) {
                Some(Token::RParen) => {
                    let start = span_at(items, pos).start;
                    let end = span_at(items, close).end;
                    Ok((inner, start..end, close + 1))
                },
                _ => Err(unexpected_at(items, close)),
            };
        },
        Some(Token::Minus) => UnaryOp::Neg,
        Some(Token::Not) => UnaryOp::Not,
        Some(Token::Tilde) => UnaryOp::Complement,
        _ => {
            return Err(unexpected_at(items, pos));
        },
    };
    let (inner, inner_span, next) = match parse_operand(items, pos + 1) {
        Ok(read) => read,
        Err(error) => {
            return Err(error);
        },
    };
    let start = span_at(items, pos).start;
    let end = inner_span.end;
    Ok((Expr::Unary(Box::new(ExprUnary { op, expr: (inner, inner_span) })), start..end, next))
}

/// Reads, from place `pos`, the longest expression whose infix operators
/// outside parentheses all have precedence `level` or more.
fn parse_level(items: &Vec<Spanned<Token, usize, Error>>, pos: usize, level: u8) -> (result:
    Result<(Expr, Span, usize), ParseError>)
    ensures
        reads(result, expression_at(items_view(items@), pos as int, level as int), pos),
    decreases items_left(items_view(items@), pos as int), 2 * levels_left(level as int) + 2,
{
    if level > 6 {
        return parse_operand(items, pos);
    }
    let (first, first_span, after_first) = match parse_level(items, pos, level + 1) {
        Ok(read) => read,
        Err(error) => {
            return Err(error);
        },
    };
    let ghost ts = items_view(items@);
    let ghost expected = expression_at(ts, pos as int, level as int);
    let mut lhs = first;
    let mut lhs_span = first_span;
    let mut at = after_first;
    loop
        invariant
            level <= 6,
            pos <= at,
            ts == items_view(items@),
            expected == expression_at(ts, pos as int, level as int),
            expected == continued(
                ts,
                pos as int,
                level as int,
                Parsed { expr: lhs@, span: span_view(lhs_span), len: (at - pos) as nat },
            ),
        decreases items_left(ts, at as int),
    {
        let op = match infix_operator_at(items, at, level) {
            Some(op) => op,
            None => {
                return Ok((lhs, lhs_span, at));
            },
        };
        let (rhs, rhs_span, next) = match parse_level(items, at + 1, level + 1) {
            Ok(read) => read,
            Err(error) => {
                return Err(error);
            },
        };
        let start = lhs_span.start;
        let end = rhs_span.end;
        lhs = Expr::Binary(Box::new(ExprInfix { op, lhs: (lhs, lhs_span), rhs: (rhs, rhs_span) }));
        lhs_span = start..end;
        at = next;
    }
}

/// Reads a statement from place `pos`; beside it, the place after it.
fn parse_statement(items: &Vec<Spanned<Token, usize, Error>>, pos: usize) -> (result: Result<
    (Stmt, usize),
    ParseError,
>)
    ensures
        match statement(items_view(items@), pos as int) {
            Ok((stmt, len)) => {
                &&& result matches Ok((found, next))
                &&& found@ == stmt
                &&& next == pos + len
                &&& next <= items.len()
            },
            Err(error) => {
                &&& result matches Err(found)
                &&& found@ == error
            },
        },
{
    match peek(items, pos) {
        Some(Token::Return) => {},
        _ => {
            return Err(unexpected_at(items, pos));
        },
    }
    match peek(items, pos + 1) {
        Some(Token::Semicolon) => {
            return Ok((Stmt::Return(ReturnStmt { expr: None }), pos + 2));
        },
        _ => {},
    }
    let (value, _, end) = match parse_level(items, pos + 1, 1) {
        Ok(read) => read,
        Err(error) => {
            return Err(error);
        },
    };
    match peek(items, end) {
        Some(Token::Semicolon) => Ok((Stmt::Return(ReturnStmt { expr: Some(value) }), end + 1)),
        _ => Err(unexpected_at(items, end)),
    }
}

/// Reads the head of a function definition, up to the brace that opens its
/// body, and gives the name of the function.
fn parse_function_head(items: &Vec<Spanned<Token, usize, Error>>) -> (result: Result<
    String,
    ParseError,
>)
    ensures
        match function_head(items_view(items@)) {
            Ok(name) => {
                &&& result matches Ok(found)
                &&& found@ == name
                &&& items.len() >= 7
            },
            Err(error) => {
                &&& result matches Err(found)
                &&& found@ == error
            },
        },
{
    match peek(items, 0) {
        Some(Token::Fn) => {},
        _ => {
            return Err(unexpected_at(items, 0));
        },
    }
    let name = match peek(items, 1) {
        Some(Token::Identifier(name)) => name.clone(),
        _ => {
            return Err(unexpected_at(items, 1));
        },
    };
    match peek(items, 2) {
        Some(Token::LParen) => {},
        _ => {
            return Err(unexpected_at(items, 2));
        },
    }
    match peek(items, 3) {
        Some(Token::RParen) => {},
        _ => {
            return Err(unexpected_at(items, 3));
        },
    }
    match peek(items, 4) {
        Some(Token::RightArrow) => {},
        _ => {
            return Err(unexpected_at(items, 4));
        },
    }
    match peek(items, 5) {
        Some(Token::NumberType) => {},
        _ => {
            return Err(unexpected_at(items, 5));
        },
    }
    match peek(items, 6) {
        Some(Token::LBrace) => {},
        _ => {
            return Err(unexpected_at(items, 6));
        },
    }
    Ok(name)
}

/// Reads the items as a program: the one function that they are, or the error
/// at the first of them that cannot stand where it does.
pub fn parse_items(items: &Vec<Spanned<Token, usize, Error>>) -> (result: Result<
    Program,
    ParseError,
>)
    ensures
        parses(result, program(items_view(items@))),
{
    let name = match parse_function_head(items) {
        Ok(name) => name,
        Err(error) => {
            return Err(error);
        },
    };
    let (body, close) = match parse_statement(items, 7) {
        Ok(read) => read,
        Err(error) => {
            return Err(error);
        },
    };
    match peek(items, close) {
        Some(Token::RBrace) => {},
        _ => {
            return Err(unexpected_at(items, close));
        },
    }
    if close + 1 < items.len() {
        return Err(unexpected_at(items, close + 1));
    }
    Ok(Program { func: FnDef { name, body } })
}

/// Reads all that `lexer` has left as a program: the one function that the
/// items are, or the error at the first of them that cannot stand where it
/// does.
pub fn parse(lexer: Lexer) -> (result: Result<Program, ParseError>)
    ensures
        parses(result, program(lexer.remaining())),
{
    let items = lexer.collect();
    parse_items(&items)
}

} // verus!
