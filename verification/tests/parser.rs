use rustv::front_end::ast::{
    Expr, ExprInfix, ExprLiteral, ExprUnary, FnDef, OpInfix, Program, ReturnStmt, Stmt, UnaryOp,
};
use rustv::front_end::lang::{parse_items, ParseError};
use rustv::front_end::lang;
use rustv::front_end::lexer::{tokenize, Error, Lexer, Token};

fn parse(source: &str) -> Result<Program, ParseError> {
    lang::parse(Lexer::new(source))
}

/// The program whose function `f` returns the expression `text`.
fn parse_return(text: &str) -> Result<Program, ParseError> {
    parse(&format!("function f() -> тоо {{ буц {}; }}", text))
}

fn returned(program: Program) -> Option<Expr> {
    match program.func.body {
        Stmt::Return(ret) => ret.expr,
    }
}

fn sign(op: &OpInfix) -> &'static str {
    match op {
        OpInfix::Add => "+",
        OpInfix::Sub => "-",
        OpInfix::Mul => "*",
        OpInfix::Div => "/",
        OpInfix::Eq => "==",
        OpInfix::Ne => "!=",
        OpInfix::Lt => "<",
        OpInfix::Le => "<=",
        OpInfix::Gt => ">",
        OpInfix::Ge => ">=",
        OpInfix::And => "&&",
        OpInfix::Or => "||",
    }
}

/// The tree with every operator in parentheses.
fn shape(expr: &Expr) -> String {
    match expr {
        Expr::Binary(infix) => {
            format!("({} {} {})", shape(&infix.lhs.0), sign(&infix.op), shape(&infix.rhs.0))
        }
        Expr::Unary(unary) => {
            let op = match unary.op {
                UnaryOp::Neg => "-",
                UnaryOp::Complement => "~",
                UnaryOp::Not => "!",
            };
            format!("({}{})", op, shape(&unary.expr.0))
        }
        Expr::Literal(ExprLiteral::Number(text)) => text.clone(),
        Expr::Literal(ExprLiteral::String(text)) => format!("{:?}", text),
        Expr::Number(text) => format!("bare {}", text),
    }
}

fn shape_of(text: &str) -> String {
    shape(&returned(parse_return(text).unwrap()).unwrap())
}

fn num(text: &str) -> Expr {
    Expr::Literal(ExprLiteral::Number(text.to_string()))
}

#[test]
fn return_of_a_literal_is_parsed() {
    assert_eq!(
        parse("function f() -> тоо { буц 5; }"),
        Ok(Program {
            func: FnDef {
                name: "f".to_string(),
                body: Stmt::Return(ReturnStmt { expr: Some(num("5")) }),
            },
        })
    );
}

#[test]
fn both_spellings_of_the_function_keyword_are_parsed() {
    assert_eq!(parse("фн гол() -> тоо { буц 5; }"), parse("function гол() -> тоо { буц 5; }"));
    assert_eq!(parse("фн гол() -> тоо { буц 5; }").unwrap().func.name, "гол");
}

#[test]
fn bare_return_is_parsed() {
    assert_eq!(
        parse("function main() -> тоо { буц; }"),
        Ok(Program {
            func: FnDef {
                name: "main".to_string(),
                body: Stmt::Return(ReturnStmt { expr: None }),
            },
        })
    );
}

#[test]
fn string_literal_is_parsed() {
    assert_eq!(
        returned(parse_return("\"үг\"").unwrap()),
        Some(Expr::Literal(ExprLiteral::String("үг".to_string())))
    );
}

#[test]
fn operands_carry_their_spans() {
    // `function f() -> тоо { буц ` takes 32 bytes.
    let program = parse("function f() -> тоо { буц -5 + (12 * 3); }").unwrap();
    let expected = Expr::Binary(Box::new(ExprInfix {
        op: OpInfix::Add,
        lhs: (
            Expr::Unary(Box::new(ExprUnary { op: UnaryOp::Neg, expr: (num("5"), 33..34) })),
            32..34,
        ),
        rhs: (
            Expr::Binary(Box::new(ExprInfix {
                op: OpInfix::Mul,
                lhs: (num("12"), 38..40),
                rhs: (num("3"), 43..44),
            })),
            37..45,
        ),
    }));
    assert_eq!(returned(program), Some(expected));
}

#[test]
fn span_of_an_operand_in_parentheses_holds_the_parentheses() {
    let program = parse("function f() -> тоо { буц !((1)); }").unwrap();
    let expected =
        Expr::Unary(Box::new(ExprUnary { op: UnaryOp::Not, expr: (num("1"), 33..38) }));
    assert_eq!(returned(program), Some(expected));
}

#[test]
fn infix_operators_associate_to_the_left() {
    assert_eq!(shape_of("1 - 2 - 3"), "((1 - 2) - 3)");
    assert_eq!(shape_of("1 + 2 - 3 + 4"), "(((1 + 2) - 3) + 4)");
    assert_eq!(shape_of("8 / 4 / 2 * 3"), "(((8 / 4) / 2) * 3)");
    assert_eq!(shape_of("1 == 2 != 3"), "((1 == 2) != 3)");
    assert_eq!(shape_of("1 < 2 <= 3 > 4 >= 5"), "((((1 < 2) <= 3) > 4) >= 5)");
    assert_eq!(shape_of("1 && 2 && 3"), "((1 && 2) && 3)");
    assert_eq!(shape_of("1 || 2 || 3"), "((1 || 2) || 3)");
}

#[test]
fn tighter_operators_bind_first() {
    assert_eq!(shape_of("1 + 2 * 3"), "(1 + (2 * 3))");
    assert_eq!(shape_of("1 * 2 + 3"), "((1 * 2) + 3)");
    assert_eq!(shape_of("1 - 2 / 3 - 4"), "((1 - (2 / 3)) - 4)");
    assert_eq!(shape_of("1 < 2 + 3"), "(1 < (2 + 3))");
    assert_eq!(shape_of("1 == 2 < 3"), "(1 == (2 < 3))");
    assert_eq!(shape_of("1 && 2 == 3"), "(1 && (2 == 3))");
    assert_eq!(shape_of("1 || 2 && 3"), "(1 || (2 && 3))");
    assert_eq!(shape_of("1 && 2 || 3"), "((1 && 2) || 3)");
    assert_eq!(
        shape_of("1 || 2 && 3 == 4 < 5 + 6 * 7"),
        "(1 || (2 && (3 == (4 < (5 + (6 * 7))))))"
    );
    assert_eq!(
        shape_of("1 * 2 + 3 < 4 == 5 && 6 || 7"),
        "((((((1 * 2) + 3) < 4) == 5) && 6) || 7)"
    );
}

#[test]
fn prefix_operators_bind_tightest() {
    assert_eq!(shape_of("-5"), "(-5)");
    assert_eq!(shape_of("-1 + 2"), "((-1) + 2)");
    assert_eq!(shape_of("-1 * 2"), "((-1) * 2)");
    assert_eq!(shape_of("1 - -2"), "(1 - (-2))");
    assert_eq!(shape_of("!~-1"), "(!(~(-1)))");
    assert_eq!(shape_of("1 * !2 * 3"), "((1 * (!2)) * 3)");
    assert_eq!(shape_of("-(1 + 2)"), "(-(1 + 2))");
}

#[test]
fn parentheses_override_precedence() {
    assert_eq!(shape_of("(1 + 2) * 3"), "((1 + 2) * 3)");
    assert_eq!(shape_of("1 - (2 - 3)"), "(1 - (2 - 3))");
    assert_eq!(shape_of("((1))"), "1");
    assert_eq!(shape_of("(1 || 2) && 3"), "((1 || 2) && 3)");
    assert_eq!(shape_of("1 * (2 + (3 - 4))"), "(1 * (2 + (3 - 4)))");
}

#[test]
fn the_parser_builds_no_bare_number() {
    assert_eq!(returned(parse_return("7").unwrap()), Some(num("7")));
}

#[test]
fn missing_semicolon_is_an_error_at_the_token_in_its_place() {
    assert_eq!(
        parse("function f() -> тоо { буц 5 }"),
        Err(ParseError::UnrecognizedToken { token: (34, Token::RBrace, 35) })
    );
}

#[test]
fn missing_closing_brace_is_an_error_at_the_end() {
    assert_eq!(
        parse("function f() -> тоо { буц 5;"),
        Err(ParseError::UnrecognizedEof { location: 34 })
    );
}

#[test]
fn empty_input_is_an_error_at_offset_zero() {
    assert_eq!(parse(""), Err(ParseError::UnrecognizedEof { location: 0 }));
    assert_eq!(parse("  # nothing\n"), Err(ParseError::UnrecognizedEof { location: 0 }));
}

#[test]
fn each_token_of_the_head_is_required() {
    let head_err = |source: &str, start: usize, token: Token, end: usize| {
        assert_eq!(parse(source), Err(ParseError::UnrecognizedToken { token: (start, token, end) }));
    };
    head_err("f() -> тоо { буц 5; }", 0, Token::Identifier("f".to_string()), 1);
    head_err("function () -> тоо { буц 5; }", 9, Token::LParen, 10);
    head_err("function f) -> тоо { буц 5; }", 10, Token::RParen, 11);
    head_err("function f( -> тоо { буц 5; }", 12, Token::RightArrow, 14);
    head_err("function f() тоо { буц 5; }", 13, Token::NumberType, 19);
    head_err("function f() -> { буц 5; }", 16, Token::LBrace, 17);
    head_err("function f() -> тоо буц 5; }", 23, Token::Return, 29);
    head_err("function f() -> тоо { 5; }", 25, Token::NumberLiteral("5".to_string()), 26);
    head_err("function тоо() -> тоо { буц 5; }", 9, Token::NumberType, 15);
}

#[test]
fn tokens_after_the_program_are_an_error() {
    assert_eq!(
        parse("function f() -> тоо { буц 5; } ;"),
        Err(ParseError::UnrecognizedToken { token: (37, Token::Semicolon, 38) })
    );
    assert_eq!(
        parse("function f() -> тоо { буц 5; } function g() -> тоо { буц 6; }"),
        Err(ParseError::UnrecognizedToken { token: (37, Token::Fn, 45) })
    );
}

#[test]
fn broken_expressions_are_errors_at_the_first_token_that_cannot_stand() {
    assert_eq!(
        parse_return("1 +"),
        Err(ParseError::UnrecognizedToken { token: (35, Token::Semicolon, 36) })
    );
    assert_eq!(
        parse_return("(1 + 2"),
        Err(ParseError::UnrecognizedToken { token: (38, Token::Semicolon, 39) })
    );
    assert_eq!(
        parse_return("1 2"),
        Err(ParseError::UnrecognizedToken {
            token: (34, Token::NumberLiteral("2".to_string()), 35)
        })
    );
    assert_eq!(
        parse_return("* 2"),
        Err(ParseError::UnrecognizedToken { token: (32, Token::Star, 33) })
    );
    assert_eq!(
        parse_return("()"),
        Err(ParseError::UnrecognizedToken { token: (33, Token::RParen, 34) })
    );
    assert_eq!(
        parse_return("1 + үнэн"),
        Err(ParseError::UnrecognizedToken { token: (36, Token::True, 44) })
    );
    assert_eq!(
        parse_return("x"),
        Err(ParseError::UnrecognizedToken {
            token: (32, Token::Identifier("x".to_string()), 33)
        })
    );
    assert_eq!(
        parse_return("1 )"),
        Err(ParseError::UnrecognizedToken { token: (34, Token::RParen, 35) })
    );
}

#[test]
fn only_the_first_error_is_reported() {
    assert_eq!(
        parse("function f( -> { буц 5 }"),
        Err(ParseError::UnrecognizedToken { token: (12, Token::RightArrow, 14) })
    );
}

#[test]
fn the_lexers_error_is_handed_on_when_the_parser_comes_upon_it() {
    assert_eq!(
        parse("function f() -> тоо { буц 5 @ 3; }"),
        Err(ParseError::User { error: Error::LexicalError { offset: 34 } })
    );
    // A parse error before the place of the lexical error comes first.
    assert_eq!(
        parse("function f() -> тоо { 5 @ 3; }"),
        Err(ParseError::UnrecognizedToken {
            token: (25, Token::NumberLiteral("5".to_string()), 26)
        })
    );
    // The end of the items after an error has offset zero.
    assert_eq!(
        parse_items(&vec![Err(Error::LexicalError { offset: 3 })]),
        Err(ParseError::User { error: Error::LexicalError { offset: 3 } })
    );
}

#[test]
fn parsing_items_is_parsing_what_the_lexer_gives() {
    let source = "function f() -> тоо { буц 1 + 2; }";
    assert_eq!(parse_items(&tokenize(source)), parse(source));
    assert_eq!(
        parse_items(&vec![Ok((0, Token::Fn, 8))]),
        Err(ParseError::UnrecognizedEof { location: 8 })
    );
}

#[test]
fn a_lexer_that_was_read_from_gives_the_parser_only_the_rest() {
    let mut lexer = Lexer::new("; function f() -> тоо { буц 5; }");
    assert_eq!(lexer.next(), Some(Ok((0, Token::Semicolon, 1))));
    assert_eq!(lang::parse(lexer).unwrap().func.name, "f");
}

#[test]
fn deep_nesting_is_parsed() {
    let mut text = String::new();
    for _ in 0..200 {
        text.push('(');
    }
    text.push('1');
    for _ in 0..200 {
        text.push(')');
    }
    assert_eq!(shape_of(&text), "1");
    let sum = vec!["1"; 500].join(" + ");
    let tree = returned(parse_return(&sum).unwrap()).unwrap();
    let mut depth = 0;
    let mut at = &tree;
    while let Expr::Binary(infix) = at {
        depth += 1;
        at = &infix.lhs.0;
    }
    assert_eq!(depth, 499);
}
