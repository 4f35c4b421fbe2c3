use rustv::front_end::lang::ParseError;
use rustv::front_end::lexer::{Error, Token};
use rustv::front_end::ast::OpInfix;
use rustv::pipeline::{select_stage, source_to_tacky, CompileError, Stage};
use rustv::tacky::{InfixOperator, Instruction, TackyVal, UnaryOperator};
use rustv::tacky_gen::LoweringError;

fn tmp(n: i32) -> TackyVal {
    TackyVal::Var(format!("tmp.{}", n))
}

fn body(source: &str) -> Vec<Instruction> {
    source_to_tacky(source).unwrap().function.body
}

#[test]
fn return_of_a_literal_lowers_to_one_return() {
    let tacky = source_to_tacky("function f() -> тоо { буц 5; }").unwrap();
    assert_eq!(tacky.function.name, "f");
    assert_eq!(tacky.function.body, vec![Instruction::Return(TackyVal::Constant(5))]);
}

#[test]
fn return_of_a_negated_literal_lowers_to_a_negation_and_a_return() {
    assert_eq!(
        body("function f() -> тоо { буц -5; }"),
        vec![
            Instruction::Unary {
                op: UnaryOperator::Negate,
                src: TackyVal::Constant(5),
                dst: TackyVal::Var("tmp.0".to_string()),
            },
            Instruction::Return(TackyVal::Var("tmp.0".to_string())),
        ]
    );
}

#[test]
fn addition_of_two_literals_lowers_to_one_binary_instruction() {
    assert_eq!(
        body("function f() -> тоо { буц 5 + 3; }"),
        vec![
            Instruction::Binary {
                op: InfixOperator::Add,
                left: TackyVal::Constant(5),
                right: TackyVal::Constant(3),
                dst: TackyVal::Var("tmp.0".to_string()),
            },
            Instruction::Return(TackyVal::Var("tmp.0".to_string())),
        ]
    );
}

#[test]
fn a_longer_expression_is_lowered_in_the_order_of_evaluation() {
    assert_eq!(
        body("фн гол() -> тоо { буц ~1 + (!2 + -3); } # төгсөв"),
        vec![
            Instruction::Unary {
                op: UnaryOperator::Complement,
                src: TackyVal::Constant(1),
                dst: tmp(0),
            },
            Instruction::Unary { op: UnaryOperator::Not, src: TackyVal::Constant(2), dst: tmp(1) },
            Instruction::Unary {
                op: UnaryOperator::Negate,
                src: TackyVal::Constant(3),
                dst: tmp(2),
            },
            Instruction::Binary {
                op: InfixOperator::Add,
                left: tmp(1),
                right: tmp(2),
                dst: tmp(3),
            },
            Instruction::Binary {
                op: InfixOperator::Add,
                left: tmp(0),
                right: tmp(3),
                dst: tmp(4),
            },
            Instruction::Return(tmp(4)),
        ]
    );
}

#[test]
fn bare_return_lowers_to_nothing() {
    assert_eq!(body("function f() -> тоо { буц; }"), vec![]);
}

#[test]
fn every_other_infix_operator_stops_the_lowering() {
    for (text, op) in [
        ("-", OpInfix::Sub),
        ("*", OpInfix::Mul),
        ("/", OpInfix::Div),
        ("==", OpInfix::Eq),
        ("!=", OpInfix::Ne),
        ("<", OpInfix::Lt),
        ("<=", OpInfix::Le),
        (">", OpInfix::Gt),
        (">=", OpInfix::Ge),
        ("&&", OpInfix::And),
        ("||", OpInfix::Or),
    ] {
        let source = format!("function f() -> тоо {{ буц 1 {} 2; }}", text);
        assert_eq!(
            source_to_tacky(&source),
            Err(CompileError::Lowering(LoweringError::NotImplemented(op)))
        );
    }
}

#[test]
fn errors_of_each_stage_are_handed_on() {
    assert_eq!(
        source_to_tacky("function f() -> тоо { буц 5 $ }"),
        Err(CompileError::Parse(ParseError::User { error: Error::LexicalError { offset: 34 } }))
    );
    assert_eq!(
        source_to_tacky("function f() -> тоо { буц 5 }"),
        Err(CompileError::Parse(ParseError::UnrecognizedToken {
            token: (34, Token::RBrace, 35)
        }))
    );
    assert_eq!(
        source_to_tacky("function f() -> тоо { буц"),
        Err(CompileError::Parse(ParseError::UnrecognizedEof { location: 31 }))
    );
    assert_eq!(
        source_to_tacky("function f() -> тоо { буц \"үг\"; }"),
        Err(CompileError::Lowering(LoweringError::StringLiteral))
    );
    assert_eq!(
        source_to_tacky("function f() -> тоо { буц 99999999999; }"),
        Err(CompileError::Lowering(LoweringError::InvalidNumber))
    );
}

#[test]
fn the_earliest_stage_asked_for_is_selected() {
    assert_eq!(select_stage(false, false, false, false, false), None);
    assert_eq!(select_stage(true, false, false, false, false), Some(Stage::Lex));
    assert_eq!(select_stage(false, true, false, false, false), Some(Stage::Parse));
    assert_eq!(select_stage(false, false, true, false, false), Some(Stage::Tacky));
    assert_eq!(select_stage(false, false, false, true, false), Some(Stage::Gen));
    assert_eq!(select_stage(false, false, false, false, true), Some(Stage::Compile));
    assert_eq!(select_stage(true, true, true, true, true), Some(Stage::Lex));
    assert_eq!(select_stage(false, true, false, true, true), Some(Stage::Parse));
    assert_eq!(select_stage(false, false, true, false, true), Some(Stage::Tacky));
    assert_eq!(select_stage(false, false, false, true, true), Some(Stage::Gen));
}
