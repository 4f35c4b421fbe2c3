use rustv::front_end::ast::{
    Expr, ExprInfix, ExprLiteral, ExprUnary, FnDef, OpInfix, Program, ReturnStmt, Stmt, UnaryOp,
};
use rustv::tacky::{InfixOperator, Instruction, TackyVal, UnaryOperator};
use rustv::tacky_gen::{LoweringError, TackyGen};

fn num(text: &str) -> Expr {
    Expr::Literal(ExprLiteral::Number(text.to_string()))
}

fn unary(op: UnaryOp, operand: Expr) -> Expr {
    Expr::Unary(Box::new(ExprUnary { op, expr: (operand, 0..0) }))
}

fn binary(op: OpInfix, lhs: Expr, rhs: Expr) -> Expr {
    Expr::Binary(Box::new(ExprInfix { op, lhs: (lhs, 0..0), rhs: (rhs, 0..0) }))
}

fn add(lhs: Expr, rhs: Expr) -> Expr {
    binary(OpInfix::Add, lhs, rhs)
}

fn returning(expr: Option<Expr>) -> Program {
    Program {
        func: FnDef { name: "f".to_string(), body: Stmt::Return(ReturnStmt { expr }) },
    }
}

fn tmp(n: i32) -> TackyVal {
    TackyVal::Var(format!("tmp.{}", n))
}

fn constant(n: i32) -> TackyVal {
    TackyVal::Constant(n)
}

#[test]
fn a_new_pass_is_empty() {
    let pass = TackyGen::new();
    assert_eq!(pass.counter, 0);
    assert!(pass.instructions.is_empty());
}

#[test]
fn a_literal_emits_nothing() {
    let mut pass = TackyGen::new();
    assert_eq!(pass.emit_expr(Expr::Number("5".to_string())), Ok(constant(5)));
    assert_eq!(pass.emit_expr(num("5")), Ok(constant(5)));
    assert_eq!(pass.emit_expr(num("0042")), Ok(constant(42)));
    assert_eq!(pass.counter, 0);
    assert!(pass.instructions.is_empty());
}

#[test]
fn a_literal_leaves_a_used_pass_alone() {
    let mut pass = TackyGen::new();
    pass.emit_expr(unary(UnaryOp::Not, num("1"))).unwrap();
    let before = pass.instructions.clone();
    assert_eq!(pass.emit_expr(Expr::Number("5".to_string())), Ok(constant(5)));
    assert_eq!(pass.counter, 1);
    assert_eq!(pass.instructions, before);
}

#[test]
fn unary_operators_map_one_to_one() {
    for (op, lowered) in [
        (UnaryOp::Neg, UnaryOperator::Negate),
        (UnaryOp::Complement, UnaryOperator::Complement),
        (UnaryOp::Not, UnaryOperator::Not),
    ] {
        let mut pass = TackyGen::new();
        assert_eq!(pass.emit_expr(unary(op, num("5"))), Ok(tmp(0)));
        assert_eq!(
            pass.instructions,
            vec![Instruction::Unary { op: lowered, src: constant(5), dst: tmp(0) }]
        );
        assert_eq!(pass.counter, 1);
    }
}

#[test]
fn addition_of_two_literals() {
    let mut pass = TackyGen::new();
    assert_eq!(pass.emit_expr(add(num("5"), num("3"))), Ok(tmp(0)));
    assert_eq!(
        pass.instructions,
        vec![Instruction::Binary {
            op: InfixOperator::Add,
            left: constant(5),
            right: constant(3),
            dst: tmp(0),
        }]
    );
    assert_eq!(pass.counter, 1);
}

#[test]
fn left_operand_is_lowered_before_right() {
    // (-1 + ~2) + (!3 + 4)
    let tree = add(
        add(unary(UnaryOp::Neg, num("1")), unary(UnaryOp::Complement, num("2"))),
        add(unary(UnaryOp::Not, num("3")), num("4")),
    );
    let mut pass = TackyGen::new();
    assert_eq!(pass.emit_expr(tree), Ok(tmp(5)));
    assert_eq!(
        pass.instructions,
        vec![
            Instruction::Unary { op: UnaryOperator::Negate, src: constant(1), dst: tmp(0) },
            Instruction::Unary { op: UnaryOperator::Complement, src: constant(2), dst: tmp(1) },
            Instruction::Binary {
                op: InfixOperator::Add,
                left: tmp(0),
                right: tmp(1),
                dst: tmp(2),
            },
            Instruction::Unary { op: UnaryOperator::Not, src: constant(3), dst: tmp(3) },
            Instruction::Binary {
                op: InfixOperator::Add,
                left: tmp(3),
                right: constant(4),
                dst: tmp(4),
            },
            Instruction::Binary {
                op: InfixOperator::Add,
                left: tmp(2),
                right: tmp(4),
                dst: tmp(5),
            },
        ]
    );
    assert_eq!(pass.counter, 6);
}

#[test]
fn each_operator_node_gets_the_next_temporary() {
    // A chain of k prefix operators allocates tmp.0 to tmp.(k - 1).
    let k = 12;
    let mut tree = num("1");
    for _ in 0..k {
        tree = unary(UnaryOp::Neg, tree);
    }
    let mut pass = TackyGen::new();
    assert_eq!(pass.emit_expr(tree), Ok(tmp(k - 1)));
    assert_eq!(pass.counter, k);
    assert_eq!(pass.instructions.len(), k as usize);
    for (i, instruction) in pass.instructions.iter().enumerate() {
        let src = if i == 0 { constant(1) } else { tmp(i as i32 - 1) };
        assert_eq!(
            *instruction,
            Instruction::Unary { op: UnaryOperator::Negate, src, dst: tmp(i as i32) }
        );
    }
}

#[test]
fn the_counter_goes_on_from_where_it_stands() {
    let mut pass = TackyGen::new();
    pass.counter = 41;
    assert_eq!(pass.emit_expr(unary(UnaryOp::Neg, num("1"))), Ok(tmp(41)));
    assert_eq!(pass.counter, 42);
    pass.counter = -3;
    assert_eq!(pass.emit_expr(unary(UnaryOp::Neg, num("1"))), Ok(TackyVal::Var("tmp.-3".to_string())));
    assert_eq!(pass.counter, -2);
}

#[test]
fn other_infix_operators_are_not_implemented() {
    for op in [
        OpInfix::Sub,
        OpInfix::Mul,
        OpInfix::Div,
        OpInfix::Eq,
        OpInfix::Ne,
        OpInfix::Lt,
        OpInfix::Le,
        OpInfix::Gt,
        OpInfix::Ge,
        OpInfix::And,
        OpInfix::Or,
    ] {
        let mut pass = TackyGen::new();
        assert_eq!(
            pass.emit_expr(binary(op, num("1"), num("2"))),
            Err(LoweringError::NotImplemented(op))
        );
        assert_eq!(pass.counter, 0);
        assert!(pass.instructions.is_empty());
    }
}

#[test]
fn a_failure_deep_in_the_tree_leaves_the_pass_as_it_was() {
    let mut pass = TackyGen::new();
    pass.emit_expr(unary(UnaryOp::Neg, num("7"))).unwrap();
    let before = pass.instructions.clone();
    // The left operand is lowered before the failure in the right one is met.
    let tree = add(
        unary(UnaryOp::Not, num("1")),
        add(unary(UnaryOp::Neg, num("2")), binary(OpInfix::Mul, num("3"), num("4"))),
    );
    assert_eq!(pass.emit_expr(tree), Err(LoweringError::NotImplemented(OpInfix::Mul)));
    assert_eq!(pass.counter, 1);
    assert_eq!(pass.instructions, before);
}

#[test]
fn the_first_obstacle_of_the_walk_is_reported() {
    let mut pass = TackyGen::new();
    // The operands fail before the operator is looked at, left before right.
    let tree = binary(
        OpInfix::Sub,
        num("x"),
        Expr::Literal(ExprLiteral::String("s".to_string())),
    );
    assert_eq!(pass.emit_expr(tree), Err(LoweringError::InvalidNumber));
    let tree = binary(
        OpInfix::Sub,
        Expr::Literal(ExprLiteral::String("s".to_string())),
        num("x"),
    );
    assert_eq!(pass.emit_expr(tree), Err(LoweringError::StringLiteral));
    let tree = binary(OpInfix::Sub, num("1"), binary(OpInfix::Div, num("1"), num("2")));
    assert_eq!(pass.emit_expr(tree), Err(LoweringError::NotImplemented(OpInfix::Div)));
}

#[test]
fn a_string_literal_is_not_lowered() {
    let mut pass = TackyGen::new();
    assert_eq!(
        pass.emit_expr(Expr::Literal(ExprLiteral::String("12".to_string()))),
        Err(LoweringError::StringLiteral)
    );
}

#[test]
fn a_number_that_is_no_integer_of_32_bits_is_not_lowered() {
    let mut pass = TackyGen::new();
    assert_eq!(pass.emit_expr(num("2147483648")), Err(LoweringError::InvalidNumber));
    assert_eq!(pass.emit_expr(num("")), Err(LoweringError::InvalidNumber));
    assert_eq!(pass.emit_expr(num("12a")), Err(LoweringError::InvalidNumber));
    assert_eq!(pass.emit_expr(Expr::Number("1.5".to_string())), Err(LoweringError::InvalidNumber));
    assert_eq!(pass.emit_expr(num("2147483647")), Ok(constant(i32::MAX)));
    assert_eq!(pass.emit_expr(Expr::Number("-5".to_string())), Ok(constant(-5)));
}

#[test]
fn a_pass_that_has_run_out_of_temporaries_fails() {
    let mut pass = TackyGen::new();
    pass.counter = i32::MAX;
    assert_eq!(
        pass.emit_expr(unary(UnaryOp::Neg, num("1"))),
        Err(LoweringError::TemporariesExhausted)
    );
    assert_eq!(pass.counter, i32::MAX);
    assert!(pass.instructions.is_empty());
    // The temporary is asked for before the operator is looked at.
    assert_eq!(
        pass.emit_expr(binary(OpInfix::Sub, num("1"), num("2"))),
        Err(LoweringError::TemporariesExhausted)
    );
    pass.counter = i32::MAX - 1;
    assert_eq!(
        pass.emit_expr(add(unary(UnaryOp::Neg, num("1")), num("2"))),
        Err(LoweringError::TemporariesExhausted)
    );
    assert_eq!(pass.counter, i32::MAX - 1);
    assert!(pass.instructions.is_empty());
    assert_eq!(pass.emit_expr(unary(UnaryOp::Neg, num("1"))), Ok(tmp(i32::MAX - 1)));
    assert_eq!(pass.counter, i32::MAX);
}

#[test]
fn return_of_a_literal() {
    let mut pass = TackyGen::new();
    let tacky = pass.emit_tacky(returning(Some(num("5")))).unwrap();
    assert_eq!(tacky.function.name, "f");
    assert_eq!(tacky.function.body, vec![Instruction::Return(constant(5))]);
    assert_eq!(pass.instructions, tacky.function.body);
    assert_eq!(pass.counter, 0);
}

#[test]
fn return_of_an_expression_counts_its_operators_and_one_return() {
    let mut pass = TackyGen::new();
    let tree = add(unary(UnaryOp::Neg, num("5")), unary(UnaryOp::Not, num("3")));
    let tacky = pass.emit_tacky(returning(Some(tree))).unwrap();
    assert_eq!(pass.counter, 3);
    assert_eq!(tacky.function.body.len(), 4);
    assert_eq!(tacky.function.body[3], Instruction::Return(tmp(2)));
}

#[test]
fn bare_return_emits_nothing() {
    let mut pass = TackyGen::new();
    let tacky = pass.emit_tacky(returning(None)).unwrap();
    assert_eq!(tacky.function.name, "f");
    assert!(tacky.function.body.is_empty());
    assert!(pass.instructions.is_empty());
    assert_eq!(pass.counter, 0);
}

#[test]
fn a_program_that_cannot_be_lowered_leaves_the_pass_as_it_was() {
    let mut pass = TackyGen::new();
    pass.emit_tacky(returning(Some(unary(UnaryOp::Neg, num("1"))))).unwrap();
    let before = pass.instructions.clone();
    let tree = add(unary(UnaryOp::Neg, num("1")), binary(OpInfix::Lt, num("1"), num("2")));
    assert_eq!(
        pass.emit_tacky(returning(Some(tree))),
        Err(LoweringError::NotImplemented(OpInfix::Lt))
    );
    assert_eq!(pass.instructions, before);
    assert_eq!(pass.counter, 1);
}

#[test]
fn the_body_of_the_function_is_the_whole_log() {
    let mut pass = TackyGen::new();
    pass.emit_tacky(returning(Some(num("1")))).unwrap();
    let second = pass.emit_tacky(returning(Some(unary(UnaryOp::Neg, num("2"))))).unwrap();
    assert_eq!(
        second.function.body,
        vec![
            Instruction::Return(constant(1)),
            Instruction::Unary { op: UnaryOperator::Negate, src: constant(2), dst: tmp(0) },
            Instruction::Return(tmp(0)),
        ]
    );
}
