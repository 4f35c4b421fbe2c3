//! Lowering: from the syntax tree to three-address code.
//!
//! The tree is walked once, operands before the operator that uses them and a
//! left operand before a right one. Every operator node gets a temporary of its
//! own, named after a counter that only ever goes up.

use crate::decimal::{int_text, lemma_int_text_injective, parse_i32, push_int_text, text_i32};
use crate::front_end::ast::{
    Expr, ExprLiteral, ExprView, LiteralView, OpInfix, Program, Stmt, StmtView, UnaryOp,
};
use crate::tacky::{
    destination, instructions_view, FunctionDefinition, InfixOperator, Instruction, InstructionView,
    TackyProgram, TackyVal, UnaryOperator, ValueView,
};
use crate::text::string_from_chars;
use vstd::prelude::*;

verus! {

/// Why a tree could not be lowered.
#[derive(Debug, Clone, Copy, PartialEq, Eq)]
pub enum LoweringError {
    /// The tree holds an infix operator that lowering has no rule for yet.
    NotImplemented(OpInfix),
    /// The tree holds a string literal, for which the intermediate
    /// representation has no value.
    StringLiteral,
    /// The text of a number literal is not a decimal integer of 32 bits.
    InvalidNumber,
    /// The counter has reached the largest 32-bit integer, so no further
    /// temporary can be named.
    TemporariesExhausted,
}

/// The lowering pass: the counter that names the next temporary, and the log of
/// every instruction emitted so far.
pub struct TackyGen {
    pub counter: i32,
    pub instructions: Vec<Instruction>,
}

/// The name of the temporary with number `n`: `tmp.` and then `n` in decimal.
pub open spec fn temp_name(n: int) -> Seq<char> {
    seq!['t', 'm', 'p', '.'] + int_text(n)
}

/// How many temporaries lowering `e` allocates: one for each operator node.
pub open spec fn temp_count(e: ExprView) -> nat
    decreases e,
{
    match e {
        ExprView::Binary { lhs, rhs, .. } => temp_count(*lhs) + temp_count(*rhs) + 1,
        ExprView::Unary { expr, .. } => temp_count(*expr) + 1,
        ExprView::Literal(_) => 0,
        ExprView::Number(_) => 0,
    }
}

/// The instruction-level operator for a prefix operator of the tree.
pub open spec fn unary_operator(op: UnaryOp) -> UnaryOperator {
    match op {
        UnaryOp::Neg => UnaryOperator::Negate,
        UnaryOp::Complement => UnaryOperator::Complement,
        UnaryOp::Not => UnaryOperator::Not,
    }
}

/// The instruction-level operator for an infix operator of the tree, for those
/// that lowering has a rule for: so far, addition alone.
pub open spec fn infix_operator(op: OpInfix) -> Option<InfixOperator> {
    match op {
        OpInfix::Add => Some(InfixOperator::Add),
        _ => None,
    }
}

/// What stops the lowering of `e` when the counter stands at `counter`: the
/// first obstacle that the walk meets, or `None` where it meets none.
///
/// An operator's operands are walked before its temporary is named, and the
/// temporary is named before the operator itself is looked at.
pub open spec fn lowering_failure(e: ExprView, counter: int) -> Option<LoweringError>
    decreases e,
{
    match e {
        ExprView::Number(text) => number_failure(text),
        ExprView::Literal(LiteralView::Number(text)) => number_failure(text),
        ExprView::Literal(LiteralView::String(_)) => Some(LoweringError::StringLiteral),
        ExprView::Unary { expr, .. } => {
            if lowering_failure(*expr, counter) is Some {
                lowering_failure(*expr, counter)
            } else if counter + temp_count(*expr) >= i32::MAX {
                Some(LoweringError::TemporariesExhausted)
            } else {
                None
            }
        },
        ExprView::Binary { op, lhs, rhs, .. } => {
            if lowering_failure(*lhs, counter) is Some {
                lowering_failure(*lhs, counter)
            } else if lowering_failure(*rhs, counter + temp_count(*lhs)) is Some {
                lowering_failure(*rhs, counter + temp_count(*lhs))
            } else if counter + temp_count(*lhs) + temp_count(*rhs) >= i32::MAX {
                Some(LoweringError::TemporariesExhausted)
            } else if infix_operator(op) is None {
                Some(LoweringError::NotImplemented(op))
            } else {
                None
            }
        },
    }
}

/// What stops the lowering of a number literal with this text.
pub open spec fn number_failure(text: Seq<char>) -> Option<LoweringError> {
    if text_i32(text) is None {
        Some(LoweringError::InvalidNumber)
    } else {
        None
    }
}

/// The value that stands for `e` once it is lowered with the counter at
/// `counter`: the constant that a number denotes, or the temporary of the
/// operator at the root, which is the last one allocated for `e`. A string
/// literal has no value.
pub open spec fn lowered_value(e: ExprView, counter: int) -> ValueView {
    match e {
        ExprView::Number(text) => ValueView::Constant(text_i32(text).unwrap()),
        ExprView::Literal(LiteralView::Number(text)) => ValueView::Constant(
            text_i32(text).unwrap(),
        ),
        ExprView::Literal(LiteralView::String(_)) => arbitrary(),
        _ => ValueView::Var(temp_name(counter + temp_count(e) - 1)),
    }
}

/// The instructions that lowering `e` emits when the counter stands at
/// `counter`: those of the operands, left before right, and then the one of
/// the operator at the root. A literal emits none.
pub open spec fn lowered_instructions(e: ExprView, counter: int) -> Seq<InstructionView>
    decreases e,
{
    match e {
        ExprView::Binary { op, lhs, rhs, .. } => {
            let middle = counter + temp_count(*lhs);
            lowered_instructions(*lhs, counter) + lowered_instructions(*rhs, middle)
                + seq![
                InstructionView::Binary {
                    op: infix_operator(op).unwrap(),
                    left: lowered_value(*lhs, counter),
                    right: lowered_value(*rhs, middle),
                    dst: lowered_value(e, counter),
                },
            ]
        },
        ExprView::Unary { op, expr, .. } => {
            lowered_instructions(*expr, counter) + seq![
                InstructionView::Unary {
                    op: unary_operator(op),
                    src: lowered_value(*expr, counter),
                    dst: lowered_value(e, counter),
                },
            ]
        },
        ExprView::Literal(_) => Seq::empty(),
        ExprView::Number(_) => Seq::empty(),
    }
}

/// Whether `e` holds, at any depth, an infix operator other than addition.
pub open spec fn holds_unsupported_operator(e: ExprView) -> bool
    decreases e,
{
    match e {
        ExprView::Binary { op, lhs, rhs, .. } => op != OpInfix::Add || holds_unsupported_operator(
            *lhs,
        ) || holds_unsupported_operator(*rhs),
        ExprView::Unary { expr, .. } => holds_unsupported_operator(*expr),
        ExprView::Literal(_) => false,
        ExprView::Number(_) => false,
    }
}

/// What stops the lowering of the statement `stmt` when the counter stands at
/// `counter`. A `return` without an expression is always lowered.
pub open spec fn statement_failure(stmt: StmtView, counter: int) -> Option<LoweringError> {
    match stmt {
        StmtView::Return(Some(e)) => lowering_failure(e, counter),
        StmtView::Return(None) => None,
    }
}

/// How many temporaries lowering `stmt` allocates.
pub open spec fn statement_temp_count(stmt: StmtView) -> nat {
    match stmt {
        StmtView::Return(Some(e)) => temp_count(e),
        StmtView::Return(None) => 0,
    }
}

/// The instructions that lowering `stmt` emits when the counter stands at
/// `counter`. A `return` of an expression emits the instructions of the
/// expression and then one `Return` of its value; a `return` without an
/// expression emits nothing at all.
pub open spec fn lowered_statement(stmt: StmtView, counter: int) -> Seq<InstructionView> {
    match stmt {
        StmtView::Return(Some(e)) => lowered_instructions(e, counter) + seq![
            InstructionView::Return(lowered_value(e, counter)),
        ],
        StmtView::Return(None) => Seq::empty(),
    }
}

/// A copy of `value`.
fn copy_value(value: &TackyVal) -> (copy: TackyVal)
    ensures
        copy == *value,
{
    match value {
        TackyVal::Constant(n) => TackyVal::Constant(*n),
        TackyVal::Var(name) => TackyVal::Var(name.clone()),
    }
}

/// A copy of `instruction`.
fn copy_instruction(instruction: &Instruction) -> (copy: Instruction)
    ensures
        copy == *instruction,
{
    match instruction {
        Instruction::Return(value) => Instruction::Return(copy_value(value)),
        Instruction::Unary { op, src, dst } => Instruction::Unary {
            op: *op,
            src: copy_value(src),
            dst: copy_value(dst),
        },
        Instruction::Binary { op, left, right, dst } => Instruction::Binary {
            op: *op,
            left: copy_value(left),
            right: copy_value(right),
            dst: copy_value(dst),
        },
    }
}

/// A copy of `instructions`, in the same order.
fn copy_instructions(instructions: &Vec<Instruction>) -> (copy: Vec<Instruction>)
    ensures
        copy@ == instructions@,
{
    let mut copy: Vec<Instruction> = Vec::new();
    let mut i: usize = 0;
    while i < instructions.len()
        invariant
            i <= instructions.len(),
            copy@ == instructions@.take(i as int),
        decreases instructions.len() - i,
    {
        copy.push(copy_instruction(&instructions[i]));
        i += 1;
    }
    copy
}

/// The variable that is the temporary with number `n`.
fn temp_var(n: i32) -> (var: TackyVal)
    ensures
        var@ == ValueView::Var(temp_name(n as int)),
{
    let mut name: Vec<char> = Vec::new();
    name.push('t');
    name.push('m');
    name.push('p');
    name.push('.');
    assert(name@ == seq!['t', 'm', 'p', '.']);
    push_int_text(n, &mut name);
    TackyVal::Var(string_from_chars(name))
}

impl TackyGen {
    /// A lowering pass that has allocated no temporary and emitted nothing.
    pub fn new() -> (gen: Self)
        ensures
            gen.counter == 0,
            gen.instructions@.len() == 0,
    {
        TackyGen { counter: 0, instructions: Vec::new() }
    }

    /// Puts the pass back to `counter` and to the first `len` instructions of
    /// its log.
    fn roll_back(&mut self, counter: i32, len: usize)
        requires
            len <= old(self).instructions@.len(),
        ensures
            final(self).counter == counter,
            final(self).instructions@ == old(self).instructions@.take(len as int),
    {
        self.counter = counter;
        self.instructions.truncate(len);
    }

    /// Lowers `expr`: appends its instructions to the log, moves the counter
    /// past the temporaries it allocated, and returns the value that stands
    /// for it. A literal adds nothing to the log. Where the tree cannot be
    /// lowered, says why and leaves the pass as it was.
    pub fn emit_expr(&mut self, expr: Expr) -> (result: Result<TackyVal, LoweringError>)
        ensures
            match result {
                Ok(value) => {
                    &&& lowering_failure(expr@, old(self).counter as int) is None
                    &&& value@ == lowered_value(expr@, old(self).counter as int)
                    &&& final(self).counter == old(self).counter + temp_count(expr@)
                    &&& old(self).instructions@.is_prefix_of(final(self).instructions@)
                    &&& instructions_view(
                        final(self).instructions@.skip(old(self).instructions@.len() as int),
                    ) == lowered_instructions(expr@, old(self).counter as int)
                    &&& temp_count(expr@) == 0 ==> final(self).instructions@ == old(
                        self,
                    ).instructions@
                },
                Err(error) => {
                    &&& lowering_failure(expr@, old(self).counter as int) == Some(error)
                    &&& final(self).counter == old(self).counter
                    &&& final(self).instructions@ == old(self).instructions@
                },
            },
        decreases expr,
    {
        let counter = self.counter;
        let len = self.instructions.len();
        match expr {
            Expr::Literal(ExprLiteral::String(_)) => Err(LoweringError::StringLiteral),
            Expr::Literal(ExprLiteral::Number(text)) => match parse_i32(text.as_str()) {
                Some(n) => Ok(TackyVal::Constant(n)),
                None => Err(LoweringError::InvalidNumber),
            },
            Expr::Number(text) => match parse_i32(text.as_str()) {
                Some(n) => Ok(TackyVal::Constant(n)),
                None => Err(LoweringError::InvalidNumber),
            },
            Expr::Unary(unary) => {
                let unary = *unary;
                let src = match self.emit_expr(unary.expr.0) {
                    Ok(value) => value,
                    Err(error) => {
                        return Err(error);
                    },
                };
                if self.counter == i32::MAX {
                    self.roll_back(counter, len);
                    return Err(LoweringError::TemporariesExhausted);
                }
                let dst = temp_var(self.counter);
                self.counter += 1;
                let op = match unary.op {
                    UnaryOp::Neg => UnaryOperator::Negate,
                    UnaryOp::Complement => UnaryOperator::Complement,
                    UnaryOp::Not => UnaryOperator::Not,
                };
                self.instructions.push(Instruction::Unary { op, src, dst: copy_value(&dst) });
                Ok(dst)
            },
            Expr::Binary(infix) => {
                let infix = *infix;
                let left = match self.emit_expr(infix.lhs.0) {
                    Ok(value) => value,
                    Err(error) => {
                        return Err(error);
                    },
                };
                let right = match self.emit_expr(infix.rhs.0) {
                    Ok(value) => value,
                    Err(error) => {
                        self.roll_back(counter, len);
                        return Err(error);
                    },
                };
                if self.counter == i32::MAX {
                    self.roll_back(counter, len);
                    return Err(LoweringError::TemporariesExhausted);
                }
                let dst = temp_var(self.counter);
                self.counter += 1;
                let op = match infix.op {
                    OpInfix::Add => InfixOperator::Add,
                    other => {
                        self.roll_back(counter, len);
                        return Err(LoweringError::NotImplemented(other));
                    },
                };
                self.instructions.push(
                    Instruction::Binary { op, left, right, dst: copy_value(&dst) },
                );
                Ok(dst)
            },
        }
    }

    /// Lowers the one function of `program`: appends the instructions of its
    /// body to the log and returns the function under its own name, with
    /// the whole log as its body. Where the body cannot be lowered, says why
    /// and leaves the pass as it was.
    ///
    /// A `return` without an expression adds no instruction.
    pub fn emit_tacky(&mut self, program: Program) -> (result: Result<TackyProgram, LoweringError>)
        ensures
            match result {
                Ok(tacky) => {
                    &&& statement_failure(program@.func.body, old(self).counter as int) is None
                    &&& final(self).counter == old(self).counter + statement_temp_count(
                        program@.func.body,
                    )
                    &&& old(self).instructions@.is_prefix_of(final(self).instructions@)
                    &&& instructions_view(
                        final(self).instructions@.skip(old(self).instructions@.len() as int),
                    ) == lowered_statement(program@.func.body, old(self).counter as int)
                    &&& tacky@.function.name == program@.func.name
                    &&& tacky.function.body@ == final(self).instructions@
                },
                Err(error) => {
                    &&& statement_failure(program@.func.body, old(self).counter as int) == Some(
                        error,
                    )
                    &&& final(self).counter == old(self).counter
                    &&& final(self).instructions@ == old(self).instructions@
                },
            },
    {
        let ghost before = self.instructions@;
        match program.func.body {
            Stmt::Return(ret_stmt) => {
                if let Some(expr) = ret_stmt.expr {
                    let value = match self.emit_expr(expr) {
                        Ok(value) => value,
                        Err(error) => {
                            return Err(error);
                        },
                    };
                    let ghost emitted = self.instructions@;
                    self.instructions.push(Instruction::Return(value));
                    assert(self.instructions@.skip(before.len() as int) == emitted.skip(
                        before.len() as int,
                    ).push(Instruction::Return(value)));
                } else {
                    assert(self.instructions@.skip(before.len() as int) == Seq::<
                        Instruction,
                    >::empty());
                }
            },
        }
        Ok(
            TackyProgram {
                function: FunctionDefinition {
                    name: program.func.name,
                    body: copy_instructions(&self.instructions),
                },
            },
        )
    }
}

/// Temporaries with different numbers have different names.
pub proof fn lemma_temp_names_distinct(a: int, b: int)
    requires
        a != b,
    ensures
        temp_name(a) != temp_name(b),
{
    if temp_name(a) == temp_name(b) {
        assert(temp_name(a).skip(4) == int_text(a));
        assert(temp_name(b).skip(4) == int_text(b));
        lemma_int_text_injective(a, b);
    }
}

/// Lowering a tree emits exactly one instruction for each of its operator
/// nodes, and the instruction at place `i` writes the temporary numbered
/// `counter + i`: temporaries are handed out in the order of the walk, none
/// twice and none skipped.
pub proof fn lemma_temporaries_in_order(e: ExprView, counter: int)
    ensures
        lowered_instructions(e, counter).len() == temp_count(e),
        forall|i: int|
            0 <= i < temp_count(e) ==> destination(#[trigger] lowered_instructions(e, counter)[i])
                == Some(ValueView::Var(temp_name(counter + i))),
    decreases e,
{
    match e {
        ExprView::Binary { lhs, rhs, .. } => {
            lemma_temporaries_in_order(*lhs, counter);
            lemma_temporaries_in_order(*rhs, counter + temp_count(*lhs));
        },
        ExprView::Unary { expr, .. } => {
            lemma_temporaries_in_order(*expr, counter);
        },
        ExprView::Literal(_) => {},
        ExprView::Number(_) => {},
    }
}

/// No two instructions that lowering a tree emits write the same temporary.
pub proof fn lemma_temporaries_unique(e: ExprView, counter: int, i: int, j: int)
    requires
        0 <= i < j < temp_count(e),
    ensures
        destination(lowered_instructions(e, counter)[i]) != destination(
            lowered_instructions(e, counter)[j],
        ),
{
    lemma_temporaries_in_order(e, counter);
    lemma_temp_names_distinct(counter + i, counter + j);
}

/// Lowering a statement emits one instruction for each operator node of its
/// expression, and after them one `Return` where the statement returns a
/// value.
pub proof fn lemma_statement_instruction_count(stmt: StmtView, counter: int)
    ensures
        lowered_statement(stmt, counter).len() == statement_temp_count(stmt) + (if stmt
            matches StmtView::Return(Some(_)) {
            1nat
        } else {
            0nat
        }),
{
    match stmt {
        StmtView::Return(Some(e)) => {
            lemma_temporaries_in_order(e, counter);
        },
        StmtView::Return(None) => {},
    }
}

/// The instructions of an infix operator begin with all those of its left
/// operand; all those of its right operand follow; the operator's own
/// instruction is the last.
pub proof fn lemma_left_before_right(e: ExprView, counter: int)
    requires
        e is Binary,
    ensures
        ({
            let left = temp_count(*e->lhs);
            let right = temp_count(*e->rhs);
            let all = lowered_instructions(e, counter);
            &&& all.len() == left + right + 1
            &&& all.subrange(0, left as int) == lowered_instructions(*e->lhs, counter)
            &&& all.subrange(left as int, (left + right) as int) == lowered_instructions(
                *e->rhs,
                counter + left,
            )
            &&& all[(left + right) as int] is Binary
        }),
{
    lemma_temporaries_in_order(*e->lhs, counter);
    lemma_temporaries_in_order(*e->rhs, counter + temp_count(*e->lhs));
}

/// A literal is lowered without any instruction and without any temporary;
/// where its text is a 32-bit integer, its value is that constant.
pub proof fn lemma_number_emits_nothing(text: Seq<char>, counter: int)
    ensures
        lowered_instructions(ExprView::Number(text), counter) == Seq::<InstructionView>::empty(),
        lowered_instructions(ExprView::Literal(LiteralView::Number(text)), counter) == Seq::<
            InstructionView,
        >::empty(),
        temp_count(ExprView::Number(text)) == 0,
        temp_count(ExprView::Literal(LiteralView::Number(text))) == 0,
        text_i32(text) matches Some(n) ==> {
            &&& lowering_failure(ExprView::Number(text), counter) is None
            &&& lowering_failure(ExprView::Literal(LiteralView::Number(text)), counter) is None
            &&& lowered_value(ExprView::Number(text), counter) == ValueView::Constant(n)
            &&& lowered_value(ExprView::Literal(LiteralView::Number(text)), counter)
                == ValueView::Constant(n)
        },
{
}

/// An infix operator other than addition is never lowered: the walk stops, at
/// the operator itself unless something stopped it before.
pub proof fn lemma_unsupported_operator_fails(e: ExprView, counter: int)
    requires
        e is Binary,
        e->Binary_op != OpInfix::Add,
    ensures
        lowering_failure(e, counter) is Some,
        ({
            let middle = counter + temp_count(*e->lhs);
            &&& lowering_failure(*e->lhs, counter) is None
            &&& lowering_failure(*e->rhs, middle) is None
            &&& middle + temp_count(*e->rhs) < i32::MAX
        }) ==> lowering_failure(e, counter) == Some(
            LoweringError::NotImplemented(e->Binary_op),
        ),
{
}

/// A tree that holds an infix operator other than addition, at any depth, is
/// not lowered.
pub proof fn lemma_unsupported_inside_fails(e: ExprView, counter: int)
    requires
        holds_unsupported_operator(e),
    ensures
        lowering_failure(e, counter) is Some,
    decreases e,
{
    match e {
        ExprView::Binary { op, lhs, rhs, .. } => {
            if holds_unsupported_operator(*lhs) {
                lemma_unsupported_inside_fails(*lhs, counter);
            } else if holds_unsupported_operator(*rhs) {
                lemma_unsupported_inside_fails(*rhs, counter + temp_count(*lhs));
            }
        },
        ExprView::Unary { expr, .. } => {
            lemma_unsupported_inside_fails(*expr, counter);
        },
        ExprView::Literal(_) => {},
        ExprView::Number(_) => {},
    }
}

/// Every instruction with two operands that lowering emits is an addition:
/// no other infix operator of the tree ever becomes an instruction.
pub proof fn lemma_only_addition_is_emitted(e: ExprView, counter: int)
    requires
        lowering_failure(e, counter) is None,
    ensures
        forall|i: int|
            0 <= i < lowered_instructions(e, counter).len() ==> (#[trigger] lowered_instructions(
                e,
                counter,
            )[i] matches InstructionView::Binary { op, .. } ==> op == InfixOperator::Add),
    decreases e,
{
    match e {
        ExprView::Binary { lhs, rhs, .. } => {
            lemma_only_addition_is_emitted(*lhs, counter);
            lemma_only_addition_is_emitted(*rhs, counter + temp_count(*lhs));
        },
        ExprView::Unary { expr, .. } => {
            lemma_only_addition_is_emitted(*expr, counter);
        },
        ExprView::Literal(_) => {},
        ExprView::Number(_) => {},
    }
}

} // verus!
