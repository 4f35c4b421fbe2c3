//! The three-address intermediate representation: a flat, ordered list of
//! instructions, each with at most two source operands and one destination.

use vstd::prelude::*;

verus! {

#[derive(Debug, Clone, Copy, PartialEq, Eq)]
pub enum UnaryOperator {
    Complement,
    Negate,
    Not,
}

#[derive(Debug, Clone, Copy, PartialEq, Eq)]
pub enum InfixOperator {
    Add,
    Sub,
    Mul,
    Div,
}

/// An operand: a constant, or a variable known by its name.
#[derive(Debug, Clone, PartialEq)]
pub enum TackyVal {
    Constant(i32),
    Var(String),
}

#[derive(Debug, Clone, PartialEq)]
pub enum Instruction {
    Return(TackyVal),
    Unary { op: UnaryOperator, src: TackyVal, dst: TackyVal },
    Binary { op: InfixOperator, left: TackyVal, right: TackyVal, dst: TackyVal },
}

/// A function: its name and its instructions in the order they run.
#[derive(Debug, PartialEq)]
pub struct FunctionDefinition {
    pub name: String,
    pub body: Vec<Instruction>,
}

/// A whole program: exactly one function.
#[derive(Debug, PartialEq)]
pub struct TackyProgram {
    pub function: FunctionDefinition,
}

/// The view of a [`TackyVal`].
pub enum ValueView {
    Constant(i32),
    Var(Seq<char>),
}

/// The view of an [`Instruction`].
pub enum InstructionView {
    Return(ValueView),
    Unary { op: UnaryOperator, src: ValueView, dst: ValueView },
    Binary { op: InfixOperator, left: ValueView, right: ValueView, dst: ValueView },
}

/// The view of a [`FunctionDefinition`].
pub struct FunctionView {
    pub name: Seq<char>,
    pub body: Seq<InstructionView>,
}

/// The view of a [`TackyProgram`].
pub struct TackyProgramView {
    pub function: FunctionView,
}

impl View for TackyVal {
    type V = ValueView;

    open spec fn view(&self) -> ValueView {
        match self {
            TackyVal::Constant(n) => ValueView::Constant(*n),
            TackyVal::Var(name) => ValueView::Var(name@),
        }
    }
}

impl View for Instruction {
    type V = InstructionView;

    open spec fn view(&self) -> InstructionView {
        match self {
            Instruction::Return(value) => InstructionView::Return(value@),
            Instruction::Unary { op, src, dst } => InstructionView::Unary {
                op: *op,
                src: src@,
                dst: dst@,
            },
            Instruction::Binary { op, left, right, dst } => InstructionView::Binary {
                op: *op,
                left: left@,
                right: right@,
                dst: dst@,
            },
        }
    }
}

/// The value that `instruction` writes, if it writes one.
pub open spec fn destination(instruction: InstructionView) -> Option<ValueView> {
    match instruction {
        InstructionView::Return(_) => None,
        InstructionView::Unary { dst, .. } => Some(dst),
        InstructionView::Binary { dst, .. } => Some(dst),
    }
}

/// The views of a sequence of instructions, in the same order.
pub open spec fn instructions_view(instructions: Seq<Instruction>) -> Seq<InstructionView> {
    instructions.map_values(|instruction: Instruction| instruction@)
}

impl View for FunctionDefinition {
    type V = FunctionView;

    open spec fn view(&self) -> FunctionView {
        FunctionView { name: self.name@, body: instructions_view(self.body@) }
    }
}

impl View for TackyProgram {
    type V = TackyProgramView;

    open spec fn view(&self) -> TackyProgramView {
        TackyProgramView { function: self.function@ }
    }
}

} // verus!
