//! The stages of a compilation, one after the other: source text is lexed,
//! the items are parsed, and the program is lowered. A stage that fails
//! ends the compilation; its error is handed on as it is.

use crate::front_end::ast::ProgramView;
use crate::front_end::lang::{parse_items, program, ParseError, ParseErrorView};
use crate::front_end::lexer::{lex, tokenize};
use crate::tacky::{FunctionView, TackyProgram, TackyProgramView};
use crate::tacky_gen::{lowered_statement, statement_failure, LoweringError, TackyGen};
use vstd::prelude::*;

verus! {

/// A stage of the compiler, named after what it shows.
#[derive(Debug, Clone, Copy, PartialEq, Eq)]
pub enum Stage {
    /// The lexer's items.
    Lex,
    /// The syntax tree.
    Parse,
    /// The three-address code.
    Tacky,
    /// The assembly text.
    Gen,
    /// An executable.
    Compile,
}

/// The stage that a set of switches asks for: the earliest stage whose switch
/// is set, or none where no switch is.
pub open spec fn selected(lex: bool, parse: bool, tacky: bool, gen: bool, compile: bool) -> Option<
    Stage,
> {
    if lex {
        Some(Stage::Lex)
    } else if parse {
        Some(Stage::Parse)
    } else if tacky {
        Some(Stage::Tacky)
    } else if gen {
        Some(Stage::Gen)
    } else if compile {
        Some(Stage::Compile)
    } else {
        None
    }
}

/// The stage that a set of switches asks for.
pub fn select_stage(lex: bool, parse: bool, tacky: bool, gen: bool, compile: bool) -> (stage:
    Option<Stage>)
    ensures
        stage == selected(lex, parse, tacky, gen, compile),
{
    if lex {
        Some(Stage::Lex)
    } else if parse {
        Some(Stage::Parse)
    } else if tacky {
        Some(Stage::Tacky)
    } else if gen {
        Some(Stage::Gen)
    } else if compile {
        Some(Stage::Compile)
    } else {
        None
    }
}

/// Why a source text could not be compiled: the error of the stage that
/// failed.
#[derive(Debug, PartialEq)]
pub enum CompileError {
    /// The text is not a program. A lexical error is reported here too, by
    /// the parser that came upon it.
    Parse(ParseError),
    /// The program cannot be lowered.
    Lowering(LoweringError),
}

/// The view of a [`CompileError`].
pub enum CompileErrorView {
    Parse(ParseErrorView),
    Lowering(LoweringError),
}

impl View for CompileError {
    type V = CompileErrorView;

    open spec fn view(&self) -> CompileErrorView {
        match self {
            CompileError::Parse(error) => CompileErrorView::Parse(error@),
            CompileError::Lowering(error) => CompileErrorView::Lowering(*error),
        }
    }
}

/// The three-address code of the program `p`, lowered by a pass that starts
/// with its counter at zero and an empty log.
pub open spec fn lowered(p: ProgramView) -> Result<TackyProgramView, CompileErrorView> {
    match statement_failure(p.func.body, 0) {
        Some(error) => Err(CompileErrorView::Lowering(error)),
        None => Ok(
            TackyProgramView {
                function: FunctionView {
                    name: p.func.name,
                    body: lowered_statement(p.func.body, 0),
                },
            },
        ),
    }
}

/// The three-address code of the source text `source`, or the error of the
/// first stage that fails on it.
pub open spec fn compiled(source: Seq<char>) -> Result<TackyProgramView, CompileErrorView> {
    match program(lex(source)) {
        Ok(p) => lowered(p),
        Err(error) => Err(CompileErrorView::Parse(error)),
    }
}

/// Compiles `source` as far as three-address code.
pub fn source_to_tacky(source: &str) -> (result: Result<TackyProgram, CompileError>)
    ensures
        match compiled(source@) {
            Ok(tacky) => result matches Ok(found) && found@ == tacky,
            Err(error) => result matches Err(found) && found@ == error,
        },
{
    let items = tokenize(source);
    let parsed = match parse_items(&items) {
        Ok(parsed) => parsed,
        Err(error) => {
            return Err(CompileError::Parse(error));
        },
    };
    let mut pass = TackyGen::new();
    match pass.emit_tacky(parsed) {
        Ok(tacky) => {
            assert(pass.instructions@.skip(0) == pass.instructions@);
            Ok(tacky)
        },
        Err(error) => Err(CompileError::Lowering(error)),
    }
}

} // verus!
