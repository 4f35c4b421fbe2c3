//! The front end: from source text to a syntax tree.

pub mod ast;
pub mod grammar;
pub mod ir;
pub mod lang;
pub mod lexer;
pub mod lexer_lemmas;
pub mod scanner;
