//! A small compiler front end: source text is lexed into tokens, parsed into
//! a syntax tree, and lowered to three-address code.

pub mod backend;
pub mod decimal;
pub mod front_end;
pub mod pipeline;
pub mod tacky;
pub mod tacky_gen;
pub mod text;
