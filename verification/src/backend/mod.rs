//! The back end: assembly text.

pub mod gen;
