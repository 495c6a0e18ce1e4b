//! The language in which proxy rules are written down: source positions, tokens, the
//! scanner and the syntax tree.

pub mod ast;
pub mod errors;
pub mod scanner;
pub mod source;
pub mod spec;
pub mod tokens;
