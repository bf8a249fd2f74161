//! An arithmetic calculator core: a lexer, a recursive-descent parser that
//! builds a precedence-respecting expression tree, and a session that ties
//! the two together for one input line at a time.

pub mod lexer;
pub mod parser;
pub mod statement;
pub mod text;
pub mod token;
pub mod vm;

pub use vm::{Error, VM};
