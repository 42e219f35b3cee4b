//! Source text to syntax tree.

pub mod ast;
pub mod error;
pub mod grammar;
pub mod laws;
pub mod lexical;
pub mod locality;
pub mod source;
pub mod syntax;
