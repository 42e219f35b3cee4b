//! A parser for a 65816-family assembly dialect.
//!
//! The `parser` module turns source text into a syntax tree. The `encoder`
//! module maps a mnemonic and an addressing mode to the byte that encodes
//! them.

pub mod encoder;
pub mod parser;
