//! Why a parse failed.

use vstd::prelude::*;

verus! {

/// The reason for which a rule of the grammar did not match.
#[derive(Clone, Copy, Debug, PartialEq, Eq, Structural)]
pub enum ParseError {
    /// The text does not begin with the token that the rule starts with.
    Lexical,
    /// A literal denotes a value that does not fit in 32 bits.
    NumericOverflow,
    /// A part of the rule that follows its first token is missing.
    GrammarMismatch,
    /// None of the alternatives of the rule matched.
    ExhaustedAlternatives,
}

} // verus!
