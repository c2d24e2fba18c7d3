//! The errors of the two passes. Each carries the row and the column, both
//! counted from zero, at which the pass gave up.

use crate::grammar::Nonterminal;
use crate::token::TokenKind;
use vstd::prelude::*;

verus! {

/// Why a source text cannot be cut into tokens.
#[derive(Clone, Copy, Debug, PartialEq, Eq, Structural)]
pub enum LexError {
    /// A string literal is still open where its line ends, at `col`.
    UnterminatedStringLiteral { row: usize, col: usize },
    /// The line is indented by `col` columns, less than the line before it,
    /// and no block around it is indented by that much.
    InvalidIndentation { row: usize, col: usize },
    /// The number that begins at `col` runs into a character that can neither
    /// belong to it nor follow it.
    InvalidLiteralCharacter { row: usize, col: usize },
    /// No token begins with the character at `col`.
    UnrecognizedToken { row: usize, col: usize },
    /// The closing bracket at `col` closes no bracket, or one of another shape.
    MismatchedOrUnbalancedBracket { row: usize, col: usize },
    /// The bytes of the line are not UTF-8.
    InvalidUtf8 { row: usize },
}

/// Why a token sequence is not a program of the language.
#[derive(Clone, Copy, Debug, PartialEq, Eq, Structural)]
pub enum SyntaxError {
    /// The grammar asks for a token of kind `expected` where the token at
    /// `row`, `col` is of kind `found`.
    UnexpectedToken { expected: TokenKind, found: TokenKind, row: usize, col: usize },
    /// The table has no production for `nonterminal` and a token of kind
    /// `found`, which stands at `row`, `col`.
    NoApplicableProduction { nonterminal: Nonterminal, found: TokenKind, row: usize, col: usize },
}

} // verus!
