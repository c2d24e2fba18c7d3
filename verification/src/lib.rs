//! A front end for a language with the surface of Python: a lexer that turns
//! indentation into tokens, and a recognizer driven by a table that says
//! whether a token sequence is a program of the language.
//!
//! `lexer::tokenize` cuts a source text into tokens and `parser::parse` says
//! whether tokens are a program. `theorems` holds what is proved of the
//! lexer, `derivation` what is proved of the recognizer: that it accepts
//! exactly what the grammar derives.

pub mod chars;
pub mod derivation;
pub mod error;
pub mod grammar;
pub mod layout;
pub mod lexer;
pub mod lookahead;
pub mod parser;
pub mod scan;
pub mod theorems;
pub mod token;
