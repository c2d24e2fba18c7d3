//! The character classes that the lexer tells apart.

use crate::token::{lemma_operator_spellings, Operator};
use vstd::prelude::*;

verus! {

/// Whether `c` separates tokens: a space, a tab or a line feed.
pub open spec fn is_separator(c: char) -> bool {
    c == ' ' || c == '\t' || c == '\n'
}

/// Tells whether `c` separates tokens.
pub fn char_acts_as_separator(c: char) -> (b: bool)
    ensures
        b == is_separator(c),
{
    c == ' ' || c == '\t' || c == '\n'
}

/// Whether `c` is a space or a tab.
pub open spec fn is_blank(c: char) -> bool {
    c == ' ' || c == '\t'
}

/// Tells whether `c` is a space or a tab.
pub fn char_is_blank(c: char) -> (b: bool)
    ensures
        b == is_blank(c),
{
    c == ' ' || c == '\t'
}

/// Whether `c` is one of the ten decimal digits.
pub open spec fn is_digit(c: char) -> bool {
    '0' <= c <= '9'
}

/// Tells whether `c` is a decimal digit.
pub fn char_is_digit(c: char) -> (b: bool)
    ensures
        b == is_digit(c),
{
    '0' <= c && c <= '9'
}

/// Whether a name can begin with `c`: a letter of the Latin alphabet or an
/// underscore.
pub open spec fn is_word_start(c: char) -> bool {
    'a' <= c <= 'z' || 'A' <= c <= 'Z' || c == '_'
}

/// Tells whether a name can begin with `c`.
pub fn char_starts_word(c: char) -> (b: bool)
    ensures
        b == is_word_start(c),
{
    ('a' <= c && c <= 'z') || ('A' <= c && c <= 'Z') || c == '_'
}

/// Whether some operator of the table begins with `c`.
pub open spec fn starts_operator(c: char) -> bool {
    exists|op: Operator| (#[trigger] op.spelling())[0] == c
}

/// An operator that begins with `c`, for each of the characters that begin one.
pub open spec fn operator_with(c: char) -> Option<Operator> {
    match c {
        '+' => Some(Operator::Plus),
        '-' => Some(Operator::Minus),
        '*' => Some(Operator::Star),
        '/' => Some(Operator::Slash),
        '%' => Some(Operator::Percent),
        '&' => Some(Operator::Ampersand),
        '|' => Some(Operator::Pipe),
        '^' => Some(Operator::Caret),
        '~' => Some(Operator::Tilde),
        '<' => Some(Operator::Less),
        '>' => Some(Operator::Greater),
        '(' => Some(Operator::LeftParen),
        ')' => Some(Operator::RightParen),
        '[' => Some(Operator::LeftBracket),
        ']' => Some(Operator::RightBracket),
        '{' => Some(Operator::LeftBrace),
        '}' => Some(Operator::RightBrace),
        ',' => Some(Operator::Comma),
        ':' => Some(Operator::Colon),
        '.' => Some(Operator::Dot),
        ';' => Some(Operator::Semicolon),
        '@' => Some(Operator::At),
        '=' => Some(Operator::Assign),
        '!' => Some(Operator::NotEqual),
        _ => None,
    }
}

/// The characters that begin an operator are those for which `operator_with`
/// names one.
pub proof fn lemma_starts_operator(c: char)
    ensures
        starts_operator(c) <==> operator_with(c) is Some,
{
    lemma_operator_spellings();
    if let Some(op) = operator_with(c) {
        assert(op.spelling()[0] == c);
    }
}

/// Tells whether some operator begins with `c`.
pub fn char_defines_operator(c: char) -> (b: bool)
    ensures
        b == starts_operator(c),
{
    proof {
        lemma_starts_operator(c);
    }
    match c {
        '+' | '-' | '*' | '/' | '%' | '&' | '|' | '^' | '~' | '<' | '>' | '(' | ')' | '[' | ']'
        | '{' | '}' | ',' | ':' | '.' | ';' | '@' | '=' | '!' => true,
        _ => false,
    }
}

/// Whether `c` ends a name or a number: a separator, or the start of an
/// operator.
pub open spec fn ends_word(c: char) -> bool {
    is_separator(c) || starts_operator(c)
}

/// Tells whether `c` ends a name or a number.
pub fn char_ends_word(c: char) -> (b: bool)
    ensures
        b == ends_word(c),
{
    char_acts_as_separator(c) || char_defines_operator(c)
}

} // verus!
