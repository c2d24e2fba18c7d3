//! The recognizers of the lexer. Each looks at one place of a line and says
//! whether a token of its kind begins there, and where that token ends.

use crate::chars::{
    char_ends_word, char_is_blank, char_is_digit, char_starts_word, ends_word, is_blank, is_digit,
    is_word_start,
};
use crate::error::LexError;
use crate::token::{
    keyword_of, lemma_keyword_spelling_injective, lemma_operator_length, lemma_operator_prefix,
    lemma_operator_spelling_injective, operator_of, Keyword, LiteralKind, Operator, Token,
    TokenKind, TokenView, KEYWORD_COUNT, OPERATOR_COUNT,
};
use vstd::prelude::*;
use vstd::string::StrSliceExecFns;

verus! {

/// What a recognizer finds at one place of a line.
pub enum Scan {
    /// No token of the recognizer's kind begins there.
    Nothing,
    /// A token of this kind begins there and ends before this column.
    Found(TokenKind, int),
    /// What begins there is malformed, which the lexer reports at this column.
    Failed(int),
}

/// The token that `Scan::Found(kind, end)` stands for when the scan began at
/// `col` of `line`, which is row `row`: its lexeme is the text from `col` up
/// to `end`.
pub open spec fn token_at(line: Seq<char>, row: nat, col: int, kind: TokenKind, end: int) -> TokenView {
    TokenView { kind, lexeme: line.subrange(col, end), row, col: col as nat }
}

/// Whether `found` is the token and the end column that `scan` stands for.
pub open spec fn is_found(
    found: Option<(Token, usize)>,
    scan: Scan,
    line: Seq<char>,
    row: nat,
    col: int,
) -> bool {
    match scan {
        Scan::Found(kind, end) => found matches Some((token, stop)) && stop == end && token@
            == token_at(line, row, col, kind, end),
        _ => found is None,
    }
}

/// The column of the first character of `line` at or after `from` that is
/// neither a space nor a tab, or the length of the line.
pub open spec fn blanks_end(line: Seq<char>, from: int) -> int
    decreases line.len() - from,
{
    if 0 <= from < line.len() && is_blank(line[from]) {
        blanks_end(line, from + 1)
    } else {
        from
    }
}

/// By how many columns `line` is indented: the number of spaces and tabs
/// that it begins with.
pub open spec fn indentation(line: Seq<char>) -> int {
    blanks_end(line, 0)
}

/// The blanks at a column end at or after it, and within the line.
pub proof fn lemma_blanks_end_bounds(line: Seq<char>, from: int)
    requires
        0 <= from <= line.len(),
    ensures
        from <= blanks_end(line, from) <= line.len(),
        forall|i: int| from <= i < blanks_end(line, from) ==> is_blank(#[trigger] line[i]),
    decreases line.len() - from,
{
    if from < line.len() && is_blank(line[from]) {
        lemma_blanks_end_bounds(line, from + 1);
    }
}

/// A line is indented by no more columns than it has, and by blanks.
pub proof fn lemma_indentation_bounds(line: Seq<char>)
    ensures
        0 <= indentation(line) <= line.len(),
        forall|i: int| 0 <= i < indentation(line) ==> is_blank(#[trigger] line[i]),
{
    lemma_blanks_end_bounds(line, 0);
}

/// Counts the spaces and tabs that `line` begins with.
pub fn get_line_indentation(line: &Vec<char>) -> (width: usize)
    ensures
        width == indentation(line@),
        width <= line.len(),
        forall|i: int| 0 <= i < width ==> is_blank(#[trigger] line[i]),
        width < line.len() ==> !is_blank(line[width as int]),
{
    let mut width: usize = 0;
    while width < line.len() && char_is_blank(line[width])
        invariant
            width <= line.len(),
            blanks_end(line@, width as int) == indentation(line@),
            forall|i: int| 0 <= i < width ==> is_blank(#[trigger] line[i]),
        decreases line.len() - width,
    {
        width += 1;
    }
    width
}

/// `String::push`: appends `c` to `text`.
#[verifier::external_body]
fn push_char(text: &mut String, c: char)
    ensures
        final(text)@ == old(text)@.push(c),
{
    text.push(c)
}

/// The text of `line` from column `from` up to column `to`.
pub fn lexeme_of(line: &Vec<char>, from: usize, to: usize) -> (text: String)
    requires
        from <= to <= line.len(),
    ensures
        text@ == line@.subrange(from as int, to as int),
{
    let mut text = String::new();
    let mut i: usize = from;
    while i < to
        invariant
            from <= i <= to <= line.len(),
            text@ == line@.subrange(from as int, i as int),
        decreases to - i,
    {
        push_char(&mut text, line[i]);
        i += 1;
        assert(text@ =~= line@.subrange(from as int, i as int));
    }
    text
}

/// The token of kind `kind` whose lexeme is the text of `line` from `col` up
/// to `end`.
pub fn cut(line: &Vec<char>, row: usize, col: usize, kind: TokenKind, end: usize) -> (token: Token)
    requires
        col <= end <= line.len(),
    ensures
        token@ == token_at(line@, row as nat, col as int, kind, end as int),
{
    Token::new(kind, lexeme_of(line, col, end), row, col)
}

/// Tells whether the text of `line` from `from` up to `to` is `text`.
fn segment_is(line: &Vec<char>, from: usize, to: usize, text: &str) -> (same: bool)
    requires
        from <= to <= line.len(),
    ensures
        same == (line@.subrange(from as int, to as int) == text@),
{
    let n = text.unicode_len();
    if n != to - from {
        return false;
    }
    let mut i: usize = 0;
    while i < n
        invariant
            from <= to <= line.len(),
            n == to - from,
            n == text@.len(),
            i <= n,
            forall|j: int| 0 <= j < i ==> line@[from + j] == text@[j],
        decreases n - i,
    {
        if line[from + i] != text.get_char(i) {
            assert(line@.subrange(from as int, to as int)[i as int] != text@[i as int]);
            return false;
        }
        i += 1;
    }
    assert(line@.subrange(from as int, to as int) =~= text@);
    true
}

/// Looks the text of `line` from `from` up to `to` up in the table of
/// reserved words.
pub fn find_keyword(line: &Vec<char>, from: usize, to: usize) -> (found: Option<Keyword>)
    requires
        from <= to <= line.len(),
    ensures
        found == keyword_of(line@.subrange(from as int, to as int)),
{
    let ghost word = line@.subrange(from as int, to as int);
    let mut i: usize = 0;
    while i < KEYWORD_COUNT
        invariant
            from <= to <= line.len(),
            word == line@.subrange(from as int, to as int),
            i <= KEYWORD_COUNT,
            forall|k: Keyword| k.index() < i ==> #[trigger] k.spelling() != word,
        decreases KEYWORD_COUNT - i,
    {
        let candidate = Keyword::from_ordinal(i);
        if segment_is(line, from, to, candidate.text()) {
            proof {
                lemma_keyword_spelling_injective(
                    choose|k: Keyword| k.spelling() == word,
                    candidate,
                );
            }
            return Some(candidate);
        }
        i += 1;
    }
    None
}

/// Looks the text of `line` from `from` up to `to` up in the table of
/// operators.
pub fn find_operator(line: &Vec<char>, from: usize, to: usize) -> (found: Option<Operator>)
    requires
        from <= to <= line.len(),
    ensures
        found == operator_of(line@.subrange(from as int, to as int)),
{
    let ghost text = line@.subrange(from as int, to as int);
    let mut i: usize = 0;
    while i < OPERATOR_COUNT
        invariant
            from <= to <= line.len(),
            text == line@.subrange(from as int, to as int),
            i <= OPERATOR_COUNT,
            forall|op: Operator| op.index() < i ==> #[trigger] op.spelling() != text,
        decreases OPERATOR_COUNT - i,
    {
        let candidate = Operator::from_ordinal(i);
        if segment_is(line, from, to, candidate.text()) {
            proof {
                lemma_operator_spelling_injective(
                    choose|op: Operator| op.spelling() == text,
                    candidate,
                );
            }
            return Some(candidate);
        }
        i += 1;
    }
    None
}

/// Where the string literal ends whose text is being read at column `at` of
/// `line`, past its opening `delimiter`. A backslash right before a
/// delimiter keeps that delimiter from ending the literal; every other
/// character, a single backslash too, is plain text. The literal fails where
/// a line feed or the end of the line comes before its closing delimiter.
pub open spec fn string_body(line: Seq<char>, at: int, delimiter: char) -> Scan
    decreases line.len() - at,
{
    if !(0 <= at < line.len()) || line[at] == '\n' {
        Scan::Failed(at)
    } else if line[at] == '\\' {
        if at + 1 < line.len() && line[at + 1] == delimiter {
            string_body(line, at + 2, delimiter)
        } else {
            string_body(line, at + 1, delimiter)
        }
    } else if line[at] == delimiter {
        Scan::Found(TokenKind::Literal(LiteralKind::StringLiteral), at + 1)
    } else {
        string_body(line, at + 1, delimiter)
    }
}

/// The string literal that begins at column `col` of `line` with `delimiter`.
pub open spec fn string_literal(line: Seq<char>, col: int, delimiter: char) -> Scan {
    if 0 <= col < line.len() && line[col] == delimiter {
        string_body(line, col + 1, delimiter)
    } else {
        Scan::Nothing
    }
}

/// A string literal whose text is read at column `at` ends after that
/// column and within the line.
proof fn lemma_string_body_found(line: Seq<char>, at: int, delimiter: char)
    requires
        0 <= at,
    ensures
        string_body(line, at, delimiter) matches Scan::Found(kind, end) ==> kind
            == TokenKind::Literal(LiteralKind::StringLiteral) && at < end <= line.len(),
    decreases line.len() - at,
{
    if 0 <= at < line.len() && line[at] != '\n' {
        if line[at] == '\\' {
            if at + 1 < line.len() && line[at + 1] == delimiter {
                lemma_string_body_found(line, at + 2, delimiter);
            } else {
                lemma_string_body_found(line, at + 1, delimiter);
            }
        } else if line[at] != delimiter {
            lemma_string_body_found(line, at + 1, delimiter);
        }
    }
}

/// A string literal is a token of the kind of string literals; it holds its
/// two delimiters at least, and ends within the line.
pub proof fn lemma_string_literal_found(line: Seq<char>, col: int, delimiter: char)
    ensures
        string_literal(line, col, delimiter) matches Scan::Found(kind, end) ==> kind
            == TokenKind::Literal(LiteralKind::StringLiteral) && col + 1 < end <= line.len(),
{
    if 0 <= col < line.len() {
        lemma_string_body_found(line, col + 1, delimiter);
    }
}

/// Reads the string literal that begins at column `col` of `line` with
/// `delimiter`. Its lexeme holds both delimiters and everything between them
/// as it stands in the line.
pub fn get_string_literal(line: &Vec<char>, delimiter: char, col: usize, row: usize) -> (result:
    Result<Option<(Token, usize)>, LexError>)
    ensures
        match string_literal(line@, col as int, delimiter) {
            Scan::Failed(at) => result == Err::<Option<(Token, usize)>, LexError>(
                LexError::UnterminatedStringLiteral { row, col: at as usize },
            ),
            scan => result matches Ok(found) && is_found(found, scan, line@, row as nat, col as int),
        },
{
    if col >= line.len() || line[col] != delimiter {
        return Ok(None);
    }
    let mut at: usize = col + 1;
    loop
        invariant
            col < at <= line.len(),
            string_body(line@, at as int, delimiter) == string_literal(line@, col as int, delimiter),
        decreases line.len() - at,
    {
        if at >= line.len() {
            return Err(LexError::UnterminatedStringLiteral { row, col: at });
        }
        let c = line[at];
        if c == '\n' {
            return Err(LexError::UnterminatedStringLiteral { row, col: at });
        } else if c == '\\' {
            if at + 1 < line.len() && line[at + 1] == delimiter {
                at += 2;
            } else {
                at += 1;
            }
        } else if c == delimiter {
            let end = at + 1;
            let token = cut(line, row, col, TokenKind::Literal(LiteralKind::StringLiteral), end);
            return Ok(Some((token, end)));
        } else {
            at += 1;
        }
    }
}

/// The column of the first character of `line` at or after `from` that is no
/// digit, or the length of the line.
pub open spec fn digits_end(line: Seq<char>, from: int) -> int
    decreases line.len() - from,
{
    if 0 <= from < line.len() && is_digit(line[from]) {
        digits_end(line, from + 1)
    } else {
        from
    }
}

/// The digits at a column end at or after it and within the line; what
/// stands between is digits, and what follows is none.
pub proof fn lemma_digits_end(line: Seq<char>, from: int)
    requires
        0 <= from <= line.len(),
    ensures
        from <= digits_end(line, from) <= line.len(),
        forall|i: int| from <= i < digits_end(line, from) ==> is_digit(#[trigger] line[i]),
        digits_end(line, from) < line.len() ==> !is_digit(line[digits_end(line, from)]),
    decreases line.len() - from,
{
    if from < line.len() && is_digit(line[from]) {
        lemma_digits_end(line, from + 1);
    }
}

/// Finds the end of the digits that stand at `from`.
fn skip_digits(line: &Vec<char>, from: usize) -> (end: usize)
    requires
        from <= line.len(),
    ensures
        end == digits_end(line@, from as int),
        from <= end <= line.len(),
{
    let mut end: usize = from;
    while end < line.len() && char_is_digit(line[end])
        invariant
            from <= end <= line.len(),
            digits_end(line@, end as int) == digits_end(line@, from as int),
        decreases line.len() - end,
    {
        end += 1;
    }
    end
}

/// Whether a name or a number can end before column `at` of `line`: the line
/// ends there, or a separator or an operator follows.
pub open spec fn is_boundary(line: Seq<char>, at: int) -> bool {
    at >= line.len() || ends_word(line[at])
}

/// Tells whether a name or a number can end before column `at` of `line`.
fn at_boundary(line: &Vec<char>, at: usize) -> (b: bool)
    ensures
        b == is_boundary(line@, at as int),
{
    at >= line.len() || char_ends_word(line[at])
}

/// The number that a sequence of digits writes in base ten.
pub open spec fn decimal_value(digits: Seq<char>) -> nat
    decreases digits.len(),
{
    if digits.len() == 0 {
        0
    } else {
        (10 * decimal_value(digits.drop_last()) + (digits.last() as int - '0' as int)) as nat
    }
}

/// Whether the number that `digits` writes is a signed 32-bit integer.
pub open spec fn fits_i32(digits: Seq<char>) -> bool {
    decimal_value(digits) <= i32::MAX
}

/// A number is no less than what its first `n` digits write.
pub proof fn lemma_decimal_value_grows(digits: Seq<char>, n: int)
    requires
        0 <= n <= digits.len(),
        forall|i: int| 0 <= i < digits.len() ==> is_digit(#[trigger] digits[i]),
    ensures
        decimal_value(digits.take(n)) <= decimal_value(digits),
    decreases digits.len() - n,
{
    if n < digits.len() {
        let longer = digits.take(n + 1);
        assert(longer.drop_last() =~= digits.take(n));
        lemma_decimal_value_grows(digits, n + 1);
    } else {
        assert(digits.take(n) =~= digits);
    }
}

/// Tells whether the digits of `line` from `from` up to `to` write a signed
/// 32-bit integer.
fn digits_fit_i32(line: &Vec<char>, from: usize, to: usize) -> (fits: bool)
    requires
        from <= to <= line.len(),
        forall|i: int| from <= i < to ==> is_digit(#[trigger] line[i]),
    ensures
        fits == fits_i32(line@.subrange(from as int, to as int)),
{
    let ghost digits = line@.subrange(from as int, to as int);
    let mut value: u64 = 0;
    let mut i: usize = from;
    while i < to
        invariant
            from <= i <= to <= line.len(),
            digits == line@.subrange(from as int, to as int),
            forall|j: int| from <= j < to ==> is_digit(#[trigger] line[j]),
            value == decimal_value(digits.take(i - from)),
            value <= i32::MAX,
        decreases to - i,
    {
        let c = line[i];
        assert(is_digit(line[i as int]));
        let digit = (c as u32 - '0' as u32) as u64;
        let next = value * 10 + digit;
        proof {
            let longer = digits.take(i - from + 1);
            assert(longer.drop_last() =~= digits.take(i - from));
            assert(longer.last() == c);
            assert(next == decimal_value(longer));
            if next > i32::MAX {
                lemma_decimal_value_grows(digits, i - from + 1);
            }
        }
        if next > 2147483647 {
            return false;
        }
        value = next;
        i += 1;
    }
    assert(digits.take(to - from) =~= digits);
    true
}

/// The integer literal at column `col` of `line`: a run of digits that a
/// separator, an operator or the end of the line follows and that writes a
/// signed 32-bit integer. A run that another character follows is malformed.
/// A run that writes a larger number is no integer literal, and no token of
/// another kind begins with a digit.
pub open spec fn int_literal(line: Seq<char>, col: int) -> Scan {
    if 0 <= col < line.len() && is_digit(line[col]) {
        let end = digits_end(line, col);
        if !is_boundary(line, end) {
            Scan::Failed(col)
        } else if fits_i32(line.subrange(col, end)) {
            Scan::Found(TokenKind::Literal(LiteralKind::IntLiteral), end)
        } else {
            Scan::Nothing
        }
    } else {
        Scan::Nothing
    }
}

/// An integer literal is a token of the kind of integer literals; it holds
/// a digit at least, and ends within the line.
pub proof fn lemma_int_literal_found(line: Seq<char>, col: int)
    ensures
        int_literal(line, col) matches Scan::Found(kind, end) ==> kind == TokenKind::Literal(
            LiteralKind::IntLiteral,
        ) && col < end <= line.len(),
{
    if 0 <= col < line.len() {
        lemma_digits_end(line, col);
    }
}

/// Reads the integer literal at column `col` of `line`.
pub fn get_int_literal(line: &Vec<char>, col: usize, row: usize) -> (result: Result<
    Option<(Token, usize)>,
    LexError,
>)
    ensures
        match int_literal(line@, col as int) {
            Scan::Failed(at) => result == Err::<Option<(Token, usize)>, LexError>(
                LexError::InvalidLiteralCharacter { row, col: at as usize },
            ),
            scan => result matches Ok(found) && is_found(found, scan, line@, row as nat, col as int),
        },
{
    if col >= line.len() || !char_is_digit(line[col]) {
        return Ok(None);
    }
    let end = skip_digits(line, col);
    proof {
        lemma_digits_end(line@, col as int);
    }
    if !at_boundary(line, end) {
        return Err(LexError::InvalidLiteralCharacter { row, col });
    }
    if digits_fit_i32(line, col, end) {
        let token = cut(line, row, col, TokenKind::Literal(LiteralKind::IntLiteral), end);
        Ok(Some((token, end)))
    } else {
        Ok(None)
    }
}

/// The float literal at column `col` of `line`: digits with one decimal
/// point before, between or after them, which a separator, an operator or
/// the end of the line follows; a second point is such an operator. Digits
/// without a point are no float literal, and neither is a point without
/// digits. Digits, with or without a point, that another character follows
/// are malformed.
pub open spec fn float_literal(line: Seq<char>, col: int) -> Scan {
    if 0 <= col < line.len() && (is_digit(line[col]) || line[col] == '.') {
        let whole = digits_end(line, col);
        let pointed = whole < line.len() && line[whole] == '.';
        let end = if pointed {
            digits_end(line, whole + 1)
        } else {
            whole
        };
        if end == col + 1 && line[col] == '.' {
            Scan::Nothing
        } else if !is_boundary(line, end) {
            Scan::Failed(col)
        } else if pointed {
            Scan::Found(TokenKind::Literal(LiteralKind::FloatLiteral), end)
        } else {
            Scan::Nothing
        }
    } else {
        Scan::Nothing
    }
}

/// A float literal is a token of the kind of float literals; it holds a
/// point and a digit at least, and ends within the line.
pub proof fn lemma_float_literal_found(line: Seq<char>, col: int)
    ensures
        float_literal(line, col) matches Scan::Found(kind, end) ==> kind == TokenKind::Literal(
            LiteralKind::FloatLiteral,
        ) && col + 1 < end <= line.len(),
{
    if 0 <= col < line.len() {
        lemma_digits_end(line, col);
        let whole = digits_end(line, col);
        if whole < line.len() {
            lemma_digits_end(line, whole + 1);
        }
    }
}

/// Reads the float literal at column `col` of `line`.
pub fn get_float_literal(line: &Vec<char>, col: usize, row: usize) -> (result: Result<
    Option<(Token, usize)>,
    LexError,
>)
    ensures
        match float_literal(line@, col as int) {
            Scan::Failed(at) => result == Err::<Option<(Token, usize)>, LexError>(
                LexError::InvalidLiteralCharacter { row, col: at as usize },
            ),
            scan => result matches Ok(found) && is_found(found, scan, line@, row as nat, col as int),
        },
{
    if col >= line.len() || !(char_is_digit(line[col]) || line[col] == '.') {
        return Ok(None);
    }
    let whole = skip_digits(line, col);
    let pointed = whole < line.len() && line[whole] == '.';
    let end = if pointed {
        skip_digits(line, whole + 1)
    } else {
        whole
    };
    if end == col + 1 && line[col] == '.' {
        return Ok(None);
    }
    if !at_boundary(line, end) {
        return Err(LexError::InvalidLiteralCharacter { row, col });
    }
    if pointed {
        let token = cut(line, row, col, TokenKind::Literal(LiteralKind::FloatLiteral), end);
        Ok(Some((token, end)))
    } else {
        Ok(None)
    }
}

/// The operator that the `length` characters of `line` from column `col` on
/// spell, if they spell one.
pub open spec fn operator_spelled(line: Seq<char>, col: int, length: int) -> Option<Operator> {
    if 0 <= col && col + length <= line.len() {
        operator_of(line.subrange(col, col + length))
    } else {
        None
    }
}

/// The operator at column `col` of `line`: the longest one that the line
/// spells there.
pub open spec fn operator_at(line: Seq<char>, col: int) -> Scan {
    if let Some(op) = operator_spelled(line, col, 3) {
        Scan::Found(TokenKind::Operator(op), col + 3)
    } else if let Some(op) = operator_spelled(line, col, 2) {
        Scan::Found(TokenKind::Operator(op), col + 2)
    } else if let Some(op) = operator_spelled(line, col, 1) {
        Scan::Found(TokenKind::Operator(op), col + 1)
    } else {
        Scan::Nothing
    }
}

/// An operator is a token of the kind of operators; the line spells it
/// from `col` on, and it ends within the line.
pub proof fn lemma_operator_at_found(line: Seq<char>, col: int)
    ensures
        operator_at(line, col) matches Scan::Found(kind, end) ==> col < end <= line.len() && (
        kind matches TokenKind::Operator(op) && op.spelling() == line.subrange(col, end)),
{
}

/// The operator that `operator_at` finds is the longest possible: in any
/// greater number of characters the line spells no operator from `col` on.
pub proof fn lemma_operator_at_is_longest(line: Seq<char>, col: int, longer: int)
    requires
        0 <= col,
    ensures
        operator_at(line, col) matches Scan::Found(_, end) ==> (end < col + longer <= line.len()
            ==> operator_of(line.subrange(col, col + longer)) is None),
{
    if let Scan::Found(_, end) = operator_at(line, col) {
        if end < col + longer <= line.len() {
            let text = line.subrange(col, col + longer);
            if operator_of(text) is Some {
                lemma_operator_length(operator_of(text)->0);
            }
        }
    }
}

/// Reads the operator at column `col` of `line`. It takes one character,
/// then one more as long as what it has taken with that one spells an
/// operator, and gives the operator that it has then, if it is one.
pub fn get_operator(line: &Vec<char>, col: usize, row: usize) -> (found: Option<(Token, usize)>)
    ensures
        is_found(found, operator_at(line@, col as int), line@, row as nat, col as int),
{
    if col >= line.len() {
        return None;
    }
    let mut end: usize = col + 1;
    while end < line.len() && end - col < 3 && find_operator(line, col, end + 1).is_some()
        invariant
            col < end <= line.len(),
            end - col <= 3,
            forall|length: int| 2 <= length <= end - col ==> operator_spelled(
                line@,
                col as int,
                length,
            ) is Some,
        decreases line.len() - end,
    {
        end += 1;
    }
    proof {
        if col + 3 <= line.len() && operator_spelled(line@, col as int, 3) is Some {
            let text = line@.subrange(col as int, col + 3);
            lemma_operator_prefix(text);
            assert(text.take(2) =~= line@.subrange(col as int, col + 2));
            assert(operator_spelled(line@, col as int, 2) is Some);
        }
    }
    match find_operator(line, col, end) {
        Some(op) => {
            let token = cut(line, row, col, TokenKind::Operator(op), end);
            Some((token, end))
        },
        None => None,
    }
}

/// The column of the first character of `line` at or after `from` that ends
/// a name, or the length of the line.
pub open spec fn word_end(line: Seq<char>, from: int) -> int
    decreases line.len() - from,
{
    if 0 <= from < line.len() && !ends_word(line[from]) {
        word_end(line, from + 1)
    } else {
        from
    }
}

/// The reserved word or the name at column `col` of `line`. It begins with a
/// letter or an underscore and runs up to the next separator or operator, or
/// to the end of the line. It is a reserved word where the table of reserved
/// words holds it, and a name otherwise.
pub open spec fn word_at(line: Seq<char>, col: int) -> Scan {
    if 0 <= col < line.len() && is_word_start(line[col]) {
        let end = word_end(line, col + 1);
        match keyword_of(line.subrange(col, end)) {
            Some(k) => Scan::Found(TokenKind::ReservedWord(k), end),
            None => Scan::Found(TokenKind::Identifier, end),
        }
    } else {
        Scan::Nothing
    }
}

/// A name runs on to a column at or after the one from which its end is
/// sought, and within the line; what stands between ends no name.
pub proof fn lemma_word_end(line: Seq<char>, from: int)
    requires
        0 <= from <= line.len(),
    ensures
        from <= word_end(line, from) <= line.len(),
        forall|i: int| from <= i < word_end(line, from) ==> !ends_word(#[trigger] line[i]),
        is_boundary(line, word_end(line, from)),
    decreases line.len() - from,
{
    if from < line.len() && !ends_word(line[from]) {
        lemma_word_end(line, from + 1);
    }
}

/// A word is a reserved word or a name; it holds a character at least, and
/// ends within the line, before a separator or an operator.
pub proof fn lemma_word_at_found(line: Seq<char>, col: int)
    ensures
        word_at(line, col) matches Scan::Found(kind, end) ==> (kind is ReservedWord || kind
            is Identifier) && col < end <= line.len() && is_boundary(line, end),
{
    if 0 <= col < line.len() {
        lemma_word_end(line, col + 1);
    }
}

/// Reads the reserved word or the name at column `col` of `line`.
pub fn get_reserved_word_or_identifier(line: &Vec<char>, col: usize, row: usize) -> (found: Option<
    (Token, usize),
>)
    ensures
        is_found(found, word_at(line@, col as int), line@, row as nat, col as int),
{
    if col >= line.len() || !char_starts_word(line[col]) {
        return None;
    }
    let mut end: usize = col + 1;
    while end < line.len() && !char_ends_word(line[end])
        invariant
            col < end <= line.len(),
            word_end(line@, end as int) == word_end(line@, col + 1),
        decreases line.len() - end,
    {
        end += 1;
    }
    let kind = match find_keyword(line, col, end) {
        Some(k) => TokenKind::ReservedWord(k),
        None => TokenKind::Identifier,
    };
    let token = cut(line, row, col, kind, end);
    Some((token, end))
}

} // verus!
