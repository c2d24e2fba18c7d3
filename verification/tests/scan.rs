use python_parser::error::LexError;
use python_parser::scan::{
    cut, find_keyword, find_operator, get_float_literal, get_int_literal, get_line_indentation,
    get_operator, get_reserved_word_or_identifier, get_string_literal, lexeme_of,
};
use python_parser::token::{Keyword, LiteralKind, Operator, Token, TokenKind};

fn line(text: &str) -> Vec<char> {
    text.chars().collect()
}

fn found(kind: TokenKind, lexeme: &str, row: usize, col: usize, end: usize) -> Option<(Token, usize)> {
    Some((Token::new(kind, lexeme.to_string(), row, col), end))
}

const INT: TokenKind = TokenKind::Literal(LiteralKind::IntLiteral);
const FLOAT: TokenKind = TokenKind::Literal(LiteralKind::FloatLiteral);
const STRING: TokenKind = TokenKind::Literal(LiteralKind::StringLiteral);

#[test]
fn indentation_counts_leading_blanks() {
    assert_eq!(get_line_indentation(&line("")), 0);
    assert_eq!(get_line_indentation(&line("x")), 0);
    assert_eq!(get_line_indentation(&line("    x  y\n")), 4);
    assert_eq!(get_line_indentation(&line("\t \tx")), 3);
    assert_eq!(get_line_indentation(&line("   ")), 3);
    assert_eq!(get_line_indentation(&line("  \n")), 2);
}

#[test]
fn lexeme_is_the_text_between_two_columns() {
    let text = line("ab 'c d' \u{e9}f");
    assert_eq!(lexeme_of(&text, 0, 2), "ab");
    assert_eq!(lexeme_of(&text, 3, 8), "'c d'");
    assert_eq!(lexeme_of(&text, 9, 11), "\u{e9}f");
    assert_eq!(lexeme_of(&text, 4, 4), "");
    assert_eq!(lexeme_of(&text, 0, 11), "ab 'c d' \u{e9}f");
}

#[test]
fn cut_makes_the_token_of_a_stretch_of_text() {
    let text = line("x <= y");
    assert_eq!(
        cut(&text, 5, 2, TokenKind::Operator(Operator::LessEqual), 4),
        Token::new(TokenKind::Operator(Operator::LessEqual), "<=".to_string(), 5, 2)
    );
}

#[test]
fn keywords_are_found_by_their_spelling() {
    let text = line("if elif else iff I");
    assert_eq!(find_keyword(&text, 0, 2), Some(Keyword::If));
    assert_eq!(find_keyword(&text, 3, 7), Some(Keyword::Elif));
    assert_eq!(find_keyword(&text, 5, 7), Some(Keyword::If));
    assert_eq!(find_keyword(&text, 8, 12), Some(Keyword::Else));
    assert_eq!(find_keyword(&text, 13, 16), None);
    assert_eq!(find_keyword(&text, 17, 18), None);
    assert_eq!(find_keyword(&text, 3, 3), None);
    for i in 0..33 {
        let keyword = Keyword::from_ordinal(i);
        let spelled = line(keyword.text());
        assert_eq!(find_keyword(&spelled, 0, spelled.len()), Some(keyword));
    }
}

#[test]
fn operators_are_found_by_their_spelling() {
    let text = line("<<= != ! <>");
    assert_eq!(find_operator(&text, 0, 3), Some(Operator::ShiftLeftAssign));
    assert_eq!(find_operator(&text, 0, 2), Some(Operator::ShiftLeft));
    assert_eq!(find_operator(&text, 1, 3), Some(Operator::LessEqual));
    assert_eq!(find_operator(&text, 4, 6), Some(Operator::NotEqual));
    assert_eq!(find_operator(&text, 7, 8), None);
    assert_eq!(find_operator(&text, 9, 11), None);
    assert_eq!(find_operator(&text, 3, 4), None);
    assert_eq!(find_operator(&text, 2, 2), None);
    for i in 0..44 {
        let operator = Operator::from_ordinal(i);
        let spelled = line(operator.text());
        assert_eq!(find_operator(&spelled, 0, spelled.len()), Some(operator));
    }
}

#[test]
fn string_literal_runs_to_its_closing_quote() {
    let text = line("s = 'ab' + \"c'd\"\n");
    assert_eq!(get_string_literal(&text, '\'', 4, 2), Ok(found(STRING, "'ab'", 2, 4, 8)));
    assert_eq!(get_string_literal(&text, '"', 11, 2), Ok(found(STRING, "\"c'd\"", 2, 11, 16)));
    assert_eq!(get_string_literal(&line("''"), '\'', 0, 0), Ok(found(STRING, "''", 0, 0, 2)));
}

#[test]
fn string_literal_begins_with_its_delimiter_only() {
    let text = line("s = 'ab'\n");
    assert_eq!(get_string_literal(&text, '"', 4, 0), Ok(None));
    assert_eq!(get_string_literal(&text, '\'', 0, 0), Ok(None));
    assert_eq!(get_string_literal(&text, '\'', 9, 0), Ok(None));
    assert_eq!(get_string_literal(&text, '\'', 100, 0), Ok(None));
}

#[test]
fn string_literal_keeps_escaped_delimiters() {
    let text = line("'a\\'b\\\\' x'\n");
    assert_eq!(get_string_literal(&text, '\'', 0, 0), Ok(found(STRING, "'a\\'b\\\\' x'", 0, 0, 11)));
    let other = line("\"a\\'b\"");
    assert_eq!(get_string_literal(&other, '"', 0, 0), Ok(found(STRING, "\"a\\'b\"", 0, 0, 6)));
}

#[test]
fn string_literal_fails_at_the_line_feed() {
    assert_eq!(
        get_string_literal(&line("x 'ab\ncd'"), '\'', 2, 6),
        Err(LexError::UnterminatedStringLiteral { row: 6, col: 5 })
    );
    assert_eq!(
        get_string_literal(&line("'ab"), '\'', 0, 1),
        Err(LexError::UnterminatedStringLiteral { row: 1, col: 3 })
    );
    assert_eq!(
        get_string_literal(&line("'ab\\"), '\'', 0, 1),
        Err(LexError::UnterminatedStringLiteral { row: 1, col: 4 })
    );
    assert_eq!(
        get_string_literal(&line("'"), '\'', 0, 0),
        Err(LexError::UnterminatedStringLiteral { row: 0, col: 1 })
    );
}

#[test]
fn int_literal_is_a_run_of_digits() {
    assert_eq!(get_int_literal(&line("x = 120\n"), 4, 1), Ok(found(INT, "120", 1, 4, 7)));
    assert_eq!(get_int_literal(&line("7"), 0, 0), Ok(found(INT, "7", 0, 0, 1)));
    assert_eq!(get_int_literal(&line("12+3"), 0, 0), Ok(found(INT, "12", 0, 0, 2)));
    assert_eq!(get_int_literal(&line("12.5"), 0, 0), Ok(found(INT, "12", 0, 0, 2)));
    assert_eq!(get_int_literal(&line("123 "), 1, 0), Ok(found(INT, "23", 0, 1, 3)));
}

#[test]
fn int_literal_begins_with_a_digit_only() {
    assert_eq!(get_int_literal(&line("x1"), 0, 0), Ok(None));
    assert_eq!(get_int_literal(&line("-1"), 0, 0), Ok(None));
    assert_eq!(get_int_literal(&line(".5"), 0, 0), Ok(None));
    assert_eq!(get_int_literal(&line("1"), 1, 0), Ok(None));
    assert_eq!(get_int_literal(&line("\u{0663}"), 0, 0), Ok(None));
}

#[test]
fn int_literal_has_to_fit_32_bits() {
    assert_eq!(
        get_int_literal(&line("2147483647"), 0, 0),
        Ok(found(INT, "2147483647", 0, 0, 10))
    );
    assert_eq!(get_int_literal(&line("2147483648"), 0, 0), Ok(None));
    assert_eq!(get_int_literal(&line("4294967297 "), 0, 0), Ok(None));
    assert_eq!(get_int_literal(&line("18446744073709551617"), 0, 0), Ok(None));
    assert_eq!(
        get_int_literal(&line("00000000000000000000000042"), 0, 0),
        Ok(found(INT, "00000000000000000000000042", 0, 0, 26))
    );
}

#[test]
fn int_literal_fails_where_a_letter_follows() {
    assert_eq!(
        get_int_literal(&line("  12x"), 2, 3),
        Err(LexError::InvalidLiteralCharacter { row: 3, col: 2 })
    );
    assert_eq!(
        get_int_literal(&line("1_000"), 0, 0),
        Err(LexError::InvalidLiteralCharacter { row: 0, col: 0 })
    );
    assert_eq!(
        get_int_literal(&line("99999999999#"), 0, 0),
        Err(LexError::InvalidLiteralCharacter { row: 0, col: 0 })
    );
}

#[test]
fn float_literal_has_one_point() {
    assert_eq!(get_float_literal(&line("1.5\n"), 0, 0), Ok(found(FLOAT, "1.5", 0, 0, 3)));
    assert_eq!(get_float_literal(&line("x=.25)"), 2, 4), Ok(found(FLOAT, ".25", 4, 2, 5)));
    assert_eq!(get_float_literal(&line("10."), 0, 0), Ok(found(FLOAT, "10.", 0, 0, 3)));
    assert_eq!(get_float_literal(&line("1.2.3"), 0, 0), Ok(found(FLOAT, "1.2", 0, 0, 3)));
    assert_eq!(get_float_literal(&line("1..2"), 0, 0), Ok(found(FLOAT, "1.", 0, 0, 2)));
}

#[test]
fn float_literal_is_neither_digits_alone_nor_a_point_alone() {
    assert_eq!(get_float_literal(&line("15 "), 0, 0), Ok(None));
    assert_eq!(get_float_literal(&line("15"), 0, 0), Ok(None));
    assert_eq!(get_float_literal(&line(". "), 0, 0), Ok(None));
    assert_eq!(get_float_literal(&line("."), 0, 0), Ok(None));
    assert_eq!(get_float_literal(&line(".x"), 0, 0), Ok(None));
    assert_eq!(get_float_literal(&line(".("), 0, 0), Ok(None));
    assert_eq!(get_float_literal(&line(".."), 0, 0), Ok(None));
    assert_eq!(get_float_literal(&line("x"), 0, 0), Ok(None));
    assert_eq!(get_float_literal(&line("1.5"), 3, 0), Ok(None));
}

#[test]
fn float_literal_fails_where_a_letter_follows() {
    assert_eq!(
        get_float_literal(&line("1.5e3"), 0, 2),
        Err(LexError::InvalidLiteralCharacter { row: 2, col: 0 })
    );
    assert_eq!(
        get_float_literal(&line(" 12abc"), 1, 0),
        Err(LexError::InvalidLiteralCharacter { row: 0, col: 1 })
    );
    assert_eq!(
        get_float_literal(&line(".5'"), 0, 0),
        Err(LexError::InvalidLiteralCharacter { row: 0, col: 0 })
    );
}

#[test]
fn operator_is_the_longest_that_fits() {
    let op = |operator| TokenKind::Operator(operator);
    assert_eq!(get_operator(&line("**=1"), 0, 0), found(op(Operator::DoubleStarAssign), "**=", 0, 0, 3));
    assert_eq!(get_operator(&line("**=1"), 1, 0), found(op(Operator::StarAssign), "*=", 0, 1, 3));
    assert_eq!(get_operator(&line("**=1"), 2, 0), found(op(Operator::Assign), "=", 0, 2, 3));
    assert_eq!(get_operator(&line("** ="), 0, 0), found(op(Operator::DoubleStar), "**", 0, 0, 2));
    assert_eq!(get_operator(&line("*"), 0, 9), found(op(Operator::Star), "*", 9, 0, 1));
    assert_eq!(get_operator(&line("<<"), 0, 0), found(op(Operator::ShiftLeft), "<<", 0, 0, 2));
    assert_eq!(get_operator(&line("<>"), 0, 0), found(op(Operator::Less), "<", 0, 0, 1));
    assert_eq!(get_operator(&line("!=="), 0, 0), found(op(Operator::NotEqual), "!=", 0, 0, 2));
    assert_eq!(get_operator(&line("(("), 0, 0), found(op(Operator::LeftParen), "(", 0, 0, 1));
    assert_eq!(get_operator(&line("=)"), 0, 0), found(op(Operator::Assign), "=", 0, 0, 1));
}

#[test]
fn operator_is_not_found_where_none_is_spelled() {
    assert_eq!(get_operator(&line("a+"), 0, 0), None);
    assert_eq!(get_operator(&line("!"), 0, 0), None);
    assert_eq!(get_operator(&line("!a"), 0, 0), None);
    assert_eq!(get_operator(&line("! ="), 0, 0), None);
    assert_eq!(get_operator(&line("#"), 0, 0), None);
    assert_eq!(get_operator(&line("+"), 1, 0), None);
    assert_eq!(get_operator(&line(""), 0, 0), None);
}

#[test]
fn word_is_a_reserved_word_or_a_name() {
    let id = TokenKind::Identifier;
    assert_eq!(
        get_reserved_word_or_identifier(&line("while x:"), 0, 0),
        found(TokenKind::ReservedWord(Keyword::While), "while", 0, 0, 5)
    );
    assert_eq!(get_reserved_word_or_identifier(&line("while x:"), 6, 2), found(id, "x", 2, 6, 7));
    assert_eq!(get_reserved_word_or_identifier(&line("whiles"), 0, 0), found(id, "whiles", 0, 0, 6));
    assert_eq!(get_reserved_word_or_identifier(&line("While"), 0, 0), found(id, "While", 0, 0, 5));
    assert_eq!(get_reserved_word_or_identifier(&line("_a1$b'c=2"), 0, 0), found(id, "_a1$b'c", 0, 0, 7));
    assert_eq!(
        get_reserved_word_or_identifier(&line("notin"), 3, 0),
        found(TokenKind::ReservedWord(Keyword::In), "in", 0, 3, 5)
    );
}

#[test]
fn word_begins_with_a_letter_or_an_underscore_only() {
    assert_eq!(get_reserved_word_or_identifier(&line("1a"), 0, 0), None);
    assert_eq!(get_reserved_word_or_identifier(&line(" a"), 0, 0), None);
    assert_eq!(get_reserved_word_or_identifier(&line("\u{e9}t\u{e9}"), 0, 0), None);
    assert_eq!(get_reserved_word_or_identifier(&line("a"), 1, 0), None);
    assert_eq!(get_reserved_word_or_identifier(&line("=a"), 0, 0), None);
}
