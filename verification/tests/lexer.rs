use python_parser::error::LexError;
use python_parser::lexer::{decode_line, read_token, tokenize, Lexer};
use python_parser::token::{Keyword, LiteralKind, Operator, Token, TokenKind};

fn kinds_of(source: &str) -> Vec<TokenKind> {
    tokenize(source.as_bytes()).unwrap().iter().map(|token| token.kind).collect()
}

fn lexemes_of(source: &str) -> Vec<String> {
    tokenize(source.as_bytes()).unwrap().iter().map(|token| token.lexeme.clone()).collect()
}

fn how_many(tokens: &[Token], kind: TokenKind) -> usize {
    tokens.iter().filter(|token| token.kind == kind).count()
}

fn significant(text: &str) -> String {
    text.chars().filter(|c| *c != ' ' && *c != '\t' && *c != '\n').collect()
}

fn chars(text: &str) -> Vec<char> {
    text.chars().collect()
}

const INT: TokenKind = TokenKind::Literal(LiteralKind::IntLiteral);
const FLOAT: TokenKind = TokenKind::Literal(LiteralKind::FloatLiteral);
const STRING: TokenKind = TokenKind::Literal(LiteralKind::StringLiteral);
const ID: TokenKind = TokenKind::Identifier;
const EOS: TokenKind = TokenKind::EndOfStatement;

fn op(operator: Operator) -> TokenKind {
    TokenKind::Operator(operator)
}

fn word(keyword: Keyword) -> TokenKind {
    TokenKind::ReservedWord(keyword)
}

#[test]
fn empty_source_has_no_tokens() {
    assert_eq!(tokenize(b""), Ok(vec![]));
}

#[test]
fn blank_lines_and_comments_have_no_tokens() {
    assert_eq!(tokenize(b"\n   \n\t\n# only a comment\n    # an indented comment\n"), Ok(vec![]));
}

#[test]
fn comment_line_does_not_change_indentation() {
    let tokens = tokenize(b"if x:\n    y = 1\n# back at the margin\n    z = 2\n").unwrap();
    assert_eq!(how_many(&tokens, TokenKind::Indent), 1);
    assert_eq!(how_many(&tokens, TokenKind::Dedent), 1);
    assert_eq!(tokens.last().unwrap().row, 4);
}

#[test]
fn last_line_without_line_feed_ends_its_statement() {
    let tokens = tokenize(b"x = 1").unwrap();
    assert_eq!(tokens.len(), 4);
    assert_eq!(tokens[3], Token::new(EOS, String::new(), 0, 5));
}

#[test]
fn comment_after_code_ends_the_line_without_a_token() {
    assert_eq!(kinds_of("x = 1 # one\n"), vec![ID, op(Operator::Assign), INT]);
}

#[test]
fn statement_without_blanks_ends_with_end_of_statement() {
    assert_eq!(kinds_of("x=1\n"), vec![ID, op(Operator::Assign), INT, EOS]);
    assert_eq!(kinds_of("break\n"), vec![word(Keyword::Break), EOS]);
}

#[test]
fn every_indent_has_its_dedent() {
    let source = b"def f(a):\n  if a:\n      while a:\n          a = 1\n  return a\nx = 2\nif x:\n\tx = 3\n";
    let tokens = tokenize(source).unwrap();
    assert_eq!(how_many(&tokens, TokenKind::Indent), 4);
    assert_eq!(how_many(&tokens, TokenKind::Dedent), 4);
}

#[test]
fn one_line_can_close_several_blocks() {
    let tokens = tokenize(b"a\n  b\n    c\nd\n").unwrap();
    let dedents: Vec<&Token> =
        tokens.iter().filter(|token| token.kind == TokenKind::Dedent).collect();
    assert_eq!(dedents.len(), 2);
    assert_eq!((dedents[0].row, dedents[0].col), (3, 0));
    assert_eq!((dedents[1].row, dedents[1].col), (3, 0));
    assert_eq!(dedents[0].lexeme, "");
}

#[test]
fn dedent_to_an_outer_block_closes_the_inner_ones() {
    let tokens = tokenize(b"a\n  b\n     c\n  d\n").unwrap();
    assert_eq!(how_many(&tokens, TokenKind::Indent), 2);
    assert_eq!(how_many(&tokens, TokenKind::Dedent), 2);
    let rows: Vec<usize> = tokens
        .iter()
        .filter(|token| token.kind == TokenKind::Dedent)
        .map(|token| token.row)
        .collect();
    assert_eq!(rows, vec![3, 4]);
}

#[test]
fn dedent_between_two_blocks_is_invalid() {
    assert_eq!(
        tokenize(b"a\n  b\n     c\n   d\n"),
        Err(LexError::InvalidIndentation { row: 3, col: 3 })
    );
}

#[test]
fn tab_indents_by_one_column() {
    let tokens = tokenize(b"a\n\tb\n c\n").unwrap();
    assert_eq!(how_many(&tokens, TokenKind::Indent), 1);
    assert_eq!(how_many(&tokens, TokenKind::Dedent), 1);
}

#[test]
fn trailing_dedents_stand_in_the_row_after_the_last() {
    let tokens = tokenize(b"a\n b\n  c").unwrap();
    let n = tokens.len();
    assert_eq!(tokens[n - 1], Token::new(TokenKind::Dedent, String::new(), 3, 0));
    assert_eq!(tokens[n - 2], Token::new(TokenKind::Dedent, String::new(), 3, 0));
    assert_eq!(tokens[n - 3].kind, EOS);
}

#[test]
fn longest_operator_wins() {
    assert_eq!(kinds_of("a **= b\n"), vec![ID, op(Operator::DoubleStarAssign), ID, EOS]);
    assert_eq!(lexemes_of("a **= b\n")[1], "**=");
    assert_eq!(kinds_of("a < b\n")[1], op(Operator::Less));
    assert_eq!(kinds_of("a <= b\n")[1], op(Operator::LessEqual));
    assert_eq!(kinds_of("a << b\n")[1], op(Operator::ShiftLeft));
    assert_eq!(kinds_of("a <<= b\n")[1], op(Operator::ShiftLeftAssign));
    assert_eq!(kinds_of("a //= b\n")[1], op(Operator::DoubleSlashAssign));
    assert_eq!(kinds_of("a >>= b\n")[1], op(Operator::ShiftRightAssign));
}

#[test]
fn operators_are_cut_where_no_longer_one_fits() {
    assert_eq!(
        kinds_of("a<<<b\n"),
        vec![ID, op(Operator::ShiftLeft), op(Operator::Less), ID, EOS]
    );
    assert_eq!(
        kinds_of("a===b\n"),
        vec![ID, op(Operator::EqualEqual), op(Operator::Assign), ID, EOS]
    );
    assert_eq!(
        kinds_of("a**-b\n"),
        vec![ID, op(Operator::DoubleStar), op(Operator::Minus), ID, EOS]
    );
}

#[test]
fn not_equal_is_one_operator() {
    assert_eq!(kinds_of("a != b\n"), vec![ID, op(Operator::NotEqual), ID, EOS]);
    assert_eq!(kinds_of("a!=b\n"), vec![ID, op(Operator::NotEqual), ID, EOS]);
}

#[test]
fn exclamation_mark_alone_is_no_token() {
    assert_eq!(tokenize(b"a ! b\n"), Err(LexError::UnrecognizedToken { row: 0, col: 2 }));
}

#[test]
fn unknown_character_is_no_token() {
    assert_eq!(tokenize(b"x = $\n"), Err(LexError::UnrecognizedToken { row: 0, col: 4 }));
    assert_eq!(tokenize(b"\n?\n"), Err(LexError::UnrecognizedToken { row: 1, col: 0 }));
}

#[test]
fn brackets_suppress_indentation_and_line_ends() {
    let source = b"x = [1,\n        2,\n  {3: (4,\n5)}]\ny = 2\n";
    let tokens = tokenize(source).unwrap();
    assert_eq!(how_many(&tokens, TokenKind::Indent), 0);
    assert_eq!(how_many(&tokens, TokenKind::Dedent), 0);
    assert_eq!(how_many(&tokens, EOS), 2);
    let first_end = tokens.iter().position(|token| token.kind == EOS).unwrap();
    assert_eq!(tokens[first_end].row, 3);
    assert_eq!(tokens[first_end - 1].kind, op(Operator::RightBracket));
}

#[test]
fn each_bracket_is_its_own_operator() {
    assert_eq!(
        kinds_of("([{}])\n"),
        vec![
            op(Operator::LeftParen),
            op(Operator::LeftBracket),
            op(Operator::LeftBrace),
            op(Operator::RightBrace),
            op(Operator::RightBracket),
            op(Operator::RightParen),
            EOS,
        ]
    );
    assert_eq!(lexemes_of("([{}])\n"), vec!["(", "[", "{", "}", "]", ")", ""]);
}

#[test]
fn closing_bracket_of_another_shape_is_mismatched() {
    assert_eq!(
        tokenize(b"x = (1]\n"),
        Err(LexError::MismatchedOrUnbalancedBracket { row: 0, col: 6 })
    );
    assert_eq!(
        tokenize(b"{\n)\n"),
        Err(LexError::MismatchedOrUnbalancedBracket { row: 1, col: 0 })
    );
}

#[test]
fn closing_bracket_without_opening_is_unbalanced() {
    assert_eq!(
        tokenize(b"x = 1]\n"),
        Err(LexError::MismatchedOrUnbalancedBracket { row: 0, col: 5 })
    );
    assert_eq!(
        tokenize(b"()}\n"),
        Err(LexError::MismatchedOrUnbalancedBracket { row: 0, col: 2 })
    );
}

#[test]
fn open_bracket_at_the_end_is_no_error() {
    let tokens = tokenize(b"if x:\n    y = (1,\n").unwrap();
    assert_eq!(tokens.last().unwrap().kind, TokenKind::Dedent);
    assert_eq!(how_many(&tokens, EOS), 1);
}

#[test]
fn lexemes_give_back_the_code() {
    let source = "def f(a, b):  # adds\n    s = 'a b' + \"c\\\"d\"\n\n    return (a +\n  b) * 1.5\nx = f(1, 2)\n";
    let code = "def f(a, b):  \n    s = 'a b' + \"c\\\"d\"\n\n    return (a +\n  b) * 1.5\nx = f(1, 2)\n";
    let joined: String = lexemes_of(source).concat();
    assert_eq!(significant(&joined), significant(code));
}

#[test]
fn each_lexeme_is_the_text_at_its_place() {
    let source = "if  x1 >= 10 :\n    name = 'it''s'\n";
    let lines: Vec<Vec<char>> = source.lines().map(|line| line.chars().collect()).collect();
    for token in tokenize(source.as_bytes()).unwrap() {
        let n = token.lexeme.chars().count();
        if n > 0 {
            let text: String = lines[token.row][token.col..token.col + n].iter().collect();
            assert_eq!(text, token.lexeme);
        }
    }
}

#[test]
fn string_keeps_its_quotes_and_blanks() {
    let tokens = tokenize(b"s = \"a  b # c\"\n").unwrap();
    assert_eq!(tokens[2], Token::new(STRING, "\"a  b # c\"".to_string(), 0, 4));
    assert_eq!(tokens[3].kind, EOS);
}

#[test]
fn escaped_quote_does_not_end_a_string() {
    let tokens = tokenize(b"s = 'a\\'b' + 1\n").unwrap();
    assert_eq!(tokens[2], Token::new(STRING, "'a\\'b'".to_string(), 0, 4));
    assert_eq!(tokens[3].kind, op(Operator::Plus));
}

#[test]
fn backslash_before_another_character_is_plain() {
    let tokens = tokenize(b"s = 'a\\nb'\n").unwrap();
    assert_eq!(tokens[2].lexeme, "'a\\nb'");
    let tokens = tokenize(b"s = \"a\\'b\"\n").unwrap();
    assert_eq!(tokens[2].lexeme, "\"a\\'b\"");
}

#[test]
fn backslash_before_the_closing_quote_keeps_the_string_open() {
    assert_eq!(
        tokenize(b"s = 'a\\\\'\n"),
        Err(LexError::UnterminatedStringLiteral { row: 0, col: 9 })
    );
}

#[test]
fn string_open_at_the_end_of_the_text_is_unterminated() {
    assert_eq!(tokenize(b"\n\"abc"), Err(LexError::UnterminatedStringLiteral { row: 1, col: 4 }));
}

#[test]
fn string_holds_characters_beyond_ascii() {
    let source = "s = 'h\u{e9}llo \u{4e16}\u{754c}' + t\n";
    let tokens = tokenize(source.as_bytes()).unwrap();
    assert_eq!(tokens[2], Token::new(STRING, "'h\u{e9}llo \u{4e16}\u{754c}'".to_string(), 0, 4));
    assert_eq!(tokens[3], Token::new(op(Operator::Plus), "+".to_string(), 0, 15));
}

#[test]
fn bytes_that_are_not_utf8_are_refused() {
    assert_eq!(tokenize(&[0x78, 0x20, 0xff, 0x0a]), Err(LexError::InvalidUtf8 { row: 0 }));
    assert_eq!(tokenize(b"x = 1\ny = '\xc3'\n"), Err(LexError::InvalidUtf8 { row: 1 }));
    assert_eq!(tokenize(b"x = '\xe4\xb8'"), Err(LexError::InvalidUtf8 { row: 0 }));
}

#[test]
fn first_error_wins_over_a_later_line_that_is_not_utf8() {
    assert_eq!(
        tokenize(b"x = $\n\xff\n"),
        Err(LexError::UnrecognizedToken { row: 0, col: 4 })
    );
}

#[test]
fn numbers_with_a_point_are_floats() {
    assert_eq!(kinds_of("x = 1.5\n")[2], FLOAT);
    assert_eq!(kinds_of("x = .5\n")[2], FLOAT);
    assert_eq!(kinds_of("x = 5.\n")[2], FLOAT);
    assert_eq!(lexemes_of("x = 12.25+ 3\n")[2], "12.25");
}

#[test]
fn second_point_begins_another_token() {
    assert_eq!(kinds_of("1.2.3\n"), vec![FLOAT, FLOAT, EOS]);
    assert_eq!(lexemes_of("1.2.3\n"), vec!["1.2", ".3", ""]);
}

#[test]
fn point_alone_is_the_member_operator() {
    assert_eq!(kinds_of("a.b\n"), vec![ID, op(Operator::Dot), ID, EOS]);
    assert_eq!(kinds_of("a . b\n"), vec![ID, op(Operator::Dot), ID, EOS]);
    assert_eq!(
        kinds_of("a.(b)\n"),
        vec![ID, op(Operator::Dot), op(Operator::LeftParen), ID, op(Operator::RightParen), EOS]
    );
}

#[test]
fn integer_up_to_the_greatest_32_bit_value_is_a_literal() {
    assert_eq!(kinds_of("x = 2147483647\n")[2], INT);
    assert_eq!(kinds_of("x = 0000000000002147483647\n")[2], INT);
    assert_eq!(kinds_of("x = 0\n")[2], INT);
}

#[test]
fn integer_beyond_32_bits_is_no_token() {
    assert_eq!(tokenize(b"x = 2147483648\n"), Err(LexError::UnrecognizedToken { row: 0, col: 4 }));
    assert_eq!(
        tokenize(b"x = 99999999999999999999999999\n"),
        Err(LexError::UnrecognizedToken { row: 0, col: 4 })
    );
}

#[test]
fn letter_after_digits_is_an_invalid_literal() {
    assert_eq!(tokenize(b"x = 12ab\n"), Err(LexError::InvalidLiteralCharacter { row: 0, col: 4 }));
    assert_eq!(tokenize(b"\n  1.5e3\n"), Err(LexError::InvalidLiteralCharacter { row: 1, col: 2 }));
    assert_eq!(tokenize(b"7'a'\n"), Err(LexError::InvalidLiteralCharacter { row: 0, col: 0 }));
}

#[test]
fn reserved_words_are_told_from_names() {
    assert_eq!(
        kinds_of("for x in y\n"),
        vec![word(Keyword::For), ID, word(Keyword::In), ID, EOS]
    );
    assert_eq!(kinds_of("print\n")[0], word(Keyword::Print));
    assert_eq!(kinds_of("none\n")[0], word(Keyword::NoneValue));
    assert_eq!(kinds_of("None\n")[0], ID);
    assert_eq!(kinds_of("format\n")[0], ID);
    assert_eq!(kinds_of("fo\n")[0], ID);
    assert_eq!(kinds_of("_if\n")[0], ID);
}

#[test]
fn name_runs_up_to_a_separator_or_an_operator() {
    assert_eq!(lexemes_of("ab_1+c2\n"), vec!["ab_1", "+", "c2", ""]);
    assert_eq!(lexemes_of("a#b c\n"), vec!["a#b", "c", ""]);
    assert_eq!(lexemes_of("x\tyz\n"), vec!["x", "yz", ""]);
}

#[test]
fn tokens_carry_row_and_column() {
    let tokens = tokenize(b"a\n  bc = (\n 1)\n").unwrap();
    let places: Vec<(usize, usize)> = tokens.iter().map(|token| (token.row, token.col)).collect();
    assert_eq!(
        places,
        vec![(0, 0), (0, 1), (1, 0), (1, 2), (1, 5), (1, 7), (2, 1), (2, 2), (2, 3), (3, 0)]
    );
}

#[test]
fn read_token_gives_the_token_and_its_end() {
    let line = chars("x = 'ab' # c\n");
    assert_eq!(read_token(&line, 3, 0), Ok((Token::new(ID, "x".to_string(), 3, 0), 1)));
    assert_eq!(
        read_token(&line, 3, 2),
        Ok((Token::new(op(Operator::Assign), "=".to_string(), 3, 2), 3))
    );
    assert_eq!(read_token(&line, 3, 4), Ok((Token::new(STRING, "'ab'".to_string(), 3, 4), 8)));
    assert_eq!(read_token(&line, 3, 9), Err(LexError::UnrecognizedToken { row: 3, col: 9 }));
    assert_eq!(read_token(&line, 3, 50), Err(LexError::UnrecognizedToken { row: 3, col: 50 }));
}

#[test]
fn lexer_reads_line_by_line() {
    let lexer = Lexer::new();
    assert_eq!((lexer.open_blocks(), lexer.open_brackets()), (0, 0));
    let (lexer, first) = lexer.feed_line(&chars("if x:\n"), 0).unwrap();
    assert_eq!(first.len(), 4);
    let (lexer, second) = lexer.feed_line(&chars("    y = [1,\n"), 1).unwrap();
    assert_eq!(second[0], Token::new(TokenKind::Indent, String::new(), 1, 0));
    assert_eq!((lexer.open_blocks(), lexer.open_brackets()), (1, 1));
    let (lexer, third) = lexer.feed_line(&chars("2]\n"), 2).unwrap();
    assert_eq!(third.last().unwrap().kind, EOS);
    assert_eq!((lexer.open_blocks(), lexer.open_brackets()), (1, 0));
    let closing = lexer.finish(3);
    assert_eq!(closing, vec![Token::new(TokenKind::Dedent, String::new(), 3, 0)]);
}

#[test]
fn lexer_reports_the_error_of_a_line() {
    let (lexer, _) = Lexer::new().feed_line(&chars("  a\n"), 0).unwrap();
    let result = lexer.feed_line(&chars(" b\n"), 1);
    assert_eq!(result.err(), Some(LexError::InvalidIndentation { row: 1, col: 1 }));
}

#[test]
fn decode_line_gives_the_characters_of_utf8_bytes() {
    assert_eq!(decode_line(b"x = 1\n"), Some(chars("x = 1\n")));
    assert_eq!(decode_line("h\u{e9} \u{4e16}\u{1f600}".as_bytes()), Some(chars("h\u{e9} \u{4e16}\u{1f600}")));
    assert_eq!(decode_line(b""), Some(vec![]));
    assert_eq!(decode_line(&[0x61, 0x80]), None);
    assert_eq!(decode_line(&[0xc0, 0xaf]), None);
    assert_eq!(decode_line(&[0xed, 0xa0, 0x80]), None);
    assert_eq!(decode_line(&[0xf4, 0x90, 0x80, 0x80]), None);
}
