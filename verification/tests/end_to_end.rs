use python_parser::error::LexError;
use python_parser::lexer::tokenize;
use python_parser::parser::parse;
use python_parser::token::{Keyword, LiteralKind, Operator, Token, TokenKind};

fn kinds(tokens: &[Token]) -> Vec<TokenKind> {
    tokens.iter().map(|token| token.kind).collect()
}

fn count(tokens: &[Token], kind: TokenKind) -> usize {
    tokens.iter().filter(|token| token.kind == kind).count()
}

#[test]
fn assignment_gives_four_tokens_and_parses() {
    let tokens = tokenize(b"x = 1\n").unwrap();
    assert_eq!(
        tokens,
        vec![
            Token::new(TokenKind::Identifier, "x".to_string(), 0, 0),
            Token::new(TokenKind::Operator(Operator::Assign), "=".to_string(), 0, 2),
            Token::new(TokenKind::Literal(LiteralKind::IntLiteral), "1".to_string(), 0, 4),
            Token::new(TokenKind::EndOfStatement, String::new(), 0, 5),
        ]
    );
    assert_eq!(parse(&tokens), Ok(()));
}

#[test]
fn dedent_to_unknown_level_is_invalid_indentation() {
    let result = tokenize(b"if x:\n    y = 1\n z = 2\n");
    assert_eq!(result, Err(LexError::InvalidIndentation { row: 2, col: 1 }));
}

#[test]
fn function_definition_gives_one_indent_and_one_trailing_dedent() {
    let tokens = tokenize(b"def f():\n    return 1\n").unwrap();
    assert_eq!(
        kinds(&tokens),
        vec![
            TokenKind::ReservedWord(Keyword::Def),
            TokenKind::Identifier,
            TokenKind::Operator(Operator::LeftParen),
            TokenKind::Operator(Operator::RightParen),
            TokenKind::Operator(Operator::Colon),
            TokenKind::EndOfStatement,
            TokenKind::Indent,
            TokenKind::ReservedWord(Keyword::Return),
            TokenKind::Literal(LiteralKind::IntLiteral),
            TokenKind::EndOfStatement,
            TokenKind::Dedent,
        ]
    );
    assert_eq!(count(&tokens, TokenKind::Indent), 1);
    assert_eq!(count(&tokens, TokenKind::Dedent), 1);
    let last = tokens.last().unwrap();
    assert_eq!((last.kind, last.row, last.col), (TokenKind::Dedent, 2, 0));
    assert_eq!(parse(&tokens), Ok(()));
}

#[test]
fn string_without_closing_quote_is_unterminated() {
    let result = tokenize(b"x = 'abc\n");
    assert_eq!(result, Err(LexError::UnterminatedStringLiteral { row: 0, col: 8 }));
}

#[test]
fn line_end_inside_parentheses_gives_no_layout_token() {
    let tokens = tokenize(b"(1,\n2)\n").unwrap();
    assert_eq!(
        kinds(&tokens),
        vec![
            TokenKind::Operator(Operator::LeftParen),
            TokenKind::Literal(LiteralKind::IntLiteral),
            TokenKind::Operator(Operator::Comma),
            TokenKind::Literal(LiteralKind::IntLiteral),
            TokenKind::Operator(Operator::RightParen),
            TokenKind::EndOfStatement,
        ]
    );
    assert_eq!(tokens[3].row, 1);
    assert_eq!(tokens[5].row, 1);
}

#[test]
fn stray_closing_parenthesis_is_unbalanced() {
    let result = tokenize(b")");
    assert_eq!(result, Err(LexError::MismatchedOrUnbalancedBracket { row: 0, col: 0 }));
}
