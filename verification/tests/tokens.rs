use python_parser::chars::{
    char_acts_as_separator, char_defines_operator, char_ends_word, char_is_blank, char_is_digit,
    char_starts_word,
};
use python_parser::token::{
    Keyword, LiteralKind, Operator, Token, TokenKind, KEYWORD_COUNT, KIND_COUNT, OPERATOR_COUNT,
};

#[test]
fn there_are_33_reserved_words_and_44_operators() {
    assert_eq!(KEYWORD_COUNT, 33);
    assert_eq!(OPERATOR_COUNT, 44);
    assert_eq!(KIND_COUNT, 5 + 3 + 33 + 44);
}

#[test]
fn reserved_words_are_numbered_in_order() {
    for i in 0..KEYWORD_COUNT {
        assert_eq!(Keyword::from_ordinal(i).ordinal(), i);
    }
    assert_eq!(Keyword::from_ordinal(0), Keyword::And);
    assert_eq!(Keyword::from_ordinal(32), Keyword::Yield);
}

#[test]
fn reserved_words_are_spelled_in_lower_case() {
    let spellings: Vec<&str> = (0..KEYWORD_COUNT).map(|i| Keyword::from_ordinal(i).text()).collect();
    assert_eq!(
        spellings,
        vec![
            "and", "as", "assert", "break", "class", "continue", "def", "del", "elif", "else",
            "except", "exec", "finally", "for", "from", "global", "if", "import", "in", "is",
            "lambda", "none", "nonlocal", "not", "or", "pass", "print", "raise", "return", "try",
            "while", "with", "yield",
        ]
    );
}

#[test]
fn reserved_words_are_named_after_their_spelling() {
    for i in 0..KEYWORD_COUNT {
        let keyword = Keyword::from_ordinal(i);
        assert_eq!(
            keyword.symbolic_name(),
            format!("RWORD{{{}}}", keyword.text().to_uppercase())
        );
    }
}

#[test]
fn operators_are_numbered_in_order() {
    for i in 0..OPERATOR_COUNT {
        assert_eq!(Operator::from_ordinal(i).ordinal(), i);
    }
    assert_eq!(Operator::from_ordinal(0), Operator::Plus);
    assert_eq!(Operator::from_ordinal(43), Operator::DoubleStarAssign);
}

#[test]
fn operators_have_their_spellings() {
    let spellings: Vec<&str> =
        (0..OPERATOR_COUNT).map(|i| Operator::from_ordinal(i).text()).collect();
    assert_eq!(
        spellings,
        vec![
            "+", "-", "*", "/", "%", "&", "|", "^", "~", "<", ">", "(", ")", "[", "]", "{", "}",
            ",", ":", ".", ";", "@", "=", "**", "//", "<<", ">>", "<=", ">=", "==", "!=", "+=",
            "-=", "*=", "/=", "//=", "%=", "@=", "&=", "|=", "^=", ">>=", "<<=", "**=",
        ]
    );
}

#[test]
fn operators_have_their_symbolic_names() {
    let names: Vec<&str> =
        (0..OPERATOR_COUNT).map(|i| Operator::from_ordinal(i).symbolic_name()).collect();
    assert_eq!(
        names,
        vec![
            "OPERATOR{MAIS}",
            "OPERATOR{MENOS}",
            "OPERATOR{VEZES}",
            "OPERATOR{BARRA}",
            "OPERATOR{PORCENTO}",
            "OPERATOR{ECOMERCIAL}",
            "OPERATOR{PIPE}",
            "OPERATOR{CIRCUMFLEXO}",
            "OPERATOR{TIL}",
            "OPERATOR{MENOR}",
            "OPERATOR{MAIOR}",
            "OPERATOR{PARENTESES_ESQUERDO}",
            "OPERATOR{PARENTESES_DIREITO}",
            "OPERATOR{COLCHETES_ESQUERDO}",
            "OPERATOR{COLCHETES_DIREITO}",
            "OPERATOR{CHAVES_ESQUERDA}",
            "OPERATOR{CHAVES_DIREITA}",
            "OPERATOR{VIRGULA}",
            "OPERATOR{DOIS_PONTOS}",
            "OPERATOR{PONTO}",
            "OPERATOR{PONTO_VIRGULA}",
            "OPERATOR{ARROBA}",
            "OPERATOR{IGUAL}",
            "OPERATOR{NOME_PARAMETRO}",
            "OPERATOR{BARRA_DUPLA}",
            "OPERATOR{SHIFT_LEFT}",
            "OPERATOR{SHIFT_RIGHT}",
            "OPERATOR{MENOR_IGUAL}",
            "OPERATOR{MAIOR_IGUAL}",
            "OPERATOR{IGUAL_IGUAL}",
            "OPERATOR{DIFERENTE}",
            "OPERATOR{MAIS_IGUAL}",
            "OPERATOR{MENOS_IGUAL}",
            "OPERATOR{VEZES_IGUAL}",
            "OPERATOR{BARRA_IGUAL}",
            "OPERATOR{BARRA_DUPLA_IGUAL}",
            "OPERATOR{PORCENTO_IGUAL}",
            "OPERATOR{ARROBA_IGUAL}",
            "OPERATOR{ECOMERCIAL_IGUAL}",
            "OPERATOR{PIPE_IGUAL}",
            "OPERATOR{CIRCUMFLEXO_IGUAL}",
            "OPERATOR{SHIFT_RIGHT_IGUAL}",
            "OPERATOR{SHIFT_LEFT_IGUAL}",
            "OPERATOR{DUPLO_ASTERISCO_IGUAL}",
        ]
    );
}

#[test]
fn kinds_have_their_symbolic_names() {
    assert_eq!(TokenKind::Indent.symbolic_name(), "INDENT");
    assert_eq!(TokenKind::Dedent.symbolic_name(), "DEDENT");
    assert_eq!(TokenKind::Identifier.symbolic_name(), "ID");
    assert_eq!(TokenKind::EndOfStatement.symbolic_name(), "EOS");
    assert_eq!(TokenKind::EndOfInput.symbolic_name(), "END");
    assert_eq!(TokenKind::ReservedWord(Keyword::Def).symbolic_name(), "RWORD{DEF}");
    assert_eq!(TokenKind::Operator(Operator::Colon).symbolic_name(), "OPERATOR{DOIS_PONTOS}");
    assert_eq!(TokenKind::Literal(LiteralKind::IntLiteral).symbolic_name(), "LITERAL{INT}");
    assert_eq!(TokenKind::Literal(LiteralKind::FloatLiteral).symbolic_name(), "LITERAL{FLOAT}");
    assert_eq!(TokenKind::Literal(LiteralKind::StringLiteral).symbolic_name(), "LITERAL{STRING}");
    assert_eq!(LiteralKind::StringLiteral.symbolic_name(), "LITERAL{STRING}");
}

#[test]
fn kinds_are_numbered_apart() {
    let kinds: Vec<TokenKind> = (0..KIND_COUNT).map(TokenKind::from_ordinal).collect();
    for (i, kind) in kinds.iter().enumerate() {
        assert_eq!(kind.ordinal(), i);
        for other in &kinds[..i] {
            assert_ne!(kind, other);
        }
    }
    assert_eq!(TokenKind::from_ordinal(4), TokenKind::EndOfInput);
    assert_eq!(TokenKind::from_ordinal(7), TokenKind::Literal(LiteralKind::StringLiteral));
    assert_eq!(TokenKind::from_ordinal(8), TokenKind::ReservedWord(Keyword::And));
    assert_eq!(TokenKind::from_ordinal(41), TokenKind::Operator(Operator::Plus));
    assert_eq!(TokenKind::from_ordinal(84), TokenKind::Operator(Operator::DoubleStarAssign));
}

#[test]
fn token_holds_what_it_is_made_of() {
    let token = Token::new(TokenKind::Identifier, "name".to_string(), 3, 7);
    assert_eq!(token.kind, TokenKind::Identifier);
    assert_eq!(token.lexeme, "name");
    assert_eq!(token.row, 3);
    assert_eq!(token.col, 7);
}

#[test]
fn separators_are_space_tab_and_line_feed() {
    let separators: Vec<char> = (0u8..128).map(|b| b as char).filter(|c| char_acts_as_separator(*c)).collect();
    assert_eq!(separators, vec!['\t', '\n', ' ']);
    assert!(!char_acts_as_separator('\r'));
    assert!(!char_acts_as_separator('\u{a0}'));
    let blanks: Vec<char> = (0u8..128).map(|b| b as char).filter(|c| char_is_blank(*c)).collect();
    assert_eq!(blanks, vec!['\t', ' ']);
}

#[test]
fn characters_that_begin_an_operator_are_those_of_the_table() {
    let found: String = (0u8..128).map(|b| b as char).filter(|c| char_defines_operator(*c)).collect();
    assert_eq!(found, "!%&()*+,-./:;<=>@[]^{|}~");
    for i in 0..OPERATOR_COUNT {
        let first = Operator::from_ordinal(i).text().chars().next().unwrap();
        assert!(char_defines_operator(first));
    }
    assert!(!char_defines_operator('#'));
    assert!(!char_defines_operator('\u{d7}'));
}

#[test]
fn digits_are_the_ten_of_ascii() {
    let digits: String = (0u8..128).map(|b| b as char).filter(|c| char_is_digit(*c)).collect();
    assert_eq!(digits, "0123456789");
    assert!(!char_is_digit('\u{0663}'));
    assert!(!char_is_digit('\u{b2}'));
}

#[test]
fn names_begin_with_a_letter_or_an_underscore() {
    let starts: String = (0u8..128).map(|b| b as char).filter(|c| char_starts_word(*c)).collect();
    assert_eq!(starts, "ABCDEFGHIJKLMNOPQRSTUVWXYZ_abcdefghijklmnopqrstuvwxyz");
    assert!(!char_starts_word('\u{e9}'));
}

#[test]
fn names_end_at_separators_and_operators() {
    assert!(char_ends_word(' '));
    assert!(char_ends_word('\n'));
    assert!(char_ends_word('='));
    assert!(char_ends_word('!'));
    assert!(!char_ends_word('#'));
    assert!(!char_ends_word('\''));
    assert!(!char_ends_word('a'));
    assert!(!char_ends_word('1'));
}
