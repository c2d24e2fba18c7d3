use python_parser::error::SyntaxError;
use python_parser::grammar::{generate_lookup_table, Nonterminal, Symbol};
use python_parser::lexer::tokenize;
use python_parser::parser::{advance, parse, parse_with_table, refusal, Step};
use python_parser::token::{Keyword, LiteralKind, Operator, Token, TokenKind};

fn check(source: &str) -> Result<(), SyntaxError> {
    parse(&tokenize(source.as_bytes()).unwrap())
}

fn token(kind: TokenKind, row: usize, col: usize) -> Token {
    Token::new(kind, String::new(), row, col)
}

#[test]
fn empty_token_sequence_is_a_program() {
    assert_eq!(parse(&vec![]), Ok(()));
    assert_eq!(check(""), Ok(()));
    assert_eq!(check("# nothing\n\n"), Ok(()));
}

#[test]
fn simple_statements_parse() {
    assert_eq!(check("x = 1\ny += x\nz -= 2.5\nw *= 'a'\nv /= (x)\n"), Ok(()));
    assert_eq!(check("f(1)\nf(x, y + 1, 'z')\n"), Ok(()));
    assert_eq!(check("while x:\n    break\n"), Ok(()));
    assert_eq!(check("while x:\n    continue\n"), Ok(()));
}

#[test]
fn function_definitions_parse() {
    assert_eq!(check("def f():\n    return 1\n"), Ok(()));
    assert_eq!(check("def f(a):\n    return a\n"), Ok(()));
    assert_eq!(check("def f(a, b, c):\n    return a, b + c\n"), Ok(()));
    assert_eq!(check("def f(a):\n    def g(b):\n        return b\n    return g(a)\n"), Ok(()));
}

#[test]
fn loops_parse() {
    assert_eq!(check("for x in xs:\n    f(x)\n"), Ok(()));
    assert_eq!(check("while x < 10:\n    x += 1\n"), Ok(()));
    assert_eq!(check("while not x:\n    x = 1\n"), Ok(()));
}

#[test]
fn conditionals_parse() {
    assert_eq!(check("if x:\n    y = 1\n"), Ok(()));
    assert_eq!(check("if x:\n    y = 1\nelse:\n    y = 2\n"), Ok(()));
    assert_eq!(check("if x:\n    y = 1\nelif z:\n    y = 2\n"), Ok(()));
    assert_eq!(check("if x:\n    y = 1\nelif z:\n    y = 2\nelif w:\n    y = 3\nelse:\n    y = 4\n"), Ok(()));
}

#[test]
fn any_statement_can_follow_a_conditional() {
    assert_eq!(check("if x:\n    y = 1\nz = 2\n"), Ok(()));
    assert_eq!(check("if x:\n    y = 1\nwhile z:\n    z = 0\n"), Ok(()));
    assert_eq!(check("if x:\n    y = 1\nif z:\n    z = 0\n"), Ok(()));
    assert_eq!(check("if x:\n    y = 1\nfor a in b:\n    f(a)\n"), Ok(()));
    assert_eq!(check("if x:\n    y = 1\ndef f(a):\n    return a\n"), Ok(()));
    assert_eq!(check("while a:\n    if x:\n        y = 1\n    if z:\n        break\n"), Ok(()));
}

#[test]
fn expressions_of_each_level_parse() {
    assert_eq!(check("x = a and b\n"), Ok(()));
    assert_eq!(check("x = a or b and c or d\n"), Ok(()));
    assert_eq!(check("x = not a\n"), Ok(()));
    assert_eq!(check("x = a == b\nx = a != b\nx = a < b\nx = a <= b\nx = a > b\nx = a >= b\n"), Ok(()));
    assert_eq!(check("x = a * b / c ^ d\n"), Ok(()));
    assert_eq!(check("x = a + b - c\n"), Ok(()));
    assert_eq!(check("x = a + b * c - d == e and f(g) or 1.5 < 'h'\n"), Ok(()));
}

#[test]
fn parenthesized_operand_can_stand_first() {
    assert_eq!(check("x = (a) * b\n"), Ok(()));
    assert_eq!(check("x = (a) + b\n"), Ok(()));
    assert_eq!(check("x = (a + b) / (c - d) ^ (e)\n"), Ok(()));
    assert_eq!(check("x = ((a))\n"), Ok(()));
}

#[test]
fn statement_over_several_lines_parses() {
    assert_eq!(check("x = f(1,\n      2,\n  3)\ny = 1\n"), Ok(()));
}

#[test]
fn call_needs_an_argument() {
    assert_eq!(
        check("f()\n"),
        Err(SyntaxError::NoApplicableProduction {
            nonterminal: Nonterminal::ExpressionList,
            found: TokenKind::Operator(Operator::RightParen),
            row: 0,
            col: 2,
        })
    );
}

#[test]
fn return_needs_an_expression() {
    assert_eq!(
        check("def f(a):\n    return\n"),
        Err(SyntaxError::NoApplicableProduction {
            nonterminal: Nonterminal::ExpressionList,
            found: TokenKind::EndOfStatement,
            row: 1,
            col: 10,
        })
    );
}

#[test]
fn missing_operand_has_no_production() {
    assert_eq!(
        check("x = \n"),
        Err(SyntaxError::NoApplicableProduction {
            nonterminal: Nonterminal::Expression,
            found: TokenKind::EndOfStatement,
            row: 0,
            col: 4,
        })
    );
    assert_eq!(
        check("x = 1 +\n"),
        Err(SyntaxError::NoApplicableProduction {
            nonterminal: Nonterminal::Sum,
            found: TokenKind::EndOfStatement,
            row: 0,
            col: 7,
        })
    );
}

#[test]
fn token_of_another_kind_than_expected_is_reported() {
    assert_eq!(
        check("def 1 \n"),
        Err(SyntaxError::UnexpectedToken {
            expected: TokenKind::Identifier,
            found: TokenKind::Literal(LiteralKind::IntLiteral),
            row: 0,
            col: 4,
        })
    );
    assert_eq!(
        check("for x of y:\n    f(x)\n"),
        Err(SyntaxError::UnexpectedToken {
            expected: TokenKind::ReservedWord(Keyword::In),
            found: TokenKind::Identifier,
            row: 0,
            col: 6,
        })
    );
    assert_eq!(
        check("x = (1 : 2)\n"),
        Err(SyntaxError::UnexpectedToken {
            expected: TokenKind::Operator(Operator::RightParen),
            found: TokenKind::Operator(Operator::Colon),
            row: 0,
            col: 7,
        })
    );
}

#[test]
fn end_of_the_sequence_is_reported_at_the_last_token() {
    let tokens = vec![
        token(TokenKind::ReservedWord(Keyword::For), 2, 4),
        token(TokenKind::Identifier, 2, 8),
    ];
    assert_eq!(
        parse(&tokens),
        Err(SyntaxError::UnexpectedToken {
            expected: TokenKind::ReservedWord(Keyword::In),
            found: TokenKind::EndOfInput,
            row: 2,
            col: 8,
        })
    );
    assert_eq!(
        check("x = (1 \n"),
        Err(SyntaxError::NoApplicableProduction {
            nonterminal: Nonterminal::SumTail,
            found: TokenKind::EndOfInput,
            row: 0,
            col: 5,
        })
    );
}

#[test]
fn statement_cannot_begin_with_any_token() {
    assert_eq!(
        check("1 + 2\n"),
        Err(SyntaxError::NoApplicableProduction {
            nonterminal: Nonterminal::StatementList,
            found: TokenKind::Literal(LiteralKind::IntLiteral),
            row: 0,
            col: 0,
        })
    );
    assert_eq!(
        check("x = 1\nprint x\n"),
        Err(SyntaxError::NoApplicableProduction {
            nonterminal: Nonterminal::StatementListTail,
            found: TokenKind::ReservedWord(Keyword::Print),
            row: 1,
            col: 0,
        })
    );
    assert_eq!(
        check("x\n"),
        Err(SyntaxError::NoApplicableProduction {
            nonterminal: Nonterminal::ExpressionStatementTail,
            found: TokenKind::EndOfStatement,
            row: 0,
            col: 1,
        })
    );
}

#[test]
fn block_has_to_follow_a_header() {
    assert_eq!(
        check("def f(a):\n"),
        Err(SyntaxError::NoApplicableProduction {
            nonterminal: Nonterminal::Block,
            found: TokenKind::EndOfInput,
            row: 0,
            col: 9,
        })
    );
    assert_eq!(
        check("if x:\ny = 1\n"),
        Err(SyntaxError::NoApplicableProduction {
            nonterminal: Nonterminal::Block,
            found: TokenKind::Identifier,
            row: 1,
            col: 0,
        })
    );
}

#[test]
fn indented_statement_without_header_is_refused() {
    assert_eq!(
        check("x = 1\n    y = 2\n"),
        Err(SyntaxError::NoApplicableProduction {
            nonterminal: Nonterminal::StatementListTail,
            found: TokenKind::Indent,
            row: 1,
            col: 0,
        })
    );
}

#[test]
fn comment_after_a_statement_leaves_it_open() {
    assert_eq!(
        check("x = 1 # one\ny = 2\n"),
        Err(SyntaxError::NoApplicableProduction {
            nonterminal: Nonterminal::SumTail,
            found: TokenKind::Identifier,
            row: 1,
            col: 0,
        })
    );
}

#[test]
fn first_error_is_the_one_reported() {
    assert_eq!(
        check("x = = 1\ndef 2\n"),
        Err(SyntaxError::NoApplicableProduction {
            nonterminal: Nonterminal::Expression,
            found: TokenKind::Operator(Operator::Assign),
            row: 0,
            col: 4,
        })
    );
}

#[test]
fn end_of_input_token_may_end_the_sequence() {
    let mut tokens = tokenize(b"x = 1\n").unwrap();
    tokens.push(token(TokenKind::EndOfInput, 1, 0));
    assert_eq!(parse(&tokens), Ok(()));
    assert_eq!(parse(&vec![token(TokenKind::EndOfInput, 0, 0)]), Ok(()));
}

#[test]
fn nothing_may_follow_the_end_of_input() {
    let mut tokens = tokenize(b"x = 1\n").unwrap();
    tokens.push(token(TokenKind::EndOfInput, 1, 0));
    tokens.push(token(TokenKind::Identifier, 1, 0));
    assert_eq!(
        parse(&tokens),
        Err(SyntaxError::UnexpectedToken {
            expected: TokenKind::EndOfInput,
            found: TokenKind::Identifier,
            row: 1,
            col: 0,
        })
    );
}

#[test]
fn end_of_input_in_the_middle_is_refused() {
    let tokens = vec![
        token(TokenKind::Identifier, 0, 0),
        token(TokenKind::EndOfInput, 0, 1),
        token(TokenKind::EndOfStatement, 0, 2),
    ];
    assert_eq!(
        parse(&tokens),
        Err(SyntaxError::NoApplicableProduction {
            nonterminal: Nonterminal::ExpressionStatementTail,
            found: TokenKind::EndOfInput,
            row: 0,
            col: 1,
        })
    );
}

#[test]
fn parse_with_table_agrees_with_parse() {
    let table = generate_lookup_table();
    for source in ["x = 1\n", "x = \n", "if a:\n    b = 1\nelse:\n    b = 2\n", "def 1\n", ""] {
        let tokens = tokenize(source.as_bytes()).unwrap();
        assert_eq!(parse_with_table(&table, &tokens), parse(&tokens));
    }
}

#[test]
fn advance_expands_down_to_the_terminal_and_pops_it() {
    let table = generate_lookup_table();
    let mut stack = vec![
        Symbol::Terminal(TokenKind::EndOfInput),
        Symbol::Nonterminal(Nonterminal::StatementList),
    ];
    assert_eq!(advance(&table, &mut stack, TokenKind::Identifier), Step::Shifted);
    assert_eq!(
        stack,
        vec![
            Symbol::Terminal(TokenKind::EndOfInput),
            Symbol::Nonterminal(Nonterminal::StatementListTail),
            Symbol::Terminal(TokenKind::EndOfStatement),
            Symbol::Nonterminal(Nonterminal::ExpressionStatementTail),
        ]
    );
    assert_eq!(
        advance(&table, &mut stack, TokenKind::Operator(Operator::Assign)),
        Step::Shifted
    );
    assert_eq!(
        stack,
        vec![
            Symbol::Terminal(TokenKind::EndOfInput),
            Symbol::Nonterminal(Nonterminal::StatementListTail),
            Symbol::Terminal(TokenKind::EndOfStatement),
            Symbol::Nonterminal(Nonterminal::Expression),
        ]
    );
}

#[test]
fn advance_leaves_the_stack_where_it_refuses() {
    let table = generate_lookup_table();
    let mut stack = vec![
        Symbol::Terminal(TokenKind::EndOfStatement),
        Symbol::Nonterminal(Nonterminal::SumTail),
    ];
    assert_eq!(advance(&table, &mut stack, TokenKind::Identifier), Step::Stuck(Nonterminal::SumTail));
    assert_eq!(stack.len(), 2);
    assert_eq!(
        advance(&table, &mut stack, TokenKind::Operator(Operator::Colon)),
        Step::Expected(TokenKind::EndOfStatement)
    );
    assert_eq!(stack, vec![Symbol::Terminal(TokenKind::EndOfStatement)]);
    let mut empty: Vec<Symbol> = vec![];
    assert_eq!(advance(&table, &mut empty, TokenKind::Identifier), Step::Exhausted);
}

#[test]
fn advance_passes_over_epsilon() {
    let table = generate_lookup_table();
    let mut stack = vec![Symbol::Terminal(TokenKind::Identifier), Symbol::Epsilon, Symbol::Epsilon];
    assert_eq!(advance(&table, &mut stack, TokenKind::Identifier), Step::Shifted);
    assert!(stack.is_empty());
}

#[test]
fn refusal_names_what_stopped_the_automaton() {
    assert_eq!(
        refusal(Step::Stuck(Nonterminal::Block), TokenKind::Dedent, 4, 0),
        SyntaxError::NoApplicableProduction {
            nonterminal: Nonterminal::Block,
            found: TokenKind::Dedent,
            row: 4,
            col: 0,
        }
    );
    assert_eq!(
        refusal(Step::Expected(TokenKind::Indent), TokenKind::Dedent, 4, 1),
        SyntaxError::UnexpectedToken {
            expected: TokenKind::Indent,
            found: TokenKind::Dedent,
            row: 4,
            col: 1,
        }
    );
    assert_eq!(
        refusal(Step::Exhausted, TokenKind::Dedent, 4, 2),
        SyntaxError::UnexpectedToken {
            expected: TokenKind::EndOfInput,
            found: TokenKind::Dedent,
            row: 4,
            col: 2,
        }
    );
}
