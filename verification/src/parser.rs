//! The recognizer: a stack automaton that reads a token sequence against the
//! table of the grammar and reports success or the first syntax error.

use crate::derivation::{derives, kinds, program, theorem_recognizer_decides_the_grammar};
use crate::error::SyntaxError;
use crate::grammar::{
    depth, generate_lookup_table, lemma_production_shape, nullable, production, Nonterminal,
    ParseTable, Symbol,
};
use crate::token::{Token, TokenKind, TokenView};
use vstd::prelude::*;

verus! {

/// What the automaton does with one token.
#[derive(Clone, Copy, Debug, PartialEq, Eq, Structural)]
pub enum Step {
    /// The token matched the terminal on top of the stack, which was popped.
    Shifted,
    /// A terminal of another kind is on top of the stack.
    Expected(TokenKind),
    /// The nonterminal on top of the stack has no production for the token.
    Stuck(Nonterminal),
    /// The stack is empty: the input was complete before this token.
    Exhausted,
}

/// The stack at the start: the end marker below the start symbol.
pub open spec fn initial_stack() -> Seq<Symbol> {
    seq![Symbol::Terminal(TokenKind::EndOfInput), Symbol::Nonterminal(Nonterminal::StatementList)]
}

/// A bound on how many symbols the automaton can take off `stack`, whose top
/// is its last symbol, before a terminal is on top or the stack is empty.
pub open spec fn pending(stack: Seq<Symbol>) -> nat
    decreases stack.len(),
{
    if stack.len() == 0 {
        0
    } else {
        match stack.last() {
            Symbol::Terminal(_) => 0,
            Symbol::Epsilon => 1 + pending(stack.drop_last()),
            Symbol::Nonterminal(n) => 1 + depth(n) + if nullable(n) {
                pending(stack.drop_last())
            } else {
                0
            },
        }
    }
}

/// The stack after the nonterminal on top of `stack` has been replaced by
/// `symbols`, the first of them on top.
pub open spec fn expand(stack: Seq<Symbol>, symbols: Seq<Symbol>) -> Seq<Symbol> {
    stack.drop_last() + symbols.reverse()
}

/// Expanding the nonterminal on top of the stack by its production for `la`
/// brings the automaton closer to a terminal.
pub proof fn lemma_expand_decreases(stack: Seq<Symbol>, n: Nonterminal, la: TokenKind)
    requires
        stack.len() > 0,
        stack.last() == Symbol::Nonterminal(n),
        production(n, la) is Some,
    ensures
        pending(expand(stack, production(n, la)->0)) < pending(stack),
{
    let symbols = production(n, la)->0;
    let after = expand(stack, symbols);
    lemma_production_shape(n, la);
    if symbols.len() == 0 {
        assert(after =~= stack.drop_last());
    } else {
        assert(after.last() == symbols[0]);
    }
}

/// What the automaton does with a token of kind `la` on `stack`, and the
/// stack that it leaves. It expands the nonterminals on top of the stack,
/// each by its production for `la`, until a terminal is on top; that one
/// the token has to match, and it is popped. Where the automaton refuses
/// the token, the stack is left as it was when it did.
pub open spec fn feed(stack: Seq<Symbol>, la: TokenKind) -> (Step, Seq<Symbol>)
    decreases pending(stack),
{
    if stack.len() == 0 {
        (Step::Exhausted, stack)
    } else {
        match stack.last() {
            Symbol::Terminal(kind) => if kind == la {
                (Step::Shifted, stack.drop_last())
            } else {
                (Step::Expected(kind), stack)
            },
            Symbol::Epsilon => feed(stack.drop_last(), la),
            Symbol::Nonterminal(n) => match production(n, la) {
                Some(symbols) => {
                    proof {
                        lemma_expand_decreases(stack, n, la);
                    }
                    feed(expand(stack, symbols), la)
                },
                None => (Step::Stuck(n), stack),
            },
        }
    }
}

/// The error that a failed step stands for, at a token of kind `found` at
/// `row`, `col`.
pub open spec fn spec_refusal(step: Step, found: TokenKind, row: usize, col: usize) -> SyntaxError {
    match step {
        Step::Stuck(nonterminal) => SyntaxError::NoApplicableProduction { nonterminal, found, row, col },
        Step::Expected(expected) => SyntaxError::UnexpectedToken { expected, found, row, col },
        _ => SyntaxError::UnexpectedToken { expected: TokenKind::EndOfInput, found, row, col },
    }
}

/// The error that a failed step stands for, at a token of kind `found` at
/// `row`, `col`.
#[verifier::when_used_as_spec(spec_refusal)]
pub fn refusal(step: Step, found: TokenKind, row: usize, col: usize) -> (error: SyntaxError)
    ensures
        error == spec_refusal(step, found, row, col),
{
    match step {
        Step::Stuck(nonterminal) => SyntaxError::NoApplicableProduction { nonterminal, found, row, col },
        Step::Expected(expected) => SyntaxError::UnexpectedToken { expected, found, row, col },
        _ => SyntaxError::UnexpectedToken { expected: TokenKind::EndOfInput, found, row, col },
    }
}

/// The token that stands for the end of `tokens` where they do not end with
/// one of kind `EndOfInput`. It has no text and stands where the last token
/// does, or at the origin where there is no token.
pub open spec fn end_token(tokens: Seq<TokenView>) -> TokenView {
    TokenView {
        kind: TokenKind::EndOfInput,
        lexeme: Seq::empty(),
        row: if tokens.len() == 0 {
            0
        } else {
            tokens.last().row
        },
        col: if tokens.len() == 0 {
            0
        } else {
            tokens.last().col
        },
    }
}

/// `tokens` up to and with the end of the input: `tokens` themselves where
/// the last of them is of kind `EndOfInput`, and else `tokens` and after
/// them `end_token`.
pub open spec fn with_end(tokens: Seq<TokenView>) -> Seq<TokenView> {
    if tokens.len() > 0 && tokens.last().kind == TokenKind::EndOfInput {
        tokens
    } else {
        tokens.push(end_token(tokens))
    }
}

/// The verdict on `tokens` from the token at `next` on, with `stack` as it is
/// then. Each token is fed to the automaton; the first one that it refuses
/// gives the error, and there is none where it takes them all.
pub open spec fn run(stack: Seq<Symbol>, tokens: Seq<TokenView>, next: int) -> Result<
    (),
    SyntaxError,
>
    decreases tokens.len() - next,
{
    if 0 <= next < tokens.len() {
        let token = tokens[next];
        let (step, rest) = feed(stack, token.kind);
        if step == Step::Shifted {
            run(rest, tokens, next + 1)
        } else {
            Err(refusal(step, token.kind, token.row as usize, token.col as usize))
        }
    } else {
        Ok(())
    }
}

/// Whether `tokens` is a program of the language, and if not, the first
/// error: the verdict of the automaton, which begins with `initial_stack`,
/// on `tokens` up to and with the end of the input.
pub open spec fn recognize(tokens: Seq<TokenView>) -> Result<(), SyntaxError> {
    run(initial_stack(), with_end(tokens), 0)
}

/// Feeds one token of kind `la` to the automaton: expands the nonterminals
/// on top of `stack` until a terminal is on top, and pops that terminal
/// where the token matches it. Where the automaton refuses the token,
/// `stack` is left as it was when it did.
pub fn advance(table: &ParseTable, stack: &mut Vec<Symbol>, la: TokenKind) -> (step: Step)
    ensures
        step == feed(old(stack)@, la).0,
        final(stack)@ == feed(old(stack)@, la).1,
{
    loop
        invariant
            feed(stack@, la) == feed(old(stack)@, la),
        decreases pending(stack@),
    {
        let height = stack.len();
        if height == 0 {
            return Step::Exhausted;
        }
        let ghost before = stack@;
        match stack[height - 1] {
            Symbol::Terminal(kind) => {
                if kind == la {
                    stack.pop();
                    return Step::Shifted;
                }
                return Step::Expected(kind);
            },
            Symbol::Epsilon => {
                stack.pop();
            },
            Symbol::Nonterminal(n) => {
                match table.lookup(n, la) {
                    Some(symbols) => {
                        stack.pop();
                        let ghost rest = stack@;
                        let mut i: usize = symbols.len();
                        while i > 0
                            invariant
                                i <= symbols.len(),
                                stack@ == rest + symbols@.subrange(
                                    i as int,
                                    symbols.len() as int,
                                ).reverse(),
                            decreases i,
                        {
                            i -= 1;
                            stack.push(symbols[i]);
                            assert(stack@ =~= rest + symbols@.subrange(
                                i as int,
                                symbols.len() as int,
                            ).reverse());
                        }
                        assert(symbols@.subrange(0, symbols.len() as int) =~= symbols@);
                        proof {
                            lemma_expand_decreases(before, n, la);
                        }
                    },
                    None => {
                        return Step::Stuck(n);
                    },
                }
            },
        }
    }
}

/// Tells whether `tokens` is a program of the language, with `table` as the
/// table of the grammar.
pub fn parse_with_table(table: &ParseTable, tokens: &Vec<Token>) -> (result: Result<(), SyntaxError>)
    ensures
        result == recognize(tokens.deep_view()),
        result is Ok <==> derives(program(), kinds(with_end(tokens.deep_view()))),
{
    proof {
        theorem_recognizer_decides_the_grammar(tokens.deep_view());
    }
    let mut stack: Vec<Symbol> = Vec::new();
    stack.push(Symbol::Terminal(TokenKind::EndOfInput));
    stack.push(Symbol::Nonterminal(Nonterminal::StatementList));
    assert(stack@ =~= initial_stack());
    let ghost views = tokens.deep_view();
    let ghost all = with_end(views);
    let mut next: usize = 0;
    while next < tokens.len()
        invariant
            next <= tokens.len(),
            views == tokens.deep_view(),
            all == with_end(views),
            recognize(views) is Ok <==> derives(program(), kinds(all)),
            run(stack@, all, next as int) == recognize(views),
        decreases tokens.len() - next,
    {
        let token = &tokens[next];
        assert(all[next as int] == token@);
        let step = advance(table, &mut stack, token.kind);
        if step != Step::Shifted {
            return Err(refusal(step, token.kind, token.row, token.col));
        }
        next += 1;
    }
    let (row, col) = if tokens.len() == 0 {
        (0, 0)
    } else {
        let last = &tokens[tokens.len() - 1];
        assert(views.last() == last@);
        if last.kind == TokenKind::EndOfInput {
            return Ok(());
        }
        (last.row, last.col)
    };
    proof {
        assert(all[next as int] == end_token(views));
        assert(run(feed(stack@, TokenKind::EndOfInput).1, all, next + 1) is Ok);
    }
    match advance(table, &mut stack, TokenKind::EndOfInput) {
        Step::Shifted => Ok(()),
        step => Err(refusal(step, TokenKind::EndOfInput, row, col)),
    }
}

/// Tells whether `tokens` is a program of the language, and if not, what
/// the first error is. The tokens may end with one of kind `EndOfInput`;
/// where they do not, the end of the sequence stands for it. They are a
/// program if and only if the grammar derives their kinds, up to and with
/// the end of the input, from a statement list and the end of the input.
pub fn parse(tokens: &Vec<Token>) -> (result: Result<(), SyntaxError>)
    ensures
        result == recognize(tokens.deep_view()),
        result is Ok <==> derives(program(), kinds(with_end(tokens.deep_view()))),
{
    let table = generate_lookup_table();
    parse_with_table(&table, tokens)
}

} // verus!
