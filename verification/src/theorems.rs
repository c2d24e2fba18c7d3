//! What holds of every source text that the lexer reads without an error.

use crate::chars::{is_blank, is_separator, lemma_starts_operator};
use crate::error::LexError;
use crate::layout::{all_positive, dedents, layout_tokens, lemma_reindent, total};
use crate::lexer::{
    after, bracket_operator, closer_of, initial_state, is_blank_line,
    lemma_line_end_bounds, lemma_next_token_found, lex_line, lex_lines, line_end, next_token,
    scan_line, tokens_of, LexerState,
};
use crate::scan::{
    indentation, lemma_float_literal_found, lemma_indentation_bounds, lemma_int_literal_found,
    lemma_operator_at_found, lemma_operator_at_is_longest, lemma_string_literal_found,
    lemma_word_at_found, operator_at, token_at, Scan,
};
use crate::token::{
    lemma_operator_of_spelling, lemma_operator_spelling_injective, lemma_operator_spellings,
    operator_of, Operator, TokenKind, TokenView,
};
use vstd::prelude::*;
use vstd::utf8::decode_utf8;

verus! {

/// How many tokens of `tokens` are of kind `kind`.
pub open spec fn count_kind(tokens: Seq<TokenView>, kind: TokenKind) -> nat
    decreases tokens.len(),
{
    if tokens.len() == 0 {
        0
    } else {
        count_kind(tokens.drop_last(), kind) + if tokens.last().kind == kind {
            1nat
        } else {
            0nat
        }
    }
}

/// The tokens of kind `kind` in two sequences, one after the other, are
/// those in the first and those in the second.
pub proof fn lemma_count_kind_concat(first: Seq<TokenView>, second: Seq<TokenView>, kind: TokenKind)
    ensures
        count_kind(first + second, kind) == count_kind(first, kind) + count_kind(second, kind),
    decreases second.len(),
{
    if second.len() == 0 {
        assert(first + second =~= first);
    } else {
        assert((first + second).drop_last() =~= first + second.drop_last());
        lemma_count_kind_concat(first, second.drop_last(), kind);
    }
}

/// A token before a sequence counts as one where it is of kind `kind`.
pub proof fn lemma_count_one_before(token: TokenView, rest: Seq<TokenView>, kind: TokenKind)
    ensures
        count_kind(seq![token] + rest, kind) == count_kind(rest, kind) + if token.kind == kind {
            1nat
        } else {
            0nat
        },
{
    assert(seq![token].drop_last() =~= Seq::<TokenView>::empty());
    assert(count_kind(seq![token].drop_last(), kind) == 0);
    lemma_count_kind_concat(seq![token], rest, kind);
}

/// `count` `Dedent` tokens are `count` tokens of kind `Dedent` and none of
/// kind `Indent`.
pub proof fn lemma_count_dedents(count: int, row: nat)
    requires
        0 <= count,
    ensures
        count_kind(dedents(count, row), TokenKind::Dedent) == count,
        count_kind(dedents(count, row), TokenKind::Indent) == 0,
    decreases count,
{
    if count > 0 {
        assert(dedents(count, row).drop_last() =~= dedents(count - 1, row));
        lemma_count_dedents(count - 1, row);
    }
}

/// Reading a line from some column on gives neither `Indent` nor `Dedent`.
pub proof fn lemma_scan_line_no_layout(
    line: Seq<char>,
    row: nat,
    col: int,
    brackets: Seq<char>,
    produced: bool,
)
    requires
        0 <= col,
    ensures
        scan_line(line, row, col, brackets, produced) matches Ok(scan) ==> count_kind(
            scan.tokens,
            TokenKind::Indent,
        ) == 0 && count_kind(scan.tokens, TokenKind::Dedent) == 0,
    decreases line.len() - col,
{
    let here = scan_line(line, row, col, brackets, produced);
    if here is Err {
    } else if !(0 <= col < line.len()) || line[col] == '\n' {
        let tokens = here->Ok_0.tokens;
        if tokens.len() > 0 {
            assert(tokens =~= seq![tokens[0]] + Seq::<TokenView>::empty());
            lemma_count_one_before(tokens[0], Seq::empty(), TokenKind::Indent);
            lemma_count_one_before(tokens[0], Seq::empty(), TokenKind::Dedent);
        }
    } else if is_blank(line[col]) {
        lemma_scan_line_no_layout(line, row, col + 1, brackets, produced);
    } else if line[col] == '#' {
    } else if let Some(op) = bracket_operator(line[col]) {
        let token = token_at(line, row, col, TokenKind::Operator(op), col + 1);
        let inside = if let Some(closer) = closer_of(line[col]) {
            brackets.push(closer)
        } else {
            brackets.drop_last()
        };
        let rest = scan_line(line, row, col + 1, inside, true);
        lemma_scan_line_no_layout(line, row, col + 1, inside, true);
        assert(here == after(seq![token], rest));
        lemma_count_one_before(token, rest->Ok_0.tokens, TokenKind::Indent);
        lemma_count_one_before(token, rest->Ok_0.tokens, TokenKind::Dedent);
    } else {
        let (kind, end) = next_token(line, row, col)->Ok_0;
        let token = token_at(line, row, col, kind, end);
        let rest = scan_line(line, row, end, brackets, true);
        lemma_next_token_found(line, row, col);
        lemma_scan_line_no_layout(line, row, end, brackets, true);
        assert(here == after(seq![token], rest));
        lemma_count_one_before(token, rest->Ok_0.tokens, TokenKind::Indent);
        lemma_count_one_before(token, rest->Ok_0.tokens, TokenKind::Dedent);
    }
}

/// The tokens of a line hold as many more `Indent` than `Dedent` tokens as
/// the line opens more blocks than it closes.
pub proof fn lemma_lex_line_balance(state: LexerState, line: Seq<char>, row: nat)
    ensures
        lex_line(state, line, row) matches Ok((tokens, next)) ==> count_kind(
            tokens,
            TokenKind::Indent,
        ) + state.indents.len() == count_kind(tokens, TokenKind::Dedent) + next.indents.len(),
{
    if let Ok((tokens, next)) = lex_line(state, line, row) {
        let width = indentation(line);
        lemma_indentation_bounds(line);
        lemma_scan_line_no_layout(line, row, width, state.brackets, false);
        let scan = scan_line(line, row, width, state.brackets, false)->Ok_0;
        if !(is_blank_line(line) || state.brackets.len() > 0) {
            let before = state.indents.len() as int;
            let after = next.indents.len() as int;
            let layout = layout_tokens(before, after, row);
            lemma_count_kind_concat(layout, scan.tokens, TokenKind::Indent);
            lemma_count_kind_concat(layout, scan.tokens, TokenKind::Dedent);
            if after > before {
                assert(layout =~= seq![layout[0]] + Seq::<TokenView>::empty());
                lemma_count_one_before(layout[0], Seq::empty(), TokenKind::Indent);
                lemma_count_one_before(layout[0], Seq::empty(), TokenKind::Dedent);
            } else {
                lemma_count_dedents(before - after, row);
            }
        }
    }
}

/// The tokens of some lines hold as many more `Indent` than `Dedent` tokens
/// as the lines open more blocks than they close.
pub proof fn lemma_lex_lines_balance(bytes: Seq<u8>, from: int, row: nat, state: LexerState)
    ensures
        lex_lines(bytes, from, row, state) matches Ok((tokens, last, _)) ==> count_kind(
            tokens,
            TokenKind::Indent,
        ) + state.indents.len() == count_kind(tokens, TokenKind::Dedent) + last.indents.len(),
    decreases bytes.len() - from,
{
    if 0 <= from < bytes.len() {
        if let Ok((tokens, last, rows)) = lex_lines(bytes, from, row, state) {
            let end = line_end(bytes, from);
            let line = decode_utf8(bytes.subrange(from, end));
            let (first, next) = lex_line(state, line, row)->Ok_0;
            let (rest, _, _) = lex_lines(bytes, end, row + 1, next)->Ok_0;
            lemma_line_end_bounds(bytes, from);
            lemma_lex_line_balance(state, line, row);
            lemma_lex_lines_balance(bytes, end, row + 1, next);
            lemma_count_kind_concat(first, rest, TokenKind::Indent);
            lemma_count_kind_concat(first, rest, TokenKind::Dedent);
        }
    }
}

/// The tokens of a source text hold as many `Dedent` tokens as `Indent`
/// tokens: each block that a line opens is closed, by a later line or at the
/// end of the text.
pub proof fn theorem_blocks_are_closed(bytes: Seq<u8>)
    ensures
        tokens_of(bytes) matches Ok(tokens) ==> count_kind(tokens, TokenKind::Indent)
            == count_kind(tokens, TokenKind::Dedent),
{
    if let Ok((tokens, state, rows)) = lex_lines(bytes, 0, 0, initial_state()) {
        lemma_lex_lines_balance(bytes, 0, 0, initial_state());
        lemma_count_dedents(state.indents.len() as int, rows);
        lemma_count_kind_concat(
            tokens,
            dedents(state.indents.len() as int, rows),
            TokenKind::Indent,
        );
        lemma_count_kind_concat(
            tokens,
            dedents(state.indents.len() as int, rows),
            TokenKind::Dedent,
        );
    }
}

/// The steps of the indentation stack add up to the indentation of the
/// block that the lexer is in: after a line whose indentation counts, one
/// that is not blank and begins outside brackets, they add up to the
/// indentation of that line. Each step stays greater than zero.
pub proof fn theorem_steps_add_up_to_indentation(state: LexerState, line: Seq<char>, row: nat)
    requires
        all_positive(state.indents),
    ensures
        lex_line(state, line, row) matches Ok((_, next)) ==> all_positive(next.indents) && (
        state.brackets.len() == 0 && !is_blank_line(line) ==> total(next.indents) == indentation(
            line,
        )),
{
    if lex_line(state, line, row) is Ok && state.brackets.len() == 0 && !is_blank_line(line) {
        lemma_indentation_bounds(line);
        lemma_reindent(state.indents, indentation(line) as nat);
    }
}

/// The operator that the lexer reads at a column is the longest one that
/// the line spells there: in any greater number of characters the line
/// spells no operator.
pub proof fn theorem_longest_operator(line: Seq<char>, row: nat, col: int, longer: int)
    requires
        0 <= col < line.len(),
        next_token(line, row, col) matches Ok((kind, _)) && kind is Operator,
    ensures
        next_token(line, row, col) matches Ok((TokenKind::Operator(op), end)) && op.spelling()
            == line.subrange(col, end) && (end < col + longer <= line.len() ==> operator_of(
            line.subrange(col, col + longer),
        ) is None),
{
    lemma_next_token_found(line, row, col);
    lemma_string_literal_found(line, col, line[col]);
    lemma_float_literal_found(line, col);
    lemma_int_literal_found(line, col);
    lemma_word_at_found(line, col);
    lemma_operator_at_found(line, col);
    lemma_operator_at_is_longest(line, col, longer);
}

/// A bracket is the operator that the lexer would read at its column in any
/// case: no longer operator begins with a bracket, and no token of another
/// kind.
pub proof fn lemma_bracket_is_its_operator(line: Seq<char>, row: nat, col: int)
    requires
        0 <= col < line.len(),
        bracket_operator(line[col]) is Some,
    ensures
        next_token(line, row, col) == Ok::<(TokenKind, int), LexError>(
            (TokenKind::Operator(bracket_operator(line[col])->0), col + 1),
        ),
{
    let op = bracket_operator(line[col])->0;
    lemma_operator_spellings();
    lemma_starts_operator(line[col]);
    assert(line.subrange(col, col + 1) =~= op.spelling());
    lemma_operator_of_spelling(op);
    lemma_operator_at_found(line, col);
    assert(operator_at(line, col) == Scan::Found(TokenKind::Operator(op), col + 1)) by {
        if let Scan::Found(TokenKind::Operator(other), end) = operator_at(line, col) {
            assert(other.spelling()[0] == line[col]);
            if end == col + 1 {
                lemma_operator_spelling_injective(other, op);
            }
        }
    }
}

/// Whether `token` is an operator that `line` spells at the column of the
/// token, and the longest one that it spells there.
pub open spec fn is_longest_operator(line: Seq<char>, token: TokenView) -> bool {
    &&& token.kind matches TokenKind::Operator(op) && op.spelling() == token.lexeme
    &&& token.col + token.lexeme.len() <= line.len()
    &&& token.lexeme == line.subrange(token.col as int, token.col + token.lexeme.len() as int)
    &&& forall|longer: int|
        token.lexeme.len() < longer && token.col + longer <= line.len() ==> operator_of(
            #[trigger] line.subrange(token.col as int, token.col + longer),
        ) is None
}

/// Each operator among the tokens of a line is the longest operator that
/// the line spells at its column: where `**=` stands, the lexer reads it,
/// and neither `**` nor `*`.
pub proof fn theorem_operators_are_longest(
    line: Seq<char>,
    row: nat,
    col: int,
    brackets: Seq<char>,
    produced: bool,
    i: int,
)
    requires
        0 <= col,
        scan_line(line, row, col, brackets, produced) matches Ok(scan) && 0 <= i
            < scan.tokens.len() && scan.tokens[i].kind is Operator,
    ensures
        scan_line(line, row, col, brackets, produced) matches Ok(scan) && is_longest_operator(
            line,
            scan.tokens[i],
        ),
    decreases line.len() - col,
{
    let here = scan_line(line, row, col, brackets, produced)->Ok_0;
    if !(0 <= col < line.len()) || line[col] == '\n' {
    } else if is_blank(line[col]) {
        theorem_operators_are_longest(line, row, col + 1, brackets, produced, i);
    } else if line[col] == '#' {
    } else {
        let (kind, end) = next_token(line, row, col)->Ok_0;
        let inside = if bracket_operator(line[col]) is None {
            brackets
        } else if let Some(closer) = closer_of(line[col]) {
            brackets.push(closer)
        } else {
            brackets.drop_last()
        };
        if bracket_operator(line[col]) is Some {
            lemma_bracket_is_its_operator(line, row, col);
        }
        let token = token_at(line, row, col, kind, end);
        let rest = scan_line(line, row, end, inside, true)->Ok_0;
        lemma_next_token_found(line, row, col);
        assert(here.tokens == seq![token] + rest.tokens);
        if i == 0 {
            assert forall|longer: int|
                token.lexeme.len() < longer && token.col + longer <= line.len() implies operator_of(
                #[trigger] line.subrange(token.col as int, token.col + longer),
            ) is None by {
                theorem_longest_operator(line, row, col, longer);
            }
            theorem_longest_operator(line, row, col, 0);
        } else {
            assert(here.tokens[i] == rest.tokens[i - 1]);
            theorem_operators_are_longest(line, row, end, inside, true, i - 1);
        }
    }
}

/// By how much a token of kind `kind` changes the number of open brackets.
pub open spec fn bracket_step(kind: TokenKind) -> int {
    match kind {
        TokenKind::Operator(Operator::LeftParen)
        | TokenKind::Operator(Operator::LeftBracket)
        | TokenKind::Operator(Operator::LeftBrace) => 1,
        TokenKind::Operator(Operator::RightParen)
        | TokenKind::Operator(Operator::RightBracket)
        | TokenKind::Operator(Operator::RightBrace) => -1,
        _ => 0,
    }
}

/// How many more opening than closing brackets `tokens` holds.
pub open spec fn open_brackets(tokens: Seq<TokenView>) -> int
    decreases tokens.len(),
{
    if tokens.len() == 0 {
        0
    } else {
        open_brackets(tokens.drop_last()) + bracket_step(tokens.last().kind)
    }
}

/// Whether `kind` is a kind of token that stands for the layout of the text:
/// `Indent`, `Dedent` or `EndOfStatement`.
pub open spec fn is_layout(kind: TokenKind) -> bool {
    kind is Indent || kind is Dedent || kind is EndOfStatement
}

/// Whether each layout token of `tokens` stands where no bracket is open,
/// `depth` brackets being open before the first token.
pub open spec fn layout_is_outside(depth: int, tokens: Seq<TokenView>) -> bool {
    forall|i: int|
        0 <= i < tokens.len() && is_layout(#[trigger] tokens[i].kind) ==> depth + open_brackets(
            tokens.take(i),
        ) == 0
}

/// The brackets that two sequences open, one after the other, are those of
/// the first and those of the second.
pub proof fn lemma_open_brackets_concat(first: Seq<TokenView>, second: Seq<TokenView>)
    ensures
        open_brackets(first + second) == open_brackets(first) + open_brackets(second),
    decreases second.len(),
{
    if second.len() == 0 {
        assert(first + second =~= first);
    } else {
        assert((first + second).drop_last() =~= first + second.drop_last());
        lemma_open_brackets_concat(first, second.drop_last());
    }
}

/// One token opens as many brackets as its kind says.
pub proof fn lemma_open_brackets_one(token: TokenView)
    ensures
        open_brackets(seq![token]) == bracket_step(token.kind),
{
    assert(seq![token].drop_last() =~= Seq::<TokenView>::empty());
    assert(open_brackets(seq![token].drop_last()) == 0);
}

/// Where the layout tokens of two sequences stand outside brackets, those of
/// the two, one after the other, do.
pub proof fn lemma_layout_is_outside_concat(depth: int, first: Seq<TokenView>, second: Seq<TokenView>)
    requires
        layout_is_outside(depth, first),
        layout_is_outside(depth + open_brackets(first), second),
    ensures
        layout_is_outside(depth, first + second),
{
    let both = first + second;
    assert forall|i: int| 0 <= i < both.len() && is_layout(#[trigger] both[i].kind) implies depth
        + open_brackets(both.take(i)) == 0 by {
        if i < first.len() {
            assert(both.take(i) =~= first.take(i));
            assert(first[i] == both[i]);
        } else {
            let j = i - first.len();
            assert(both.take(i) =~= first + second.take(j));
            assert(second[j] == both[i]);
            lemma_open_brackets_concat(first, second.take(j));
        }
    }
}

/// Tokens none of which is a bracket open no bracket.
pub proof fn lemma_open_brackets_none(tokens: Seq<TokenView>)
    requires
        forall|i: int| 0 <= i < tokens.len() ==> bracket_step(#[trigger] tokens[i].kind) == 0,
    ensures
        open_brackets(tokens) == 0,
    decreases tokens.len(),
{
    if tokens.len() > 0 {
        lemma_open_brackets_none(tokens.drop_last());
    }
}

/// The token that the lexer reads at a column that holds no bracket is no
/// bracket.
pub proof fn lemma_next_token_is_no_bracket(line: Seq<char>, row: nat, col: int)
    requires
        0 <= col < line.len(),
        bracket_operator(line[col]) is None,
    ensures
        next_token(line, row, col) matches Ok((kind, _)) ==> bracket_step(kind) == 0,
{
    lemma_string_literal_found(line, col, line[col]);
    lemma_float_literal_found(line, col);
    lemma_int_literal_found(line, col);
    lemma_word_at_found(line, col);
    lemma_operator_at_found(line, col);
    if let Scan::Found(TokenKind::Operator(op), end) = operator_at(line, col) {
        lemma_operator_spellings();
        assert(op.spelling()[0] == line[col]);
    }
}

/// Reading a line from some column on changes the number of open brackets
/// by as much as its tokens say, and gives layout tokens only where no
/// bracket is open.
pub proof fn lemma_scan_line_brackets(
    line: Seq<char>,
    row: nat,
    col: int,
    brackets: Seq<char>,
    produced: bool,
)
    requires
        0 <= col,
    ensures
        scan_line(line, row, col, brackets, produced) matches Ok(scan) ==> scan.brackets.len()
            == brackets.len() + open_brackets(scan.tokens) && layout_is_outside(
            brackets.len() as int,
            scan.tokens,
        ),
    decreases line.len() - col,
{
    let here = scan_line(line, row, col, brackets, produced);
    let depth = brackets.len() as int;
    if here is Err {
    } else if !(0 <= col < line.len()) || line[col] == '\n' {
        let tokens = here->Ok_0.tokens;
        if tokens.len() > 0 {
            assert(tokens =~= seq![tokens[0]]);
            lemma_open_brackets_one(tokens[0]);
            assert(tokens.take(0) =~= Seq::<TokenView>::empty());
        }
    } else if is_blank(line[col]) {
        lemma_scan_line_brackets(line, row, col + 1, brackets, produced);
    } else if line[col] == '#' {
    } else if let Some(op) = bracket_operator(line[col]) {
        let token = token_at(line, row, col, TokenKind::Operator(op), col + 1);
        let inside = if let Some(closer) = closer_of(line[col]) {
            brackets.push(closer)
        } else {
            brackets.drop_last()
        };
        let rest = scan_line(line, row, col + 1, inside, true);
        lemma_scan_line_brackets(line, row, col + 1, inside, true);
        assert(here == after(seq![token], rest));
        lemma_open_brackets_one(token);
        lemma_open_brackets_concat(seq![token], rest->Ok_0.tokens);
        lemma_layout_is_outside_concat(depth, seq![token], rest->Ok_0.tokens);
    } else {
        let (kind, end) = next_token(line, row, col)->Ok_0;
        let token = token_at(line, row, col, kind, end);
        let rest = scan_line(line, row, end, brackets, true);
        lemma_next_token_found(line, row, col);
        lemma_next_token_is_no_bracket(line, row, col);
        lemma_scan_line_brackets(line, row, end, brackets, true);
        assert(here == after(seq![token], rest));
        lemma_open_brackets_one(token);
        lemma_open_brackets_concat(seq![token], rest->Ok_0.tokens);
        lemma_layout_is_outside_concat(depth, seq![token], rest->Ok_0.tokens);
    }
}

/// The tokens of a line change the number of open brackets by as much as
/// they say, and its layout tokens stand where no bracket is open.
pub proof fn lemma_lex_line_brackets(state: LexerState, line: Seq<char>, row: nat)
    ensures
        lex_line(state, line, row) matches Ok((tokens, next)) ==> next.brackets.len()
            == state.brackets.len() + open_brackets(tokens) && layout_is_outside(
            state.brackets.len() as int,
            tokens,
        ),
{
    if let Ok((tokens, next)) = lex_line(state, line, row) {
        let width = indentation(line);
        lemma_indentation_bounds(line);
        lemma_scan_line_brackets(line, row, width, state.brackets, false);
        let scan = scan_line(line, row, width, state.brackets, false)->Ok_0;
        if !(is_blank_line(line) || state.brackets.len() > 0) {
            let layout = layout_tokens(
                state.indents.len() as int,
                next.indents.len() as int,
                row,
            );
            lemma_open_brackets_none(layout);
            assert forall|i: int| 0 <= i < layout.len() implies open_brackets(layout.take(i))
                == 0 by {
                lemma_open_brackets_none(layout.take(i));
            }
            lemma_open_brackets_concat(layout, scan.tokens);
            lemma_layout_is_outside_concat(0, layout, scan.tokens);
        }
    }
}

/// The tokens of some lines change the number of open brackets by as much
/// as they say, and their layout tokens stand where no bracket is open.
pub proof fn lemma_lex_lines_brackets(bytes: Seq<u8>, from: int, row: nat, state: LexerState)
    ensures
        lex_lines(bytes, from, row, state) matches Ok((tokens, last, _)) ==> last.brackets.len()
            == state.brackets.len() + open_brackets(tokens) && layout_is_outside(
            state.brackets.len() as int,
            tokens,
        ),
    decreases bytes.len() - from,
{
    if 0 <= from < bytes.len() {
        if let Ok((tokens, last, rows)) = lex_lines(bytes, from, row, state) {
            let end = line_end(bytes, from);
            let line = decode_utf8(bytes.subrange(from, end));
            let (first, next) = lex_line(state, line, row)->Ok_0;
            let (rest, _, _) = lex_lines(bytes, end, row + 1, next)->Ok_0;
            lemma_line_end_bounds(bytes, from);
            lemma_lex_line_brackets(state, line, row);
            lemma_lex_lines_brackets(bytes, end, row + 1, next);
            lemma_open_brackets_concat(first, rest);
            lemma_layout_is_outside_concat(state.brackets.len() as int, first, rest);
        }
    }
}

/// Among the tokens of the lines of a source text, each `Indent`, `Dedent`
/// and `EndOfStatement` stands where no bracket is open: the tokens before
/// it hold as many closing as opening brackets. Inside brackets neither the
/// indentation of a line nor its end gives a token. (The `Dedent` tokens
/// that `tokens_of` adds at the end of the text are not among these.)
pub proof fn theorem_layout_outside_brackets(bytes: Seq<u8>, i: int)
    requires
        lex_lines(bytes, 0, 0, initial_state()) matches Ok((tokens, _, _)) && 0 <= i
            < tokens.len() && is_layout(tokens[i].kind),
    ensures
        lex_lines(bytes, 0, 0, initial_state()) matches Ok((tokens, _, _)) && open_brackets(
            tokens.take(i),
        ) == 0,
{
    lemma_lex_lines_brackets(bytes, 0, 0, initial_state());
}

/// Among the tokens of a source text, each `Indent` and each
/// `EndOfStatement` stands where no bracket is open, and so does each
/// `Dedent` but those that close, at the end of the text, the blocks that
/// are still open.
pub proof fn theorem_layout_tokens_outside_brackets(bytes: Seq<u8>, i: int)
    requires
        tokens_of(bytes) matches Ok(tokens) && 0 <= i < tokens.len() && (tokens[i].kind is Indent
            || tokens[i].kind is EndOfStatement),
    ensures
        tokens_of(bytes) matches Ok(tokens) && open_brackets(tokens.take(i)) == 0,
{
    let (body, state, rows) = lex_lines(bytes, 0, 0, initial_state())->Ok_0;
    let tokens = tokens_of(bytes)->Ok_0;
    assert(i < body.len());
    assert(tokens[i] == body[i]);
    assert(tokens.take(i) =~= body.take(i));
    theorem_layout_outside_brackets(bytes, i);
}

/// While a bracket is open, the indentation of a line changes nothing: the
/// indentation stack after the line is the one before it, and the line
/// gives neither `Indent` nor `Dedent`.
pub proof fn theorem_brackets_suspend_indentation(state: LexerState, line: Seq<char>, row: nat)
    requires
        state.brackets.len() > 0,
    ensures
        lex_line(state, line, row) matches Ok((tokens, next)) ==> next.indents == state.indents
            && count_kind(tokens, TokenKind::Indent) == 0 && count_kind(
            tokens,
            TokenKind::Dedent,
        ) == 0,
{
    lemma_indentation_bounds(line);
    lemma_scan_line_no_layout(line, row, indentation(line), state.brackets, false);
}

/// The lexemes of `tokens`, one after the other.
pub open spec fn lexemes(tokens: Seq<TokenView>) -> Seq<char>
    decreases tokens.len(),
{
    if tokens.len() == 0 {
        Seq::empty()
    } else {
        lexemes(tokens.drop_last()) + tokens.last().lexeme
    }
}

/// `text` without its separators.
pub open spec fn significant(text: Seq<char>) -> Seq<char>
    decreases text.len(),
{
    if text.len() == 0 {
        Seq::empty()
    } else if is_separator(text.last()) {
        significant(text.drop_last())
    } else {
        significant(text.drop_last()).push(text.last())
    }
}

/// The column at which the lexer stops reading `line`, with `brackets` as
/// the bracket stack before it: where the code of the line ends.
pub open spec fn code_end(line: Seq<char>, row: nat, brackets: Seq<char>) -> int {
    match scan_line(line, row, indentation(line), brackets, false) {
        Ok(scan) => scan.stop,
        Err(_) => 0,
    }
}

/// The code of the lines of `bytes` from index `from` on, the first of them
/// being row `row`, in state `state`: each line up to the column at which
/// the lexer stops reading it, without its comment and its line feed.
pub open spec fn code_of_lines(bytes: Seq<u8>, from: int, row: nat, state: LexerState) -> Seq<char>
    decreases bytes.len() - from,
{
    if !(0 <= from < bytes.len()) {
        Seq::empty()
    } else {
        let end = line_end(bytes, from);
        let line = decode_utf8(bytes.subrange(from, end));
        match lex_line(state, line, row) {
            Ok((_, next)) => {
                proof {
                    lemma_line_end_bounds(bytes, from);
                }
                line.take(code_end(line, row, state.brackets)) + code_of_lines(
                    bytes,
                    end,
                    row + 1,
                    next,
                )
            },
            Err(_) => Seq::empty(),
        }
    }
}

/// The code of the source text `bytes`: its lines without their comments
/// and line feeds, one after the other.
pub open spec fn code_of(bytes: Seq<u8>) -> Seq<char> {
    code_of_lines(bytes, 0, 0, initial_state())
}

/// The lexemes of two sequences, one after the other, are those of the
/// first and then those of the second.
pub proof fn lemma_lexemes_concat(first: Seq<TokenView>, second: Seq<TokenView>)
    ensures
        lexemes(first + second) == lexemes(first) + lexemes(second),
    decreases second.len(),
{
    if second.len() == 0 {
        assert(first + second =~= first);
        assert(lexemes(first) + lexemes(second) =~= lexemes(first));
    } else {
        assert((first + second).drop_last() =~= first + second.drop_last());
        lemma_lexemes_concat(first, second.drop_last());
        assert(lexemes(first + second) =~= lexemes(first) + lexemes(second));
    }
}

/// The lexemes of one token are its lexeme.
pub proof fn lemma_lexemes_one(token: TokenView)
    ensures
        lexemes(seq![token]) == token.lexeme,
{
    assert(seq![token].drop_last() =~= Seq::<TokenView>::empty());
    assert(lexemes(seq![token].drop_last()) =~= Seq::<char>::empty());
    assert(lexemes(seq![token]) =~= token.lexeme);
}

/// Tokens without text have no lexemes.
pub proof fn lemma_lexemes_none(tokens: Seq<TokenView>)
    requires
        forall|i: int| 0 <= i < tokens.len() ==> (#[trigger] tokens[i]).lexeme.len() == 0,
    ensures
        lexemes(tokens) == Seq::<char>::empty(),
    decreases tokens.len(),
{
    if tokens.len() > 0 {
        lemma_lexemes_none(tokens.drop_last());
        assert(lexemes(tokens) =~= Seq::<char>::empty());
    }
}

/// What is significant in two texts, one after the other, is what is
/// significant in the first and then in the second.
pub proof fn lemma_significant_concat(first: Seq<char>, second: Seq<char>)
    ensures
        significant(first + second) == significant(first) + significant(second),
    decreases second.len(),
{
    if second.len() == 0 {
        assert(first + second =~= first);
        assert(significant(first) + significant(second) =~= significant(first));
    } else {
        assert((first + second).drop_last() =~= first + second.drop_last());
        lemma_significant_concat(first, second.drop_last());
        assert(significant(first + second) =~= significant(first) + significant(second));
    }
}

/// Nothing is significant in a text of separators.
pub proof fn lemma_significant_none(text: Seq<char>)
    requires
        forall|i: int| 0 <= i < text.len() ==> is_separator(#[trigger] text[i]),
    ensures
        significant(text) == Seq::<char>::empty(),
    decreases text.len(),
{
    if text.len() > 0 {
        lemma_significant_none(text.drop_last());
    }
}

/// Reading a line from some column on stops at a line feed, at a `#` or at
/// the end of the line, and what is significant in the text up to there is
/// what is significant in the lexemes of its tokens.
pub proof fn lemma_scan_line_text(
    line: Seq<char>,
    row: nat,
    col: int,
    brackets: Seq<char>,
    produced: bool,
)
    requires
        0 <= col <= line.len(),
    ensures
        scan_line(line, row, col, brackets, produced) matches Ok(scan) ==> {
            &&& col <= scan.stop <= line.len()
            &&& scan.stop < line.len() ==> line[scan.stop] == '\n' || line[scan.stop] == '#'
            &&& significant(line.subrange(col, scan.stop)) == significant(lexemes(scan.tokens))
        },
    decreases line.len() - col,
{
    let here = scan_line(line, row, col, brackets, produced);
    if here is Err {
    } else if !(0 <= col < line.len()) || line[col] == '\n' {
        let tokens = here->Ok_0.tokens;
        lemma_lexemes_none(tokens);
        assert(line.subrange(col, col) =~= Seq::<char>::empty());
    } else if is_blank(line[col]) {
        lemma_scan_line_text(line, row, col + 1, brackets, produced);
        let stop = here->Ok_0.stop;
        assert(line.subrange(col, stop) =~= line.subrange(col, col + 1) + line.subrange(
            col + 1,
            stop,
        ));
        lemma_significant_concat(line.subrange(col, col + 1), line.subrange(col + 1, stop));
        lemma_significant_none(line.subrange(col, col + 1));
        assert(Seq::<char>::empty() + significant(line.subrange(col + 1, stop)) =~= significant(
            line.subrange(col + 1, stop),
        ));
    } else if line[col] == '#' {
        assert(line.subrange(col, col) =~= Seq::<char>::empty());
    } else {
        let (token, end, rest) = if let Some(op) = bracket_operator(line[col]) {
            let inside = if let Some(closer) = closer_of(line[col]) {
                brackets.push(closer)
            } else {
                brackets.drop_last()
            };
            (
                token_at(line, row, col, TokenKind::Operator(op), col + 1),
                col + 1,
                scan_line(line, row, col + 1, inside, true),
            )
        } else {
            let (kind, end) = next_token(line, row, col)->Ok_0;
            (token_at(line, row, col, kind, end), end, scan_line(line, row, end, brackets, true))
        };
        lemma_next_token_found(line, row, col);
        if bracket_operator(line[col]) is Some {
            if let Some(closer) = closer_of(line[col]) {
                lemma_scan_line_text(line, row, col + 1, brackets.push(closer), true);
            } else {
                lemma_scan_line_text(line, row, col + 1, brackets.drop_last(), true);
            }
        } else {
            lemma_scan_line_text(line, row, end, brackets, true);
        }
        assert(here == after(seq![token], rest));
        let stop = rest->Ok_0.stop;
        lemma_lexemes_one(token);
        lemma_lexemes_concat(seq![token], rest->Ok_0.tokens);
        assert(line.subrange(col, stop) =~= line.subrange(col, end) + line.subrange(end, stop));
        lemma_significant_concat(line.subrange(col, end), line.subrange(end, stop));
        lemma_significant_concat(token.lexeme, lexemes(rest->Ok_0.tokens));
    }
}

/// The lexer stops reading a line at a line feed, at a `#` or at the end of
/// the line, and what is significant in the line up to there is what is
/// significant in the lexemes of its tokens.
pub proof fn lemma_lex_line_text(state: LexerState, line: Seq<char>, row: nat)
    ensures
        lex_line(state, line, row) matches Ok((tokens, _)) ==> {
            let stop = code_end(line, row, state.brackets);
            &&& 0 <= stop <= line.len()
            &&& stop < line.len() ==> line[stop] == '\n' || line[stop] == '#'
            &&& significant(line.take(stop)) == significant(lexemes(tokens))
        },
{
    if let Ok((tokens, next)) = lex_line(state, line, row) {
        let width = indentation(line);
        lemma_indentation_bounds(line);
        lemma_scan_line_text(line, row, width, state.brackets, false);
        let scan = scan_line(line, row, width, state.brackets, false)->Ok_0;
        assert(line.take(scan.stop) =~= line.subrange(0, width) + line.subrange(width, scan.stop));
        lemma_significant_concat(line.subrange(0, width), line.subrange(width, scan.stop));
        lemma_significant_none(line.subrange(0, width));
        assert(Seq::<char>::empty() + significant(line.subrange(width, scan.stop)) =~= significant(
            line.subrange(width, scan.stop),
        ));
        if !(is_blank_line(line) || state.brackets.len() > 0) {
            let layout = layout_tokens(
                state.indents.len() as int,
                next.indents.len() as int,
                row,
            );
            lemma_lexemes_none(layout);
            lemma_lexemes_concat(layout, scan.tokens);
            assert(Seq::<char>::empty() + lexemes(scan.tokens) =~= lexemes(scan.tokens));
        }
    }
}

/// What is significant in the code of some lines is what is significant in
/// the lexemes of their tokens.
pub proof fn lemma_lex_lines_text(bytes: Seq<u8>, from: int, row: nat, state: LexerState)
    ensures
        lex_lines(bytes, from, row, state) matches Ok((tokens, _, _)) ==> significant(
            lexemes(tokens),
        ) == significant(code_of_lines(bytes, from, row, state)),
    decreases bytes.len() - from,
{
    if 0 <= from < bytes.len() {
        if let Ok((tokens, last, rows)) = lex_lines(bytes, from, row, state) {
            let end = line_end(bytes, from);
            let line = decode_utf8(bytes.subrange(from, end));
            let (first, next) = lex_line(state, line, row)->Ok_0;
            let (rest, _, _) = lex_lines(bytes, end, row + 1, next)->Ok_0;
            let stop = code_end(line, row, state.brackets);
            lemma_line_end_bounds(bytes, from);
            lemma_lex_line_text(state, line, row);
            lemma_lex_lines_text(bytes, end, row + 1, next);
            lemma_lexemes_concat(first, rest);
            lemma_significant_concat(lexemes(first), lexemes(rest));
            lemma_significant_concat(line.take(stop), code_of_lines(bytes, end, row + 1, next));
        }
    } else {
        assert(lexemes(Seq::<TokenView>::empty()) =~= Seq::<char>::empty());
    }
}

/// The lexemes of the tokens of a source text, one after the other, are the
/// code of the text but for separators: the lexer leaves out nothing but
/// blanks, line feeds and comments, puts nothing in, and keeps the order.
pub proof fn theorem_lexemes_are_the_code(bytes: Seq<u8>)
    ensures
        tokens_of(bytes) matches Ok(tokens) ==> significant(lexemes(tokens)) == significant(
            code_of(bytes),
        ),
{
    if let Ok((tokens, state, rows)) = lex_lines(bytes, 0, 0, initial_state()) {
        let closing = dedents(state.indents.len() as int, rows);
        lemma_lex_lines_text(bytes, 0, 0, initial_state());
        lemma_lexemes_none(closing);
        lemma_lexemes_concat(tokens, closing);
        assert(lexemes(tokens) + Seq::<char>::empty() =~= lexemes(tokens));
    }
}

} // verus!
