//! The lexer: it reads a source text line by line and cuts it into tokens.
//! Indentation opens and closes blocks; inside brackets a statement goes on
//! over line ends.

use crate::chars::{char_is_blank, is_blank};
use crate::error::LexError;
use crate::layout::{
    all_positive, dedents, lands_on, layout_tokens, lemma_lands_on_unique, lemma_total_grows,
    reindent, total,
};
use crate::scan::{
    cut, float_literal, get_float_literal, get_int_literal, get_line_indentation, get_operator,
    get_reserved_word_or_identifier, get_string_literal, indentation, int_literal,
    lemma_float_literal_found, lemma_int_literal_found, lemma_operator_at_found,
    lemma_string_literal_found, lemma_word_at_found, operator_at, string_literal, token_at,
    word_at, Scan,
};
use crate::theorems::{
    code_of, count_kind, lexemes, open_brackets, significant, theorem_blocks_are_closed,
    theorem_layout_tokens_outside_brackets, theorem_lexemes_are_the_code,
};
use crate::token::{Operator, Token, TokenKind, TokenView};
use vstd::prelude::*;
use vstd::slice::slice_subrange;
use vstd::string::StringSliceAdditionalSpecFns;
use vstd::utf8::{decode_utf8, encode_utf8_decode_utf8, valid_utf8};

verus! {

/// What the lexer keeps from one line to the next.
pub struct LexerState {
    /// The indentation stack: for each open block, by how many columns it is
    /// indented deeper than the block around it. The innermost block is last.
    pub indents: Seq<nat>,
    /// The bracket stack: for each open bracket the character that closes
    /// it. The innermost bracket is last.
    pub brackets: Seq<char>,
}

/// The state before the first line: no block and no bracket is open.
pub open spec fn initial_state() -> LexerState {
    LexerState { indents: Seq::empty(), brackets: Seq::empty() }
}

/// What reading one line from some column on gives.
pub struct LineScan {
    /// The tokens of the line, in the order of their columns.
    pub tokens: Seq<TokenView>,
    /// The bracket stack after the line.
    pub brackets: Seq<char>,
    /// The column at which the lexer stopped reading: that of the line feed
    /// or of the `#` of a comment, or the length of the line.
    pub stop: int,
}

/// `scan` with `tokens` before its own.
pub open spec fn after(tokens: Seq<TokenView>, scan: Result<LineScan, LexError>) -> Result<
    LineScan,
    LexError,
> {
    match scan {
        Ok(rest) => Ok(LineScan { tokens: tokens + rest.tokens, brackets: rest.brackets, stop: rest.stop }),
        Err(error) => Err(error),
    }
}

/// The character that closes the bracket `c`.
pub open spec fn closer_of(c: char) -> Option<char> {
    match c {
        '(' => Some(')'),
        '[' => Some(']'),
        '{' => Some('}'),
        _ => None,
    }
}

/// The operator that the bracket `c` is.
pub open spec fn bracket_operator(c: char) -> Option<Operator> {
    match c {
        '(' => Some(Operator::LeftParen),
        ')' => Some(Operator::RightParen),
        '[' => Some(Operator::LeftBracket),
        ']' => Some(Operator::RightBracket),
        '{' => Some(Operator::LeftBrace),
        '}' => Some(Operator::RightBrace),
        _ => None,
    }
}

/// The token that begins at column `col` of `line`, which is row `row`, where
/// that column holds no blank, line feed, `#` or bracket: its kind and the
/// column before which it ends. A quote begins a string literal. At any
/// other character the lexer tries a float literal, an integer literal, an
/// operator and a reserved word or name, in this order, and takes the first
/// that is there.
pub open spec fn next_token(line: Seq<char>, row: nat, col: int) -> Result<(TokenKind, int), LexError> {
    if 0 <= col < line.len() && (line[col] == '\'' || line[col] == '"') {
        match string_literal(line, col, line[col]) {
            Scan::Found(kind, end) => Ok((kind, end)),
            Scan::Failed(at) => Err(
                LexError::UnterminatedStringLiteral { row: row as usize, col: at as usize },
            ),
            Scan::Nothing => Err(
                LexError::UnrecognizedToken { row: row as usize, col: col as usize },
            ),
        }
    } else {
        match float_literal(line, col) {
            Scan::Found(kind, end) => Ok((kind, end)),
            Scan::Failed(at) => Err(
                LexError::InvalidLiteralCharacter { row: row as usize, col: at as usize },
            ),
            Scan::Nothing => match int_literal(line, col) {
                Scan::Found(kind, end) => Ok((kind, end)),
                Scan::Failed(at) => Err(
                    LexError::InvalidLiteralCharacter { row: row as usize, col: at as usize },
                ),
                Scan::Nothing => match operator_at(line, col) {
                    Scan::Found(kind, end) => Ok((kind, end)),
                    _ => match word_at(line, col) {
                        Scan::Found(kind, end) => Ok((kind, end)),
                        _ => Err(
                            LexError::UnrecognizedToken { row: row as usize, col: col as usize },
                        ),
                    },
                },
            },
        }
    }
}

/// Whether `kind` is the kind of a token that the lexer cuts out of the text
/// of a line: a literal, an operator, a reserved word or a name.
pub open spec fn is_text_kind(kind: TokenKind) -> bool {
    kind is Literal || kind is Operator || kind is ReservedWord || kind is Identifier
}

/// A token that the lexer reads at a column is cut out of the text: it is a
/// literal, an operator, a reserved word or a name, holds a character at
/// least, and ends within its line.
pub proof fn lemma_next_token_found(line: Seq<char>, row: nat, col: int)
    ensures
        next_token(line, row, col) matches Ok((kind, end)) ==> is_text_kind(kind) && col < end
            <= line.len(),
{
    if 0 <= col < line.len() {
        lemma_string_literal_found(line, col, line[col]);
    }
    lemma_float_literal_found(line, col);
    lemma_int_literal_found(line, col);
    lemma_operator_at_found(line, col);
    lemma_word_at_found(line, col);
}

/// What reading `line`, which is row `row`, from column `col` on gives, with
/// `brackets` as the bracket stack there; `produced` says whether the line
/// has given a token before that column.
///
/// Blanks are passed over. A line feed, or the end of the line, ends the
/// line: it gives an `EndOfStatement` token where no bracket is open and the
/// line has given a token. A `#` ends the line with no token. An opening
/// bracket gives its operator and pushes its closer; a closing bracket
/// gives its operator and pops the closer, which has to be its own.
/// Everything else is a token of `next_token`.
pub open spec fn scan_line(
    line: Seq<char>,
    row: nat,
    col: int,
    brackets: Seq<char>,
    produced: bool,
) -> Result<LineScan, LexError>
    decreases line.len() - col,
{
    if !(0 <= col < line.len()) || line[col] == '\n' {
        if brackets.len() == 0 && produced {
            Ok(
                LineScan {
                    tokens: seq![
                        TokenView {
                            kind: TokenKind::EndOfStatement,
                            lexeme: Seq::empty(),
                            row,
                            col: col as nat,
                        },
                    ],
                    brackets,
                    stop: col,
                },
            )
        } else {
            Ok(LineScan { tokens: Seq::empty(), brackets, stop: col })
        }
    } else if is_blank(line[col]) {
        scan_line(line, row, col + 1, brackets, produced)
    } else if line[col] == '#' {
        Ok(LineScan { tokens: Seq::empty(), brackets, stop: col })
    } else if let Some(op) = bracket_operator(line[col]) {
        let token = token_at(line, row, col, TokenKind::Operator(op), col + 1);
        if let Some(closer) = closer_of(line[col]) {
            after(seq![token], scan_line(line, row, col + 1, brackets.push(closer), true))
        } else if brackets.len() > 0 && brackets.last() == line[col] {
            after(seq![token], scan_line(line, row, col + 1, brackets.drop_last(), true))
        } else {
            Err(
                LexError::MismatchedOrUnbalancedBracket { row: row as usize, col: col as usize },
            )
        }
    } else {
        match next_token(line, row, col) {
            Ok((kind, end)) => {
                proof {
                    lemma_next_token_found(line, row, col);
                }
                after(
                    seq![token_at(line, row, col, kind, end)],
                    scan_line(line, row, end, brackets, true),
                )
            },
            Err(error) => Err(error),
        }
    }
}

/// Whether `line` holds nothing but blanks and, maybe, a comment.
pub open spec fn is_blank_line(line: Seq<char>) -> bool {
    let width = indentation(line);
    width >= line.len() || line[width] == '\n' || line[width] == '#'
}

/// What reading `line`, which is row `row`, gives in state `state`: its
/// tokens and the state after it.
///
/// The indentation of the line is compared with that of the innermost block,
/// which gives an `Indent` token, or `Dedent` tokens, or an error, as
/// `reindent` says; but not where the line is blank or a bracket is open:
/// there the indentation says nothing. Then the line is read from its first
/// character that is no blank.
pub open spec fn lex_line(state: LexerState, line: Seq<char>, row: nat) -> Result<
    (Seq<TokenView>, LexerState),
    LexError,
> {
    let width = indentation(line);
    if is_blank_line(line) || state.brackets.len() > 0 {
        match scan_line(line, row, width, state.brackets, false) {
            Ok(scan) => Ok(
                (scan.tokens, LexerState { indents: state.indents, brackets: scan.brackets }),
            ),
            Err(error) => Err(error),
        }
    } else {
        match reindent(state.indents, width as nat) {
            Some(indents) => match scan_line(line, row, width, state.brackets, false) {
                Ok(scan) => Ok(
                    (
                        layout_tokens(state.indents.len() as int, indents.len() as int, row)
                            + scan.tokens,
                        LexerState { indents, brackets: scan.brackets },
                    ),
                ),
                Err(error) => Err(error),
            },
            None => Err(LexError::InvalidIndentation { row: row as usize, col: width as usize }),
        }
    }
}

/// The index after the first line feed of `bytes` at or after `from`, or the
/// length of `bytes`: where the line ends that begins at `from`.
pub open spec fn line_end(bytes: Seq<u8>, from: int) -> int
    decreases bytes.len() - from,
{
    if !(0 <= from < bytes.len()) {
        from
    } else if bytes[from] == 10 {
        from + 1
    } else {
        line_end(bytes, from + 1)
    }
}

/// A line ends after the index at which it begins, and within the text.
pub proof fn lemma_line_end_bounds(bytes: Seq<u8>, from: int)
    requires
        0 <= from < bytes.len(),
    ensures
        from < line_end(bytes, from) <= bytes.len(),
    decreases bytes.len() - from,
{
    if bytes[from] != 10 {
        if from + 1 < bytes.len() {
            lemma_line_end_bounds(bytes, from + 1);
        } else {
            assert(line_end(bytes, from + 1) == from + 1);
        }
    }
}

/// What reading the lines of `bytes` from index `from` on gives, the first
/// of them being row `row`, in state `state`: the tokens of these lines, the
/// state after the last, and the number of rows of the whole text.
///
/// A line runs up to and with its line feed; the last one may lack it. Each
/// line is decoded by itself, right before it is read: a line that is not
/// UTF-8 fails only where the lines before it are read without an error.
pub open spec fn lex_lines(bytes: Seq<u8>, from: int, row: nat, state: LexerState) -> Result<
    (Seq<TokenView>, LexerState, nat),
    LexError,
>
    decreases bytes.len() - from,
{
    if !(0 <= from < bytes.len()) {
        Ok((Seq::empty(), state, row))
    } else {
        let end = line_end(bytes, from);
        let raw = bytes.subrange(from, end);
        if !valid_utf8(raw) {
            Err(LexError::InvalidUtf8 { row: row as usize })
        } else {
            match lex_line(state, decode_utf8(raw), row) {
                Ok((tokens, next)) => {
                    proof {
                        lemma_line_end_bounds(bytes, from);
                    }
                    match lex_lines(bytes, end, row + 1, next) {
                        Ok((rest, last, rows)) => Ok((tokens + rest, last, rows)),
                        Err(error) => Err(error),
                    }
                },
                Err(error) => Err(error),
            }
        }
    }
}

/// The tokens of the source text `bytes`, or the first error in it: the
/// tokens of its lines, and after them a `Dedent` for each block that is
/// still open at the end, in the row after the last.
pub open spec fn tokens_of(bytes: Seq<u8>) -> Result<Seq<TokenView>, LexError> {
    match lex_lines(bytes, 0, 0, initial_state()) {
        Ok((tokens, state, rows)) => Ok(tokens + dedents(state.indents.len() as int, rows)),
        Err(error) => Err(error),
    }
}

/// `first` before the tokens of `scan` is the same as `first` and `second`
/// before them.
pub proof fn lemma_after_after(
    first: Seq<TokenView>,
    second: Seq<TokenView>,
    scan: Result<LineScan, LexError>,
)
    ensures
        after(first, after(second, scan)) == after(first + second, scan),
{
    if let Ok(rest) = scan {
        assert(first + (second + rest.tokens) =~= (first + second) + rest.tokens);
    }
}

/// `std::str::from_utf8`: `bytes` as text, or `None` where they are not
/// UTF-8. The text is encoded by `bytes`.
#[verifier::external_body]
fn utf8_text(bytes: &[u8]) -> (text: Option<&str>)
    ensures
        text is Some <==> valid_utf8(bytes@),
        text matches Some(decoded) ==> decoded.spec_bytes() == bytes@,
{
    std::str::from_utf8(bytes).ok()
}

/// The characters of `text`, one by one.
fn chars_of(text: &str) -> (chars: Vec<char>)
    ensures
        chars@ == text@,
{
    let mut chars: Vec<char> = Vec::new();
    for c in it: text.chars()
        invariant
            chars@ == it.seq().take(it.index() as int),
            it.seq() == text@,
    {
        chars.push(c);
    }
    chars
}

/// The characters that `bytes` encode in UTF-8, or `None` where `bytes` are
/// not UTF-8.
pub fn decode_line(bytes: &[u8]) -> (line: Option<Vec<char>>)
    ensures
        line is Some <==> valid_utf8(bytes@),
        line matches Some(chars) ==> chars@ == decode_utf8(bytes@),
{
    match utf8_text(bytes) {
        Some(text) => {
            proof {
                encode_utf8_decode_utf8(text@);
            }
            Some(chars_of(text))
        },
        None => None,
    }
}

/// Appends `token` to `tokens`.
fn emit(tokens: &mut Vec<Token>, token: Token)
    ensures
        final(tokens).deep_view() == old(tokens).deep_view().push(token@),
{
    tokens.push(token);
    assert(tokens.deep_view() =~= old(tokens).deep_view().push(token@));
}

/// Appends `more` to `tokens`.
fn emit_all(tokens: &mut Vec<Token>, more: Vec<Token>)
    ensures
        final(tokens).deep_view() == old(tokens).deep_view() + more.deep_view(),
{
    let ghost added = more.deep_view();
    let mut more = more;
    tokens.append(&mut more);
    assert(tokens.deep_view() =~= old(tokens).deep_view() + added);
}

/// Tells whether `c` is a bracket: if so, which operator it is, and for an
/// opening bracket the character that closes it.
fn bracket(c: char) -> (found: Option<(Operator, Option<char>)>)
    ensures
        match found {
            Some((op, closer)) => bracket_operator(c) == Some(op) && closer_of(c) == closer,
            None => bracket_operator(c) is None,
        },
{
    match c {
        '(' => Some((Operator::LeftParen, Some(')'))),
        ')' => Some((Operator::RightParen, None)),
        '[' => Some((Operator::LeftBracket, Some(']'))),
        ']' => Some((Operator::RightBracket, None)),
        '{' => Some((Operator::LeftBrace, Some('}'))),
        '}' => Some((Operator::RightBrace, None)),
        _ => None,
    }
}

/// Reads the token that begins at column `col` of `line`, which is row
/// `row`: the token and the column before which it ends.
pub fn read_token(line: &Vec<char>, row: usize, col: usize) -> (result: Result<
    (Token, usize),
    LexError,
>)
    ensures
        match next_token(line@, row as nat, col as int) {
            Ok((kind, end)) => result matches Ok((token, stop)) && stop == end && token@
                == token_at(line@, row as nat, col as int, kind, end),
            Err(error) => result == Err::<(Token, usize), LexError>(error),
        },
{
    if col < line.len() && (line[col] == '\'' || line[col] == '"') {
        return match get_string_literal(line, line[col], col, row) {
            Ok(Some(found)) => Ok(found),
            Ok(None) => Err(LexError::UnrecognizedToken { row, col }),
            Err(error) => Err(error),
        };
    }
    match get_float_literal(line, col, row) {
        Ok(Some(found)) => {
            return Ok(found);
        },
        Ok(None) => {},
        Err(error) => {
            return Err(error);
        },
    }
    match get_int_literal(line, col, row) {
        Ok(Some(found)) => {
            return Ok(found);
        },
        Ok(None) => {},
        Err(error) => {
            return Err(error);
        },
    }
    if let Some(found) = get_operator(line, col, row) {
        return Ok(found);
    }
    if let Some(found) = get_reserved_word_or_identifier(line, col, row) {
        return Ok(found);
    }
    Err(LexError::UnrecognizedToken { row, col })
}

/// The steps of an indentation stack as mathematical numbers.
pub open spec fn steps(indents: Seq<usize>) -> Seq<nat> {
    indents.map_values(|step: usize| step as nat)
}

/// Adds up the steps of an indentation stack.
fn sum_steps(indents: &Vec<usize>) -> (width: usize)
    requires
        total(steps(indents@)) <= usize::MAX,
    ensures
        width == total(steps(indents@)),
{
    let ghost all = steps(indents@);
    let mut width: usize = 0;
    let mut i: usize = 0;
    while i < indents.len()
        invariant
            i <= indents.len(),
            all == steps(indents@),
            total(all) <= usize::MAX,
            width == total(all.take(i as int)),
        decreases indents.len() - i,
    {
        proof {
            assert(all.take(i + 1).drop_last() =~= all.take(i as int));
            lemma_total_grows(all, i + 1, all.len() as int);
            assert(all.take(all.len() as int) =~= all);
        }
        width += indents[i];
        i += 1;
    }
    assert(all.take(all.len() as int) =~= all);
    width
}

/// Changes the indentation stack `indents` for a line of row `row` that is
/// indented by `width` columns, and appends the tokens for the change to
/// `tokens`.
fn change_indentation(
    indents: &mut Vec<usize>,
    width: usize,
    row: usize,
    tokens: &mut Vec<Token>,
) -> (result: Result<(), LexError>)
    requires
        all_positive(steps(old(indents)@)),
        total(steps(old(indents)@)) <= usize::MAX,
    ensures
        match reindent(steps(old(indents)@), width as nat) {
            Some(after) => {
                &&& result is Ok
                &&& steps(final(indents)@) == after
                &&& all_positive(after)
                &&& total(after) <= usize::MAX
                &&& final(tokens).deep_view() == old(tokens).deep_view() + layout_tokens(
                    old(indents)@.len() as int,
                    after.len() as int,
                    row as nat,
                )
            },
            None => result == Err::<(), LexError>(LexError::InvalidIndentation { row, col: width }),
        },
{
    let ghost all = steps(indents@);
    let ghost before = tokens.deep_view();
    let depth = sum_steps(indents);
    if width > depth {
        indents.push(width - depth);
        emit(tokens, Token::new(TokenKind::Indent, String::new(), row, 0));
        proof {
            assert(steps(indents@) =~= all.push((width - depth) as nat));
            assert(steps(indents@).drop_last() =~= all);
            assert(tokens.deep_view() =~= before + layout_tokens(
                all.len() as int,
                steps(indents@).len() as int,
                row as nat,
            ));
        }
        return Ok(());
    }
    let mut excess: usize = depth - width;
    assert(all.take(all.len() as int) =~= all);
    while excess > 0
        invariant
            all == steps(old(indents)@),
            before == old(tokens).deep_view(),
            indents.len() <= all.len(),
            steps(indents@) == all.take(indents.len() as int),
            all_positive(all),
            width <= total(all) <= usize::MAX,
            total(steps(indents@)) == width + excess,
            tokens.deep_view() == before + dedents(all.len() - indents.len(), row as nat),
        decreases indents.len(),
    {
        let open = indents.len();
        assert(open > 0) by {
            if open == 0 {
                assert(total(steps(indents@)) == 0);
            }
        }
        let last = indents[open - 1];
        proof {
            assert(steps(indents@).last() == last);
            assert(steps(indents@).drop_last() =~= all.take(open - 1));
        }
        if excess < last {
            proof {
                assert forall|n: int| !lands_on(all, width as nat, n) by {
                    if 0 <= n <= all.len() {
                        if n < open {
                            lemma_total_grows(all, n, open - 1);
                        } else {
                            lemma_total_grows(all, open as int, n);
                        }
                    }
                }
            }
            return Err(LexError::InvalidIndentation { row, col: width });
        }
        indents.pop();
        excess -= last;
        emit(tokens, Token::new(TokenKind::Dedent, String::new(), row, 0));
        proof {
            assert(steps(indents@) =~= all.take(open - 1));
            assert(tokens.deep_view() =~= before + dedents(
                all.len() - indents.len(),
                row as nat,
            ));
        }
    }
    proof {
        let open = indents.len() as int;
        assert(lands_on(all, width as nat, open));
        lemma_lands_on_unique(all, width as nat, open, choose|n: int| lands_on(all, width as nat, n));
    }
    Ok(())
}

/// Reads `line`, which is row `row`, from column `from` on, with `brackets`
/// as the bracket stack, and appends its tokens to `tokens`.
fn scan(
    brackets: &mut Vec<char>,
    line: &Vec<char>,
    row: usize,
    from: usize,
    tokens: &mut Vec<Token>,
) -> (result: Result<(), LexError>)
    ensures
        match scan_line(line@, row as nat, from as int, old(brackets)@, false) {
            Ok(scan) => {
                &&& result is Ok
                &&& final(brackets)@ == scan.brackets
                &&& final(tokens).deep_view() == old(tokens).deep_view() + scan.tokens
            },
            Err(error) => result == Err::<(), LexError>(error),
        },
{
    let ghost goal = scan_line(line@, row as nat, from as int, brackets@, false);
    let ghost before = tokens.deep_view();
    let ghost mut emitted: Seq<TokenView> = Seq::empty();
    let mut col: usize = from;
    let mut produced = false;
    assert(before + emitted =~= before);
    proof {
        if let Ok(rest) = goal {
            assert(emitted + rest.tokens =~= rest.tokens);
        }
    }
    loop
        invariant
            before == old(tokens).deep_view(),
            goal == scan_line(line@, row as nat, from as int, old(brackets)@, false),
            tokens.deep_view() == before + emitted,
            after(emitted, scan_line(line@, row as nat, col as int, brackets@, produced)) == goal,
        decreases line.len() - col,
    {
        if col >= line.len() || line[col] == '\n' {
            if brackets.len() == 0 && produced {
                emit(tokens, Token::new(TokenKind::EndOfStatement, String::new(), row, col));
                assert(tokens.deep_view() =~= before + (emitted + seq![
                    TokenView {
                        kind: TokenKind::EndOfStatement,
                        lexeme: Seq::empty(),
                        row: row as nat,
                        col: col as nat,
                    },
                ]));
            } else {
                assert(emitted + Seq::<TokenView>::empty() =~= emitted);
            }
            return Ok(());
        }
        let c = line[col];
        if char_is_blank(c) {
            col += 1;
        } else if c == '#' {
            assert(emitted + Seq::<TokenView>::empty() =~= emitted);
            return Ok(());
        } else if let Some((op, closer)) = bracket(c) {
            match closer {
                Some(closing) => {
                    brackets.push(closing);
                },
                None => {
                    let open = brackets.len();
                    if open == 0 || brackets[open - 1] != c {
                        return Err(LexError::MismatchedOrUnbalancedBracket { row, col });
                    }
                    brackets.pop();
                },
            }
            let token = cut(line, row, col, TokenKind::Operator(op), col + 1);
            proof {
                lemma_after_after(
                    emitted,
                    seq![token@],
                    scan_line(line@, row as nat, col + 1, brackets@, true),
                );
                emitted = emitted + seq![token@];
            }
            emit(tokens, token);
            assert(tokens.deep_view() =~= before + emitted);
            col += 1;
            produced = true;
        } else {
            proof {
                lemma_next_token_found(line@, row as nat, col as int);
            }
            match read_token(line, row, col) {
                Ok((token, end)) => {
                    proof {
                        lemma_after_after(
                            emitted,
                            seq![token@],
                            scan_line(line@, row as nat, end as int, brackets@, true),
                        );
                        emitted = emitted + seq![token@];
                    }
                    emit(tokens, token);
                    assert(tokens.deep_view() =~= before + emitted);
                    col = end;
                    produced = true;
                },
                Err(error) => {
                    return Err(error);
                },
            }
        }
    }
}

/// The lexer between two lines: its indentation stack and its bracket stack.
/// Each step of the indentation stack is greater than zero.
pub struct Lexer {
    indents: Vec<usize>,
    brackets: Vec<char>,
}

impl View for Lexer {
    type V = LexerState;

    closed spec fn view(&self) -> LexerState {
        LexerState { indents: steps(self.indents@), brackets: self.brackets@ }
    }
}

impl Lexer {
    #[verifier::type_invariant]
    spec fn steps_are_columns(self) -> bool {
        all_positive(steps(self.indents@)) && total(steps(self.indents@)) <= usize::MAX
    }

    /// A lexer before the first line.
    pub fn new() -> (lexer: Lexer)
        ensures
            lexer@ == initial_state(),
            all_positive(lexer@.indents),
    {
        let lexer = Lexer { indents: Vec::new(), brackets: Vec::new() };
        assert(lexer@.indents =~= Seq::<nat>::empty());
        lexer
    }

    /// How many blocks are open.
    pub fn open_blocks(&self) -> (count: usize)
        ensures
            count == self@.indents.len(),
    {
        self.indents.len()
    }

    /// How many brackets are open.
    pub fn open_brackets(&self) -> (count: usize)
        ensures
            count == self@.brackets.len(),
    {
        self.brackets.len()
    }

    /// Reads `line`, which is row `row`: gives the lexer after the line and
    /// the tokens of the line, or the first error in it.
    pub fn feed_line(self, line: &Vec<char>, row: usize) -> (result: Result<
        (Lexer, Vec<Token>),
        LexError,
    >)
        ensures
            match lex_line(self@, line@, row as nat) {
                Ok((tokens, state)) => result matches Ok((lexer, found)) && lexer@ == state
                    && all_positive(lexer@.indents) && found.deep_view() == tokens,
                Err(error) => result matches Err(found) && found == error,
            },
    {
        proof {
            use_type_invariant(&self);
        }
        let mut indents = self.indents;
        let mut brackets = self.brackets;
        let mut tokens: Vec<Token> = Vec::new();
        let ghost state = LexerState { indents: steps(indents@), brackets: brackets@ };
        assert(tokens.deep_view() =~= Seq::<TokenView>::empty());
        let width = get_line_indentation(line);
        let blank = width >= line.len() || line[width] == '\n' || line[width] == '#';
        if !blank && brackets.len() == 0 {
            match change_indentation(&mut indents, width, row, &mut tokens) {
                Ok(()) => {},
                Err(error) => {
                    return Err(error);
                },
            }
        }
        let ghost layout = tokens.deep_view();
        match scan(&mut brackets, line, row, width, &mut tokens) {
            Ok(()) => {},
            Err(error) => {
                return Err(error);
            },
        }
        proof {
            let read = scan_line(line@, row as nat, width as int, state.brackets, false)->Ok_0;
            assert(Seq::<TokenView>::empty() + layout =~= layout);
            assert(Seq::<TokenView>::empty() + read.tokens =~= read.tokens);
        }
        Ok((Lexer { indents, brackets }, tokens))
    }

    /// Closes the blocks that are open at the end of a text of `rows` rows:
    /// gives a `Dedent` for each.
    pub fn finish(self, rows: usize) -> (tokens: Vec<Token>)
        ensures
            tokens.deep_view() == dedents(self@.indents.len() as int, rows as nat),
    {
        let mut tokens: Vec<Token> = Vec::new();
        let mut open = self.indents.len();
        assert(tokens.deep_view() =~= dedents(0, rows as nat));
        while open > 0
            invariant
                open <= self.indents.len(),
                tokens.deep_view() == dedents(self.indents.len() - open, rows as nat),
            decreases open,
        {
            open -= 1;
            emit(&mut tokens, Token::new(TokenKind::Dedent, String::new(), rows, 0));
            assert(tokens.deep_view() =~= dedents(self.indents.len() - open, rows as nat));
        }
        tokens
    }
}

/// Finds where the line ends that begins at index `from` of `source`.
fn find_line_end(source: &[u8], from: usize) -> (end: usize)
    requires
        from < source.len(),
    ensures
        end == line_end(source@, from as int),
        from < end <= source.len(),
{
    let mut end: usize = from;
    while end < source.len() && source[end] != 10
        invariant
            from <= end <= source.len(),
            line_end(source@, end as int) == line_end(source@, from as int),
        decreases source.len() - end,
    {
        end += 1;
    }
    if end < source.len() {
        end += 1;
    }
    proof {
        lemma_line_end_bounds(source@, from as int);
    }
    end
}

/// `tokens` before the tokens of `rest`.
pub open spec fn chained(
    tokens: Seq<TokenView>,
    rest: Result<(Seq<TokenView>, LexerState, nat), LexError>,
) -> Result<(Seq<TokenView>, LexerState, nat), LexError> {
    match rest {
        Ok((more, state, rows)) => Ok((tokens + more, state, rows)),
        Err(error) => Err(error),
    }
}

/// Cuts the source text `source` into tokens, or gives the first error in
/// it. The tokens hold as many `Dedent` as `Indent` tokens; their lexemes,
/// one after the other, are the code of the text but for separators; and
/// each `Indent` and `EndOfStatement` among them stands where no bracket is
/// open.
pub fn tokenize(source: &[u8]) -> (result: Result<Vec<Token>, LexError>)
    ensures
        match tokens_of(source@) {
            Ok(tokens) => result matches Ok(found) && found.deep_view() == tokens,
            Err(error) => result == Err::<Vec<Token>, LexError>(error),
        },
        result matches Ok(found) ==> count_kind(found.deep_view(), TokenKind::Indent)
            == count_kind(found.deep_view(), TokenKind::Dedent),
        result matches Ok(found) ==> significant(lexemes(found.deep_view())) == significant(
            code_of(source@),
        ),
        result matches Ok(found) ==> ({
            let tokens = found.deep_view();
            forall|i: int|
                0 <= i < tokens.len() && (#[trigger] tokens[i].kind is Indent || tokens[i].kind
                    is EndOfStatement) ==> open_brackets(tokens.take(i)) == 0
        }),
{
    proof {
        theorem_blocks_are_closed(source@);
        theorem_lexemes_are_the_code(source@);
        if let Ok(tokens) = tokens_of(source@) {
            assert forall|i: int|
                0 <= i < tokens.len() && (#[trigger] tokens[i].kind is Indent || tokens[i].kind
                    is EndOfStatement) implies open_brackets(tokens.take(i)) == 0 by {
                theorem_layout_tokens_outside_brackets(source@, i);
            }
        }
    }
    let ghost goal = lex_lines(source@, 0, 0, initial_state());
    let mut lexer = Lexer::new();
    let mut tokens: Vec<Token> = Vec::new();
    let mut from: usize = 0;
    let mut row: usize = 0;
    proof {
        if let Ok((more, state, rows)) = goal {
            assert(tokens.deep_view() + more =~= more);
        }
    }
    while from < source.len()
        invariant
            row <= from <= source.len(),
            goal == lex_lines(source@, 0, 0, initial_state()),
            chained(tokens.deep_view(), lex_lines(source@, from as int, row as nat, lexer@))
                == goal,
        decreases source.len() - from,
    {
        let end = find_line_end(source, from);
        let line = match decode_line(slice_subrange(source, from, end)) {
            Some(chars) => chars,
            None => {
                return Err(LexError::InvalidUtf8 { row });
            },
        };
        let ghost before = tokens.deep_view();
        match lexer.feed_line(&line, row) {
            Ok((next, found)) => {
                proof {
                    if let Ok((more, last, rows)) = lex_lines(
                        source@,
                        end as int,
                        (row + 1) as nat,
                        next@,
                    ) {
                        assert(before + (found.deep_view() + more) =~= (before
                            + found.deep_view()) + more);
                    }
                }
                lexer = next;
                emit_all(&mut tokens, found);
            },
            Err(error) => {
                return Err(error);
            },
        }
        from = end;
        row += 1;
    }
    let closing = lexer.finish(row);
    emit_all(&mut tokens, closing);
    Ok(tokens)
}

} // verus!
