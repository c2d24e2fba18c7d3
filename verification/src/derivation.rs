//! Derivations of the grammar, and the proof that the recognizer accepts
//! what the grammar derives, and nothing else.

use crate::grammar::{lemma_production_shape, nullable, production, Nonterminal, Symbol};
use crate::lookahead::{
    begins, begins_after, begins_from, lemma_chosen_by_first, lemma_chosen_by_follow,
    lemma_well_followed_expand, lemma_well_followed_rest, vanishes, well_followed,
};
use crate::parser::{
    expand, feed, initial_stack, lemma_expand_decreases, pending, recognize, run, with_end, Step,
};
use crate::token::{TokenKind, TokenView};
use vstd::prelude::*;

verus! {

/// Whether the grammar has the production of `n` by `symbols`: the table
/// holds it for a token of some kind.
pub open spec fn is_production(n: Nonterminal, symbols: Seq<Symbol>) -> bool {
    exists|la: TokenKind| production(n, la) == Some(symbols)
}

/// Whether the grammar derives `word` from the symbols of `form`, one part
/// of the word from each symbol in their order, by derivation trees of
/// height `height` at most.
pub open spec fn yields(form: Seq<Symbol>, word: Seq<TokenKind>, height: nat) -> bool
    decreases height, form.len() + 1,
{
    if form.len() == 0 {
        word.len() == 0
    } else {
        exists|cut: int|
            0 <= cut <= word.len() && yields_one(form[0], #[trigger] word.take(cut), height)
                && yields(form.skip(1), word.skip(cut), height)
    }
}

/// Whether the grammar derives `word` from `symbol` by a derivation tree of
/// height `height` at most: a terminal derives the one token of its kind,
/// `Epsilon` the empty word, and a nonterminal what one of its productions
/// derives.
pub open spec fn yields_one(symbol: Symbol, word: Seq<TokenKind>, height: nat) -> bool
    decreases height, 0nat,
{
    match symbol {
        Symbol::Terminal(kind) => word == seq![kind],
        Symbol::Epsilon => word.len() == 0,
        Symbol::Nonterminal(n) => height > 0 && exists|symbols: Seq<Symbol>|
            #[trigger] is_production(n, symbols) && yields(symbols, word, (height - 1) as nat),
    }
}

/// Whether the grammar derives `word` from `form`.
pub open spec fn derives(form: Seq<Symbol>, word: Seq<TokenKind>) -> bool {
    exists|height: nat| yields(form, word, height)
}

/// The kinds of `tokens`, in their order.
pub open spec fn kinds(tokens: Seq<TokenView>) -> Seq<TokenKind> {
    tokens.map_values(|token: TokenView| token.kind)
}

/// The symbols from which the grammar derives a program: a statement list,
/// and then the end of the input.
pub open spec fn program() -> Seq<Symbol> {
    seq![Symbol::Nonterminal(Nonterminal::StatementList), Symbol::Terminal(TokenKind::EndOfInput)]
}

/// What trees of some height derive, higher trees derive.
pub proof fn lemma_yields_higher(form: Seq<Symbol>, word: Seq<TokenKind>, height: nat, more: nat)
    requires
        yields(form, word, height),
        height <= more,
    ensures
        yields(form, word, more),
    decreases height, form.len() + 1,
{
    if form.len() > 0 {
        let cut = choose|cut: int|
            0 <= cut <= word.len() && yields_one(form[0], #[trigger] word.take(cut), height)
                && yields(form.skip(1), word.skip(cut), height);
        lemma_yields_one_higher(form[0], word.take(cut), height, more);
        lemma_yields_higher(form.skip(1), word.skip(cut), height, more);
    }
}

/// What a tree of some height derives, a higher tree derives.
pub proof fn lemma_yields_one_higher(symbol: Symbol, word: Seq<TokenKind>, height: nat, more: nat)
    requires
        yields_one(symbol, word, height),
        height <= more,
    ensures
        yields_one(symbol, word, more),
    decreases height, 0nat,
{
    if let Symbol::Nonterminal(n) = symbol {
        let symbols = choose|symbols: Seq<Symbol>|
            #[trigger] is_production(n, symbols) && yields(symbols, word, (height - 1) as nat);
        lemma_yields_higher(symbols, word, (height - 1) as nat, (more - 1) as nat);
    }
}

/// A symbol before a form derives what the two derive, one after the other.
pub proof fn lemma_yields_cons(
    symbol: Symbol,
    rest: Seq<Symbol>,
    first: Seq<TokenKind>,
    second: Seq<TokenKind>,
    height: nat,
)
    requires
        yields_one(symbol, first, height),
        yields(rest, second, height),
    ensures
        yields(seq![symbol] + rest, first + second, height),
{
    let form = seq![symbol] + rest;
    let word = first + second;
    let cut = first.len() as int;
    assert(form.skip(1) =~= rest);
    assert(word.take(cut) =~= first);
    assert(word.skip(cut) =~= second);
}

/// Two forms, one after the other, derive what they derive, one after the
/// other.
pub proof fn lemma_yields_join(
    front: Seq<Symbol>,
    back: Seq<Symbol>,
    first: Seq<TokenKind>,
    second: Seq<TokenKind>,
    height: nat,
)
    requires
        yields(front, first, height),
        yields(back, second, height),
    ensures
        yields(front + back, first + second, height),
    decreases front.len(),
{
    if front.len() == 0 {
        assert(front + back =~= back);
        assert(first + second =~= second);
    } else {
        let cut = choose|cut: int|
            0 <= cut <= first.len() && yields_one(front[0], #[trigger] first.take(cut), height)
                && yields(front.skip(1), first.skip(cut), height);
        lemma_yields_join(front.skip(1), back, first.skip(cut), second, height);
        lemma_yields_cons(
            front[0],
            front.skip(1) + back,
            first.take(cut),
            first.skip(cut) + second,
            height,
        );
        assert(seq![front[0]] + (front.skip(1) + back) =~= front + back);
        assert(first.take(cut) + (first.skip(cut) + second) =~= first + second);
    }
}

/// What two forms derive, one after the other, falls into what the first
/// derives and what the second derives.
pub proof fn lemma_yields_split(
    front: Seq<Symbol>,
    back: Seq<Symbol>,
    word: Seq<TokenKind>,
    height: nat,
) -> (cut: int)
    requires
        yields(front + back, word, height),
    ensures
        0 <= cut <= word.len(),
        yields(front, word.take(cut), height),
        yields(back, word.skip(cut), height),
    decreases front.len(),
{
    if front.len() == 0 {
        assert(front + back =~= back);
        assert(word.skip(0) =~= word);
        0
    } else {
        let form = front + back;
        let head = choose|cut: int|
            0 <= cut <= word.len() && yields_one(form[0], #[trigger] word.take(cut), height)
                && yields(form.skip(1), word.skip(cut), height);
        assert(form.skip(1) =~= front.skip(1) + back);
        let more = lemma_yields_split(front.skip(1), back, word.skip(head), height);
        let cut = head + more;
        assert(word.take(cut).take(head) =~= word.take(head));
        assert(word.take(cut).skip(head) =~= word.skip(head).take(more));
        assert(word.skip(cut) =~= word.skip(head).skip(more));
        cut
    }
}

/// Whether `stack` holds the end marker at its bottom and nowhere else.
pub open spec fn marker_is_bottom(stack: Seq<Symbol>) -> bool {
    forall|i: int|
        0 <= i < stack.len() ==> (#[trigger] stack[i] == Symbol::Terminal(TokenKind::EndOfInput)
            <==> i == 0)
}

/// No production holds the end marker.
pub proof fn lemma_production_has_no_marker(n: Nonterminal, la: TokenKind)
    ensures
        production(n, la) matches Some(symbols) ==> forall|i: int|
            0 <= i < symbols.len() ==> symbols[i] != Symbol::Terminal(TokenKind::EndOfInput),
{
}

/// The automaton keeps the end marker at the bottom of its stack, and
/// empties the stack where it takes the end of the input.
pub proof fn lemma_feed_keeps_marker(stack: Seq<Symbol>, la: TokenKind)
    requires
        marker_is_bottom(stack),
    ensures
        marker_is_bottom(feed(stack, la).1),
        feed(stack, la).0 == Step::Shifted && la == TokenKind::EndOfInput ==> feed(stack, la).1.len()
            == 0,
    decreases pending(stack),
{
    if stack.len() > 0 {
        match stack.last() {
            Symbol::Terminal(kind) => {},
            Symbol::Epsilon => {
                lemma_feed_keeps_marker(stack.drop_last(), la);
            },
            Symbol::Nonterminal(n) => {
                if let Some(symbols) = production(n, la) {
                    lemma_expand_decreases(stack, n, la);
                    lemma_production_has_no_marker(n, la);
                    lemma_feed_keeps_marker(expand(stack, symbols), la);
                }
            },
        }
    }
}

/// Where the automaton takes a token, its stack from the top down derived
/// that token and then what the stack that is left derives: it goes from the
/// one stack to the other by productions of the grammar.
pub proof fn lemma_feed_derives(stack: Seq<Symbol>, la: TokenKind, word: Seq<TokenKind>, height: nat) -> (more: nat)
    requires
        feed(stack, la).0 == Step::Shifted,
        yields(feed(stack, la).1.reverse(), word, height),
    ensures
        yields(stack.reverse(), seq![la] + word, more),
    decreases pending(stack),
{
    let top = stack.last();
    let below = stack.drop_last();
    assert(stack.reverse() =~= seq![top] + below.reverse());
    match top {
        Symbol::Terminal(kind) => {
            lemma_yields_cons(top, below.reverse(), seq![la], word, height);
            height
        },
        Symbol::Epsilon => {
            let more = lemma_feed_derives(below, la, word, height);
            lemma_yields_cons(top, below.reverse(), Seq::empty(), seq![la] + word, more);
            assert(Seq::<TokenKind>::empty() + (seq![la] + word) =~= seq![la] + word);
            more
        },
        Symbol::Nonterminal(n) => {
            let symbols = production(n, la)->0;
            let all = seq![la] + word;
            lemma_expand_decreases(stack, n, la);
            let inner = lemma_feed_derives(expand(stack, symbols), la, word, height);
            assert(expand(stack, symbols).reverse() =~= symbols + below.reverse());
            let cut = lemma_yields_split(symbols, below.reverse(), all, inner);
            let more = inner + 1;
            assert(is_production(n, symbols));
            assert(yields(symbols, all.take(cut), (more - 1) as nat));
            lemma_yields_higher(below.reverse(), all.skip(cut), inner, more);
            lemma_yields_cons(top, below.reverse(), all.take(cut), all.skip(cut), more);
            assert(all.take(cut) + all.skip(cut) =~= all);
            more
        },
    }
}

/// Where the automaton takes all of `tokens` from the token at `next` on,
/// the last of which is the end of the input, its stack from the top down
/// derives the kinds of these tokens.
pub proof fn lemma_run_derives(stack: Seq<Symbol>, tokens: Seq<TokenView>, next: int) -> (height: nat)
    requires
        0 <= next < tokens.len(),
        tokens.last().kind == TokenKind::EndOfInput,
        marker_is_bottom(stack),
        run(stack, tokens, next) is Ok,
    ensures
        yields(stack.reverse(), kinds(tokens.skip(next)), height),
    decreases tokens.len() - next,
{
    let la = tokens[next].kind;
    let rest = feed(stack, la).1;
    lemma_feed_keeps_marker(stack, la);
    assert(kinds(tokens.skip(next)) =~= seq![la] + kinds(tokens.skip(next + 1)));
    if next + 1 < tokens.len() {
        let inner = lemma_run_derives(rest, tokens, next + 1);
        lemma_feed_derives(stack, la, kinds(tokens.skip(next + 1)), inner)
    } else {
        assert(rest.reverse() =~= Seq::<Symbol>::empty());
        assert(kinds(tokens.skip(next + 1)) =~= Seq::<TokenKind>::empty());
        lemma_feed_derives(stack, la, kinds(tokens.skip(next + 1)), 0)
    }
}

/// What the recognizer accepts, the grammar derives: from a statement list
/// and the end of the input it derives the kinds of the tokens up to and
/// with the end of the input.
pub proof fn theorem_accepted_is_derived(tokens: Seq<TokenView>)
    requires
        recognize(tokens) is Ok,
    ensures
        derives(program(), kinds(with_end(tokens))),
{
    let all = with_end(tokens);
    let height = lemma_run_derives(initial_stack(), all, 0);
    assert(all.skip(0) =~= all);
    assert(initial_stack().reverse() =~= program());
}

/// A production that derives the empty word is the empty production, and
/// its nonterminal is one that can vanish.
pub proof fn lemma_empty_production(n: Nonterminal, symbols: Seq<Symbol>, height: nat)
    requires
        is_production(n, symbols),
        yields(symbols, Seq::empty(), height),
    ensures
        symbols.len() == 0,
        nullable(n),
    decreases height,
{
    let chosen = choose|la: TokenKind| production(n, la) == Some(symbols);
    lemma_production_shape(n, chosen);
    if symbols.len() > 0 {
        let word = Seq::<TokenKind>::empty();
        let cut = choose|cut: int|
            0 <= cut <= word.len() && yields_one(symbols[0], #[trigger] word.take(cut), height)
                && yields(symbols.skip(1), word.skip(cut), height);
        assert(word.take(cut) =~= word);
        if let Symbol::Nonterminal(m) = symbols[0] {
            let inner = choose|inner: Seq<Symbol>|
                #[trigger] is_production(m, inner) && yields(inner, word, (height - 1) as nat);
            lemma_empty_production(m, inner, (height - 1) as nat);
        }
    }
}

/// A symbol that derives the empty word is one that can vanish.
pub proof fn lemma_empty_vanishes(symbol: Symbol, height: nat)
    requires
        yields_one(symbol, Seq::empty(), height),
    ensures
        vanishes(symbol),
{
    if let Symbol::Terminal(kind) = symbol {
        assert(seq![kind].len() == 1);
    }
    if let Symbol::Nonterminal(n) = symbol {
        let symbols = choose|symbols: Seq<Symbol>|
            #[trigger] is_production(n, symbols) && yields(
                symbols,
                Seq::empty(),
                (height - 1) as nat,
            );
        lemma_empty_production(n, symbols, (height - 1) as nat);
    }
}

/// The table chooses a production for the kind of the first token of each
/// word that the production derives.
pub proof fn lemma_first_production(
    n: Nonterminal,
    symbols: Seq<Symbol>,
    word: Seq<TokenKind>,
    height: nat,
)
    requires
        is_production(n, symbols),
        yields(symbols, word, height),
        word.len() > 0,
    ensures
        production(n, word[0]) == Some(symbols),
        symbols.len() > 0,
    decreases height, 2nat,
{
    let chosen = choose|la: TokenKind| production(n, la) == Some(symbols);
    lemma_production_shape(n, chosen);
    let cut = choose|cut: int|
        0 <= cut <= word.len() && yields_one(symbols[0], #[trigger] word.take(cut), height)
            && yields(symbols.skip(1), word.skip(cut), height);
    if cut == 0 {
        assert(word.take(cut) =~= Seq::<TokenKind>::empty());
        lemma_empty_vanishes(symbols[0], height);
    } else {
        lemma_first_one(symbols[0], word.take(cut), height);
        lemma_chosen_by_first(n, chosen, word[0]);
    }
}

/// A symbol can begin with the kind of the first token of each word that it
/// derives.
pub proof fn lemma_first_one(symbol: Symbol, word: Seq<TokenKind>, height: nat)
    requires
        yields_one(symbol, word, height),
        word.len() > 0,
    ensures
        begins(symbol, word[0]),
    decreases height, 1nat,
{
    if let Symbol::Nonterminal(n) = symbol {
        let symbols = choose|symbols: Seq<Symbol>|
            #[trigger] is_production(n, symbols) && yields(symbols, word, (height - 1) as nat);
        lemma_first_production(n, symbols, word, (height - 1) as nat);
    }
}

/// A form can begin, from an index on, with the kind of the first token of
/// each word that it derives from there on.
pub proof fn lemma_first_from(form: Seq<Symbol>, from: int, word: Seq<TokenKind>, height: nat)
    requires
        0 <= from <= form.len(),
        yields(form.skip(from), word, height),
        word.len() > 0,
    ensures
        begins_from(form, from, word[0]),
    decreases form.len() - from,
{
    let rest = form.skip(from);
    let cut = choose|cut: int|
        0 <= cut <= word.len() && yields_one(rest[0], #[trigger] word.take(cut), height) && yields(
            rest.skip(1),
            word.skip(cut),
            height,
        );
    assert(rest[0] == form[from]);
    if cut == 0 {
        assert(word.take(cut) =~= Seq::<TokenKind>::empty());
        assert(word.skip(cut) =~= word);
        assert(rest.skip(1) =~= form.skip(from + 1));
        lemma_empty_vanishes(form[from], height);
        lemma_first_from(form, from + 1, word, height);
    } else {
        lemma_first_one(form[from], word.take(cut), height);
    }
}

/// Where the stack of the automaton, from the top down, is well followed
/// and derives a token and then a word, the automaton takes the token, and
/// the stack that it leaves is well followed and derives the word: against
/// each nonterminal the table chooses the production by which the grammar
/// derives what comes.
pub proof fn lemma_feed_takes(stack: Seq<Symbol>, la: TokenKind, word: Seq<TokenKind>, height: nat)
    requires
        well_followed(stack.reverse()),
        yields(stack.reverse(), seq![la] + word, height),
    ensures
        feed(stack, la).0 == Step::Shifted,
        well_followed(feed(stack, la).1.reverse()),
        yields(feed(stack, la).1.reverse(), word, height),
    decreases pending(stack),
{
    let form = stack.reverse();
    let all = seq![la] + word;
    let top = stack.last();
    let below = stack.drop_last();
    let rest = below.reverse();
    assert(form =~= seq![top] + rest);
    let cut = choose|cut: int|
        0 <= cut <= all.len() && yields_one(form[0], #[trigger] all.take(cut), height) && yields(
            form.skip(1),
            all.skip(cut),
            height,
        );
    assert(form.skip(1) =~= rest);
    let first = all.take(cut);
    match top {
        Symbol::Terminal(kind) => {
            assert(first[0] == kind);
            assert(all.skip(cut) =~= word);
            lemma_well_followed_rest(top, rest);
        },
        Symbol::Epsilon => {
            assert(all.skip(cut) =~= all);
            lemma_well_followed_rest(top, rest);
            lemma_feed_takes(below, la, word, height);
        },
        Symbol::Nonterminal(n) => {
            let symbols = choose|symbols: Seq<Symbol>|
                #[trigger] is_production(n, symbols) && yields(symbols, first, (height - 1) as nat);
            if cut == 0 {
                assert(first =~= Seq::<TokenKind>::empty());
                assert(all.skip(cut) =~= all);
                lemma_empty_production(n, symbols, (height - 1) as nat);
                lemma_first_from(form, 1, all, height);
                assert(begins_after(form, 0, la));
                lemma_chosen_by_follow(n, la);
                assert(symbols =~= Seq::<Symbol>::empty());
            } else {
                lemma_first_production(n, symbols, first, (height - 1) as nat);
            }
            assert(production(n, la) == Some(symbols));
            let next = expand(stack, symbols);
            assert(next.reverse() =~= symbols + rest);
            lemma_yields_higher(symbols, first, (height - 1) as nat, height);
            lemma_yields_join(symbols, rest, first, all.skip(cut), height);
            assert(first + all.skip(cut) =~= all);
            lemma_well_followed_expand(n, la, rest);
            lemma_expand_decreases(stack, n, la);
            lemma_feed_takes(next, la, word, height);
        },
    }
}

/// Where the stack of the automaton, from the top down, is well followed
/// and derives the kinds of `tokens` from the token at `next` on, the
/// automaton takes all these tokens.
pub proof fn lemma_run_takes(stack: Seq<Symbol>, tokens: Seq<TokenView>, next: int, height: nat)
    requires
        0 <= next <= tokens.len(),
        well_followed(stack.reverse()),
        yields(stack.reverse(), kinds(tokens.skip(next)), height),
    ensures
        run(stack, tokens, next) is Ok,
    decreases tokens.len() - next,
{
    if next < tokens.len() {
        let la = tokens[next].kind;
        assert(kinds(tokens.skip(next)) =~= seq![la] + kinds(tokens.skip(next + 1)));
        lemma_feed_takes(stack, la, kinds(tokens.skip(next + 1)), height);
        lemma_run_takes(feed(stack, la).1, tokens, next + 1, height);
    }
}

/// What the grammar derives, the recognizer accepts: tokens of which the
/// kinds, up to and with the end of the input, are derived from a statement
/// list and the end of the input.
pub proof fn theorem_derived_is_accepted(tokens: Seq<TokenView>)
    requires
        derives(program(), kinds(with_end(tokens))),
    ensures
        recognize(tokens) is Ok,
{
    let all = with_end(tokens);
    let height = choose|height: nat| yields(program(), kinds(all), height);
    assert(all.skip(0) =~= all);
    assert(initial_stack().reverse() =~= program());
    assert(well_followed(program())) by {
        reveal_with_fuel(begins_from, 3);
    }
    lemma_run_takes(initial_stack(), all, 0, height);
}

/// The recognizer accepts a token sequence if and only if the grammar
/// derives the kinds of the tokens, up to and with the end of the input,
/// from a statement list and the end of the input.
pub proof fn theorem_recognizer_decides_the_grammar(tokens: Seq<TokenView>)
    ensures
        recognize(tokens) is Ok <==> derives(program(), kinds(with_end(tokens))),
{
    if recognize(tokens) is Ok {
        theorem_accepted_is_derived(tokens);
    }
    if derives(program(), kinds(with_end(tokens))) {
        theorem_derived_is_accepted(tokens);
    }
}

} // verus!
