//! Which kinds of token can begin a symbol of the grammar and which can
//! follow it, read off the table, and that the table chooses its
//! productions by them.

use crate::grammar::{
    ends_comparison, ends_expression, ends_primary, ends_product, ends_statement,
    ends_statement_list, ends_sum, nullable, production, Nonterminal, Symbol,
};
use crate::token::{Keyword, Operator, TokenKind};
use vstd::prelude::*;

verus! {

/// Whether what `symbol` derives can begin with a token of kind `la`.
pub open spec fn begins(symbol: Symbol, la: TokenKind) -> bool {
    match symbol {
        Symbol::Terminal(kind) => kind == la,
        Symbol::Nonterminal(n) => production(n, la) matches Some(symbols) && symbols.len() > 0,
        Symbol::Epsilon => false,
    }
}

/// Whether `symbol` can derive the empty word.
pub open spec fn vanishes(symbol: Symbol) -> bool {
    match symbol {
        Symbol::Terminal(_) => false,
        Symbol::Nonterminal(n) => nullable(n),
        Symbol::Epsilon => true,
    }
}

/// Whether a token of kind `la` can follow what `n` derives.
pub open spec fn follows(n: Nonterminal, la: TokenKind) -> bool {
    match n {
        Nonterminal::StatementList | Nonterminal::StatementListTail => ends_statement_list(la),
        Nonterminal::Statement | Nonterminal::ElseClause => ends_statement(la),
        Nonterminal::Block => ends_statement(la) || la == TokenKind::ReservedWord(Keyword::Else)
            || la == TokenKind::ReservedWord(Keyword::Elif),
        Nonterminal::IdList | Nonterminal::IdListTail => la == TokenKind::Operator(
            Operator::RightParen,
        ),
        Nonterminal::ExpressionList | Nonterminal::ExpressionListTail => la
            == TokenKind::EndOfStatement || la == TokenKind::Operator(Operator::RightParen),
        Nonterminal::ExpressionStatement
        | Nonterminal::ExpressionStatementTail
        | Nonterminal::AssignmentTail => la == TokenKind::EndOfStatement,
        Nonterminal::Assignment => false,
        Nonterminal::Expression | Nonterminal::LogicalTail => ends_expression(la),
        Nonterminal::Comparison | Nonterminal::ComparisonTail => ends_comparison(la),
        Nonterminal::Product | Nonterminal::ProductTail => ends_product(la),
        Nonterminal::Sum | Nonterminal::SumTail => ends_sum(la),
        Nonterminal::Primary | Nonterminal::NameOrCall | Nonterminal::CallTail => ends_primary(la),
    }
}

/// Whether what the symbols of `form` from index `from` on derive can begin
/// with a token of kind `la`.
pub open spec fn begins_from(form: Seq<Symbol>, from: int, la: TokenKind) -> bool
    decreases form.len() - from,
{
    0 <= from < form.len() && (begins(form[from], la) || (vanishes(form[from]) && begins_from(
        form,
        from + 1,
        la,
    )))
}

/// Whether each symbol of `form` from index `from` on can derive the empty
/// word.
pub open spec fn vanish_from(form: Seq<Symbol>, from: int) -> bool
    decreases form.len() - from,
{
    from >= form.len() || (0 <= from && vanishes(form[from]) && vanish_from(form, from + 1))
}

/// Whether the symbols of the production `symbols` of `n` from index `from`
/// on are followed as `follows` says: a token that can begin what stands
/// after a nonterminal, or can follow `n` where all that stands after it
/// can vanish, can follow that nonterminal.
pub open spec fn followed_from(n: Nonterminal, symbols: Seq<Symbol>, from: int) -> bool
    decreases symbols.len() - from,
{
    from >= symbols.len() || (0 <= from && (symbols[from] matches Symbol::Nonterminal(m)
        ==> forall|la: TokenKind|
        begins_from(symbols, from + 1, la) || (vanish_from(symbols, from + 1) && follows(n, la))
            ==> #[trigger] follows(m, la)) && followed_from(n, symbols, from + 1))
}

/// The table chooses a production that is not empty for each kind of token
/// that can begin its first symbol.
pub proof fn lemma_chosen_by_first(n: Nonterminal, chosen: TokenKind, la: TokenKind)
    ensures
        production(n, chosen) matches Some(symbols) ==> (symbols.len() > 0 && begins(
            symbols[0],
            la,
        ) ==> production(n, la) == Some(symbols)),
{
}

/// The table chooses the empty production of a nonterminal that can vanish
/// for each kind of token that can follow it.
pub proof fn lemma_chosen_by_follow(n: Nonterminal, la: TokenKind)
    requires
        nullable(n),
        follows(n, la),
    ensures
        production(n, la) == Some(Seq::<Symbol>::empty()),
{
}

/// In each production of the table the symbols are followed as `follows`
/// says.
pub proof fn lemma_production_followed(n: Nonterminal, la: TokenKind)
    ensures
        production(n, la) matches Some(symbols) ==> followed_from(n, symbols, 0),
{
    reveal_with_fuel(followed_from, 9);
    reveal_with_fuel(begins_from, 9);
    reveal_with_fuel(vanish_from, 9);
}

/// Whether a token of kind `la` can begin what stands after the symbol at
/// index `at` of `form`.
pub open spec fn begins_after(form: Seq<Symbol>, at: int, la: TokenKind) -> bool {
    begins_from(form, at + 1, la)
}

/// Whether each nonterminal of `form` is followed as `follows` says: a token
/// that can begin what stands after it can follow it.
pub open spec fn well_followed(form: Seq<Symbol>) -> bool {
    forall|at: int, la: TokenKind|
        0 <= at < form.len() && #[trigger] begins_after(form, at, la) ==> (
        form[at] matches Symbol::Nonterminal(m) ==> follows(m, la))
}

/// What can begin two forms, one after the other, from an index of the
/// first on, can begin the first from there on, or else the second where
/// the first can vanish from there on.
pub proof fn lemma_begins_from_front(front: Seq<Symbol>, back: Seq<Symbol>, from: int, la: TokenKind)
    requires
        0 <= from <= front.len(),
        begins_from(front + back, from, la),
    ensures
        begins_from(front, from, la) || (vanish_from(front, from) && begins_from(back, 0, la)),
    decreases front.len() - from,
{
    let form = front + back;
    if from < front.len() {
        assert(form[from] == front[from]);
        if !begins(form[from], la) {
            lemma_begins_from_front(front, back, from + 1, la);
        }
    } else {
        lemma_begins_from_back(front, back, 0, la);
    }
}

/// What can begin two forms, one after the other, from an index of the
/// second on, is what can begin the second from there on.
pub proof fn lemma_begins_from_back(front: Seq<Symbol>, back: Seq<Symbol>, from: int, la: TokenKind)
    requires
        0 <= from,
    ensures
        begins_from(front + back, front.len() + from, la) == begins_from(back, from, la),
    decreases back.len() - from,
{
    let form = front + back;
    if from < back.len() {
        assert(form[front.len() + from] == back[from]);
        lemma_begins_from_back(front, back, from + 1, la);
    }
}

/// In a production of the table, a token that can begin what stands after a
/// nonterminal, or can follow the nonterminal of the production where all
/// that stands after it can vanish, can follow that nonterminal.
pub proof fn lemma_followed_at(n: Nonterminal, chosen: TokenKind, at: int, la: TokenKind)
    requires
        production(n, chosen) is Some,
        0 <= at < production(n, chosen)->0.len(),
        ({
            let symbols = production(n, chosen)->0;
            begins_from(symbols, at + 1, la) || (vanish_from(symbols, at + 1) && follows(n, la))
        }),
    ensures
        production(n, chosen)->0[at] matches Symbol::Nonterminal(m) ==> follows(m, la),
{
    let symbols = production(n, chosen)->0;
    lemma_production_followed(n, chosen);
    lemma_followed_from(n, symbols, 0, at);
}

/// What holds of the symbols of a production from some index on holds of
/// each of them.
proof fn lemma_followed_from(n: Nonterminal, symbols: Seq<Symbol>, from: int, at: int)
    requires
        0 <= from <= at < symbols.len(),
        followed_from(n, symbols, from),
    ensures
        symbols[at] matches Symbol::Nonterminal(m) ==> forall|la: TokenKind|
            begins_from(symbols, at + 1, la) || (vanish_from(symbols, at + 1) && follows(n, la))
                ==> #[trigger] follows(m, la),
    decreases at - from,
{
    if from < at {
        lemma_followed_from(n, symbols, from + 1, at);
    }
}

/// A form stays well followed where the production that the table chooses
/// takes the place of the nonterminal at its front.
pub proof fn lemma_well_followed_expand(n: Nonterminal, chosen: TokenKind, rest: Seq<Symbol>)
    requires
        production(n, chosen) is Some,
        well_followed(seq![Symbol::Nonterminal(n)] + rest),
    ensures
        well_followed(production(n, chosen)->0 + rest),
{
    let symbols = production(n, chosen)->0;
    let before = seq![Symbol::Nonterminal(n)] + rest;
    let form = symbols + rest;
    assert forall|at: int, la: TokenKind|
        0 <= at < form.len() && #[trigger] begins_after(form, at, la) implies (
    form[at] matches Symbol::Nonterminal(m) ==> follows(m, la)) by {
        if at < symbols.len() {
            assert(form[at] == symbols[at]);
            lemma_begins_from_front(symbols, rest, at + 1, la);
            if !begins_from(symbols, at + 1, la) {
                lemma_begins_from_back(seq![Symbol::Nonterminal(n)], rest, 0, la);
                assert(begins_after(before, 0, la));
                assert(before[0] == Symbol::Nonterminal(n));
            }
            lemma_followed_at(n, chosen, at, la);
        } else {
            let back = at - symbols.len();
            assert(form[at] == rest[back]);
            lemma_begins_from_back(symbols, rest, back + 1, la);
            lemma_begins_from_back(seq![Symbol::Nonterminal(n)], rest, back + 1, la);
            assert(begins_after(before, 1 + back, la));
            assert(before[1 + back] == rest[back]);
        }
    }
}

/// A form stays well followed without the symbol at its front.
pub proof fn lemma_well_followed_rest(first: Symbol, rest: Seq<Symbol>)
    requires
        well_followed(seq![first] + rest),
    ensures
        well_followed(rest),
{
    let before = seq![first] + rest;
    assert forall|at: int, la: TokenKind|
        0 <= at < rest.len() && #[trigger] begins_after(rest, at, la) implies (
    rest[at] matches Symbol::Nonterminal(m) ==> follows(m, la)) by {
        lemma_begins_from_back(seq![first], rest, at + 1, la);
        assert(begins_after(before, 1 + at, la));
        assert(before[1 + at] == rest[at]);
    }
}

} // verus!
