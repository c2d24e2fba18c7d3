//! Indentation as syntax: the stack of indentation steps, and how the
//! indentation of a line changes it.

use crate::token::{TokenKind, TokenView};
use vstd::prelude::*;

verus! {

/// The sum of the steps in `indents`: by how many columns the innermost block
/// is indented.
pub open spec fn total(indents: Seq<nat>) -> nat
    decreases indents.len(),
{
    if indents.len() == 0 {
        0
    } else {
        total(indents.drop_last()) + indents.last()
    }
}

/// Whether each step in `indents` is greater than zero.
pub open spec fn all_positive(indents: Seq<nat>) -> bool {
    forall|i: int| 0 <= i < indents.len() ==> #[trigger] indents[i] > 0
}

/// Whether the first `n` steps of `indents` add up to `width`: a block
/// around the innermost one, or that one itself, is indented by `width`
/// columns.
pub open spec fn lands_on(indents: Seq<nat>, width: nat, n: int) -> bool {
    0 <= n <= indents.len() && total(indents.take(n)) == width
}

/// The stack after a line that is indented by `width` columns. A line that
/// is indented deeper than the innermost block opens a block: the
/// difference is pushed. One that is indented less closes blocks: steps are
/// popped until the rest adds up to `width`; where no number of steps adds up
/// to it, the indentation is invalid and there is no such stack.
pub open spec fn reindent(indents: Seq<nat>, width: nat) -> Option<Seq<nat>> {
    if width > total(indents) {
        Some(indents.push((width - total(indents)) as nat))
    } else if exists|n: int| lands_on(indents, width, n) {
        Some(indents.take(choose|n: int| lands_on(indents, width, n)))
    } else {
        None
    }
}

/// An `Indent` or `Dedent` token of row `row`. It has no text and stands at
/// column zero.
pub open spec fn layout_token(kind: TokenKind, row: nat) -> TokenView {
    TokenView { kind, lexeme: Seq::empty(), row, col: 0 }
}

/// `count` `Dedent` tokens of row `row`.
pub open spec fn dedents(count: int, row: nat) -> Seq<TokenView> {
    Seq::new(
        if count > 0 {
            count as nat
        } else {
            0
        },
        |i: int| layout_token(TokenKind::Dedent, row),
    )
}

/// The tokens that stand for a change of the stack from `before` steps to
/// `after` steps in row `row`: one `Indent` where it has grown, and a
/// `Dedent` for each step that it has lost.
pub open spec fn layout_tokens(before: int, after: int, row: nat) -> Seq<TokenView> {
    if after > before {
        seq![layout_token(TokenKind::Indent, row)]
    } else {
        dedents(before - after, row)
    }
}

/// More steps add up to no less.
pub proof fn lemma_total_grows(indents: Seq<nat>, fewer: int, more: int)
    requires
        0 <= fewer <= more <= indents.len(),
    ensures
        total(indents.take(fewer)) <= total(indents.take(more)),
    decreases more - fewer,
{
    if fewer < more {
        assert(indents.take(more).drop_last() =~= indents.take(more - 1));
        lemma_total_grows(indents, fewer, more - 1);
    }
}

/// More steps add up to more, where each step is greater than zero.
pub proof fn lemma_total_grows_strictly(indents: Seq<nat>, fewer: int, more: int)
    requires
        all_positive(indents),
        0 <= fewer < more <= indents.len(),
    ensures
        total(indents.take(fewer)) < total(indents.take(more)),
{
    assert(indents.take(more).drop_last() =~= indents.take(more - 1));
    assert(indents.take(more).last() == indents[more - 1]);
    lemma_total_grows(indents, fewer, more - 1);
}

/// At most one number of steps adds up to a given width.
pub proof fn lemma_lands_on_unique(indents: Seq<nat>, width: nat, n: int, m: int)
    requires
        all_positive(indents),
        lands_on(indents, width, n),
        lands_on(indents, width, m),
    ensures
        n == m,
{
    if n < m {
        lemma_total_grows_strictly(indents, n, m);
    } else if m < n {
        lemma_total_grows_strictly(indents, m, n);
    }
}

/// The stack that `reindent` gives adds up to the new width, and its steps
/// are greater than zero where they were before.
pub proof fn lemma_reindent(indents: Seq<nat>, width: nat)
    requires
        all_positive(indents),
        reindent(indents, width) is Some,
    ensures
        all_positive(reindent(indents, width)->0),
        total(reindent(indents, width)->0) == width,
{
    let after = reindent(indents, width)->0;
    if width > total(indents) {
        assert(after.drop_last() =~= indents);
    }
}

} // verus!
