//! The grammar of the language as data: its symbols, and for each nonterminal
//! and each kind of the next token the production that a top-down recognizer
//! expands.

use crate::token::{Keyword, Operator, TokenKind, KIND_COUNT};
use vstd::prelude::*;

verus! {

/// How many nonterminals the grammar has.
pub const NONTERMINAL_COUNT: usize = 24;

/// How many cells the table has: one for each nonterminal and each token kind.
pub const CELL_COUNT: usize = 2040;

/// A category of the grammar.
#[derive(Clone, Copy, Debug, PartialEq, Eq, Hash, Structural)]
pub enum Nonterminal {
    /// Statements up to the end of a block or of the input. The start symbol.
    StatementList,
    /// One statement.
    Statement,
    /// What follows a statement in a statement list.
    StatementListTail,
    /// An indented statement list.
    Block,
    /// The parameter names of a function definition.
    IdList,
    /// Expressions separated by commas.
    ExpressionList,
    /// A call or an assignment that stands as a statement.
    ExpressionStatement,
    /// An expression.
    Expression,
    /// What may follow the block of an `if` or `elif`.
    ElseClause,
    /// What follows a name in a list of names.
    IdListTail,
    /// What follows the name that begins an expression statement.
    ExpressionStatementTail,
    /// An assignment operator and the assigned expression.
    AssignmentTail,
    /// The arguments of a call, or nothing.
    CallTail,
    /// A name, or a call of it.
    NameOrCall,
    /// What follows an expression in an expression list.
    ExpressionListTail,
    /// A name, an assignment operator and the assigned expression.
    Assignment,
    /// An operand of `and` and `or`.
    Comparison,
    /// `and` or `or` and what they join, or nothing.
    LogicalTail,
    /// An operand of a comparison: operands joined by `*`, `/` and `^`.
    Product,
    /// A comparison operator and what it compares with, or nothing.
    ComparisonTail,
    /// An operand of `*`, `/` and `^`: operands joined by `+` and `-`.
    Sum,
    /// `*`, `/` or `^` and what follows, or nothing.
    ProductTail,
    /// A name, a call, a literal or an expression in parentheses.
    Primary,
    /// `+` or `-` and what follows, or nothing.
    SumTail,
}

impl Nonterminal {
    /// The position of this nonterminal in the list above, counted from zero.
    pub open spec fn index(self) -> nat {
        match self {
            Nonterminal::StatementList => 0,
            Nonterminal::Statement => 1,
            Nonterminal::StatementListTail => 2,
            Nonterminal::Block => 3,
            Nonterminal::IdList => 4,
            Nonterminal::ExpressionList => 5,
            Nonterminal::ExpressionStatement => 6,
            Nonterminal::Expression => 7,
            Nonterminal::ElseClause => 8,
            Nonterminal::IdListTail => 9,
            Nonterminal::ExpressionStatementTail => 10,
            Nonterminal::AssignmentTail => 11,
            Nonterminal::CallTail => 12,
            Nonterminal::NameOrCall => 13,
            Nonterminal::ExpressionListTail => 14,
            Nonterminal::Assignment => 15,
            Nonterminal::Comparison => 16,
            Nonterminal::LogicalTail => 17,
            Nonterminal::Product => 18,
            Nonterminal::ComparisonTail => 19,
            Nonterminal::Sum => 20,
            Nonterminal::ProductTail => 21,
            Nonterminal::Primary => 22,
            Nonterminal::SumTail => 23,
        }
    }

    /// The position of this nonterminal in the list above, counted from zero.
    pub fn ordinal(self) -> (i: usize)
        ensures
            i == self.index(),
            i < NONTERMINAL_COUNT,
    {
        match self {
            Nonterminal::StatementList => 0,
            Nonterminal::Statement => 1,
            Nonterminal::StatementListTail => 2,
            Nonterminal::Block => 3,
            Nonterminal::IdList => 4,
            Nonterminal::ExpressionList => 5,
            Nonterminal::ExpressionStatement => 6,
            Nonterminal::Expression => 7,
            Nonterminal::ElseClause => 8,
            Nonterminal::IdListTail => 9,
            Nonterminal::ExpressionStatementTail => 10,
            Nonterminal::AssignmentTail => 11,
            Nonterminal::CallTail => 12,
            Nonterminal::NameOrCall => 13,
            Nonterminal::ExpressionListTail => 14,
            Nonterminal::Assignment => 15,
            Nonterminal::Comparison => 16,
            Nonterminal::LogicalTail => 17,
            Nonterminal::Product => 18,
            Nonterminal::ComparisonTail => 19,
            Nonterminal::Sum => 20,
            Nonterminal::ProductTail => 21,
            Nonterminal::Primary => 22,
            Nonterminal::SumTail => 23,
        }
    }

    /// The nonterminal at position `i` of the list above.
    pub fn from_ordinal(i: usize) -> (found: Nonterminal)
        requires
            i < NONTERMINAL_COUNT,
        ensures
            found.index() == i,
    {
        match i {
            0 => Nonterminal::StatementList,
            1 => Nonterminal::Statement,
            2 => Nonterminal::StatementListTail,
            3 => Nonterminal::Block,
            4 => Nonterminal::IdList,
            5 => Nonterminal::ExpressionList,
            6 => Nonterminal::ExpressionStatement,
            7 => Nonterminal::Expression,
            8 => Nonterminal::ElseClause,
            9 => Nonterminal::IdListTail,
            10 => Nonterminal::ExpressionStatementTail,
            11 => Nonterminal::AssignmentTail,
            12 => Nonterminal::CallTail,
            13 => Nonterminal::NameOrCall,
            14 => Nonterminal::ExpressionListTail,
            15 => Nonterminal::Assignment,
            16 => Nonterminal::Comparison,
            17 => Nonterminal::LogicalTail,
            18 => Nonterminal::Product,
            19 => Nonterminal::ComparisonTail,
            20 => Nonterminal::Sum,
            21 => Nonterminal::ProductTail,
            22 => Nonterminal::Primary,
            _ => Nonterminal::SumTail,
        }
    }
}

/// A symbol of the grammar.
#[derive(Clone, Copy, Debug, PartialEq, Eq, Hash, Structural)]
pub enum Symbol {
    /// A category that a production expands.
    Nonterminal(Nonterminal),
    /// A token kind that the next token has to be of.
    Terminal(TokenKind),
    /// The empty string.
    Epsilon,
}

/// The symbol for a nonterminal.
pub open spec fn spec_nt(n: Nonterminal) -> Symbol {
    Symbol::Nonterminal(n)
}

/// The symbol for a nonterminal.
#[verifier::when_used_as_spec(spec_nt)]
pub fn nt(n: Nonterminal) -> (s: Symbol)
    ensures
        s == spec_nt(n),
{
    Symbol::Nonterminal(n)
}

/// The symbol for a token kind.
pub open spec fn spec_tk(kind: TokenKind) -> Symbol {
    Symbol::Terminal(kind)
}

/// The symbol for a token kind.
#[verifier::when_used_as_spec(spec_tk)]
pub fn tk(kind: TokenKind) -> (s: Symbol)
    ensures
        s == spec_tk(kind),
{
    Symbol::Terminal(kind)
}

/// The symbol for a reserved word.
pub open spec fn spec_word(k: Keyword) -> Symbol {
    Symbol::Terminal(TokenKind::ReservedWord(k))
}

/// The symbol for a reserved word.
#[verifier::when_used_as_spec(spec_word)]
pub fn word(k: Keyword) -> (s: Symbol)
    ensures
        s == spec_word(k),
{
    Symbol::Terminal(TokenKind::ReservedWord(k))
}

/// The symbol for an operator.
pub open spec fn spec_op(o: Operator) -> Symbol {
    Symbol::Terminal(TokenKind::Operator(o))
}

/// The symbol for an operator.
#[verifier::when_used_as_spec(spec_op)]
pub fn op(o: Operator) -> (s: Symbol)
    ensures
        s == spec_op(o),
{
    Symbol::Terminal(TokenKind::Operator(o))
}

/// Whether a statement can begin with a token of kind `la`.
pub open spec fn spec_starts_statement(la: TokenKind) -> bool {
    match la {
        TokenKind::Identifier
            | TokenKind::ReservedWord(Keyword::Def)
            | TokenKind::ReservedWord(Keyword::Break)
            | TokenKind::ReservedWord(Keyword::Continue)
            | TokenKind::ReservedWord(Keyword::Return)
            | TokenKind::ReservedWord(Keyword::For)
            | TokenKind::ReservedWord(Keyword::While)
            | TokenKind::ReservedWord(Keyword::If) => true,
        _ => false,
    }
}

/// Whether a statement can begin with a token of kind `la`.
#[verifier::when_used_as_spec(spec_starts_statement)]
pub fn starts_statement(la: TokenKind) -> (b: bool)
    ensures
        b == spec_starts_statement(la),
{
    match la {
        TokenKind::Identifier
            | TokenKind::ReservedWord(Keyword::Def)
            | TokenKind::ReservedWord(Keyword::Break)
            | TokenKind::ReservedWord(Keyword::Continue)
            | TokenKind::ReservedWord(Keyword::Return)
            | TokenKind::ReservedWord(Keyword::For)
            | TokenKind::ReservedWord(Keyword::While)
            | TokenKind::ReservedWord(Keyword::If) => true,
        _ => false,
    }
}

/// Whether a token of kind `la` can follow a statement list: the end of a block or of the input.
pub open spec fn spec_ends_statement_list(la: TokenKind) -> bool {
    match la {
        TokenKind::Dedent
            | TokenKind::EndOfInput => true,
        _ => false,
    }
}

/// Whether a token of kind `la` can follow a statement list: the end of a block or of the input.
#[verifier::when_used_as_spec(spec_ends_statement_list)]
pub fn ends_statement_list(la: TokenKind) -> (b: bool)
    ensures
        b == spec_ends_statement_list(la),
{
    match la {
        TokenKind::Dedent
            | TokenKind::EndOfInput => true,
        _ => false,
    }
}

/// Whether a primary expression can begin with a token of kind `la`.
pub open spec fn spec_starts_primary(la: TokenKind) -> bool {
    match la {
        TokenKind::Identifier
            | TokenKind::Literal(_)
            | TokenKind::Operator(Operator::LeftParen) => true,
        _ => false,
    }
}

/// Whether a primary expression can begin with a token of kind `la`.
#[verifier::when_used_as_spec(spec_starts_primary)]
pub fn starts_primary(la: TokenKind) -> (b: bool)
    ensures
        b == spec_starts_primary(la),
{
    match la {
        TokenKind::Identifier
            | TokenKind::Literal(_)
            | TokenKind::Operator(Operator::LeftParen) => true,
        _ => false,
    }
}

/// Whether a token of kind `la` can follow an expression.
pub open spec fn spec_ends_expression(la: TokenKind) -> bool {
    match la {
        TokenKind::EndOfStatement
            | TokenKind::Operator(Operator::Colon)
            | TokenKind::Operator(Operator::RightParen)
            | TokenKind::Operator(Operator::Comma) => true,
        _ => false,
    }
}

/// Whether a token of kind `la` can follow an expression.
#[verifier::when_used_as_spec(spec_ends_expression)]
pub fn ends_expression(la: TokenKind) -> (b: bool)
    ensures
        b == spec_ends_expression(la),
{
    match la {
        TokenKind::EndOfStatement
            | TokenKind::Operator(Operator::Colon)
            | TokenKind::Operator(Operator::RightParen)
            | TokenKind::Operator(Operator::Comma) => true,
        _ => false,
    }
}

/// Whether `la` is `and` or `or`.
pub open spec fn spec_is_logical(la: TokenKind) -> bool {
    match la {
        TokenKind::ReservedWord(Keyword::And)
            | TokenKind::ReservedWord(Keyword::Or) => true,
        _ => false,
    }
}

/// Whether `la` is `and` or `or`.
#[verifier::when_used_as_spec(spec_is_logical)]
pub fn is_logical(la: TokenKind) -> (b: bool)
    ensures
        b == spec_is_logical(la),
{
    match la {
        TokenKind::ReservedWord(Keyword::And)
            | TokenKind::ReservedWord(Keyword::Or) => true,
        _ => false,
    }
}

/// Whether `la` is one of the six comparison operators.
pub open spec fn spec_is_comparison(la: TokenKind) -> bool {
    match la {
        TokenKind::Operator(Operator::EqualEqual)
            | TokenKind::Operator(Operator::NotEqual)
            | TokenKind::Operator(Operator::Less)
            | TokenKind::Operator(Operator::LessEqual)
            | TokenKind::Operator(Operator::Greater)
            | TokenKind::Operator(Operator::GreaterEqual) => true,
        _ => false,
    }
}

/// Whether `la` is one of the six comparison operators.
#[verifier::when_used_as_spec(spec_is_comparison)]
pub fn is_comparison(la: TokenKind) -> (b: bool)
    ensures
        b == spec_is_comparison(la),
{
    match la {
        TokenKind::Operator(Operator::EqualEqual)
            | TokenKind::Operator(Operator::NotEqual)
            | TokenKind::Operator(Operator::Less)
            | TokenKind::Operator(Operator::LessEqual)
            | TokenKind::Operator(Operator::Greater)
            | TokenKind::Operator(Operator::GreaterEqual) => true,
        _ => false,
    }
}

/// Whether `la` is `*`, `/` or `^`.
pub open spec fn spec_is_product_operator(la: TokenKind) -> bool {
    match la {
        TokenKind::Operator(Operator::Star)
            | TokenKind::Operator(Operator::Slash)
            | TokenKind::Operator(Operator::Caret) => true,
        _ => false,
    }
}

/// Whether `la` is `*`, `/` or `^`.
#[verifier::when_used_as_spec(spec_is_product_operator)]
pub fn is_product_operator(la: TokenKind) -> (b: bool)
    ensures
        b == spec_is_product_operator(la),
{
    match la {
        TokenKind::Operator(Operator::Star)
            | TokenKind::Operator(Operator::Slash)
            | TokenKind::Operator(Operator::Caret) => true,
        _ => false,
    }
}

/// Whether `la` is `+` or `-`.
pub open spec fn spec_is_sum_operator(la: TokenKind) -> bool {
    match la {
        TokenKind::Operator(Operator::Plus)
            | TokenKind::Operator(Operator::Minus) => true,
        _ => false,
    }
}

/// Whether `la` is `+` or `-`.
#[verifier::when_used_as_spec(spec_is_sum_operator)]
pub fn is_sum_operator(la: TokenKind) -> (b: bool)
    ensures
        b == spec_is_sum_operator(la),
{
    match la {
        TokenKind::Operator(Operator::Plus)
            | TokenKind::Operator(Operator::Minus) => true,
        _ => false,
    }
}

/// Whether `la` is one of the five assignment operators.
pub open spec fn spec_is_assignment(la: TokenKind) -> bool {
    match la {
        TokenKind::Operator(Operator::Assign)
            | TokenKind::Operator(Operator::PlusAssign)
            | TokenKind::Operator(Operator::MinusAssign)
            | TokenKind::Operator(Operator::StarAssign)
            | TokenKind::Operator(Operator::SlashAssign) => true,
        _ => false,
    }
}

/// Whether `la` is one of the five assignment operators.
#[verifier::when_used_as_spec(spec_is_assignment)]
pub fn is_assignment(la: TokenKind) -> (b: bool)
    ensures
        b == spec_is_assignment(la),
{
    match la {
        TokenKind::Operator(Operator::Assign)
            | TokenKind::Operator(Operator::PlusAssign)
            | TokenKind::Operator(Operator::MinusAssign)
            | TokenKind::Operator(Operator::StarAssign)
            | TokenKind::Operator(Operator::SlashAssign) => true,
        _ => false,
    }
}

/// Whether an expression can begin with a token of kind `la`.
pub open spec fn spec_starts_expression(la: TokenKind) -> bool {
    starts_primary(la) || la == TokenKind::ReservedWord(Keyword::Not)
}

/// Whether an expression can begin with a token of kind `la`.
#[verifier::when_used_as_spec(spec_starts_expression)]
pub fn starts_expression(la: TokenKind) -> (b: bool)
    ensures
        b == spec_starts_expression(la),
{
    starts_primary(la) || matches!(la, TokenKind::ReservedWord(Keyword::Not))
}

/// Whether a token of kind `la` can follow an operand of `and` and `or`.
pub open spec fn spec_ends_comparison(la: TokenKind) -> bool {
    is_logical(la) || ends_expression(la)
}

/// Whether a token of kind `la` can follow an operand of `and` and `or`.
#[verifier::when_used_as_spec(spec_ends_comparison)]
pub fn ends_comparison(la: TokenKind) -> (b: bool)
    ensures
        b == spec_ends_comparison(la),
{
    is_logical(la) || ends_expression(la)
}

/// Whether a token of kind `la` can follow an operand of a comparison.
pub open spec fn spec_ends_product(la: TokenKind) -> bool {
    is_comparison(la) || ends_comparison(la)
}

/// Whether a token of kind `la` can follow an operand of a comparison.
#[verifier::when_used_as_spec(spec_ends_product)]
pub fn ends_product(la: TokenKind) -> (b: bool)
    ensures
        b == spec_ends_product(la),
{
    is_comparison(la) || ends_comparison(la)
}

/// Whether a token of kind `la` can follow an operand of `*`, `/` and `^`.
pub open spec fn spec_ends_sum(la: TokenKind) -> bool {
    is_product_operator(la) || ends_product(la)
}

/// Whether a token of kind `la` can follow an operand of `*`, `/` and `^`.
#[verifier::when_used_as_spec(spec_ends_sum)]
pub fn ends_sum(la: TokenKind) -> (b: bool)
    ensures
        b == spec_ends_sum(la),
{
    is_product_operator(la) || ends_product(la)
}

/// Whether a token of kind `la` can follow a primary expression.
pub open spec fn spec_ends_primary(la: TokenKind) -> bool {
    is_sum_operator(la) || ends_sum(la)
}

/// Whether a token of kind `la` can follow a primary expression.
#[verifier::when_used_as_spec(spec_ends_primary)]
pub fn ends_primary(la: TokenKind) -> (b: bool)
    ensures
        b == spec_ends_primary(la),
{
    is_sum_operator(la) || ends_sum(la)
}

/// Whether a token of kind `la` can follow a statement.
pub open spec fn spec_ends_statement(la: TokenKind) -> bool {
    starts_statement(la) || ends_statement_list(la)
}

/// Whether a token of kind `la` can follow a statement.
#[verifier::when_used_as_spec(spec_ends_statement)]
pub fn ends_statement(la: TokenKind) -> (b: bool)
    ensures
        b == spec_ends_statement(la),
{
    starts_statement(la) || ends_statement_list(la)
}

/// The cell of the table for nonterminal `n` and a next token of kind `la`: the
/// production to expand, its symbols from left to right, or `None` where the
/// grammar allows no token of that kind there. The empty production stands for
/// the empty string.
pub open spec fn production(n: Nonterminal, la: TokenKind) -> Option<Seq<Symbol>> {
    match n {
        Nonterminal::StatementList | Nonterminal::StatementListTail => if starts_statement(la) {
            Some(seq![nt(Nonterminal::Statement), nt(Nonterminal::StatementListTail)])
        } else if ends_statement_list(la) {
            Some(seq![])
        } else {
            None
        },
        Nonterminal::Statement => match la {
            TokenKind::ReservedWord(Keyword::Def) => Some(seq![
                word(Keyword::Def),
                tk(TokenKind::Identifier),
                op(Operator::LeftParen),
                nt(Nonterminal::IdList),
                op(Operator::RightParen),
                op(Operator::Colon),
                tk(TokenKind::EndOfStatement),
                nt(Nonterminal::Block),
            ]),
            TokenKind::ReservedWord(Keyword::Break) => Some(seq![word(Keyword::Break), tk(TokenKind::EndOfStatement)]),
            TokenKind::ReservedWord(Keyword::Continue) => Some(seq![word(Keyword::Continue), tk(TokenKind::EndOfStatement)]),
            TokenKind::ReservedWord(Keyword::Return) => Some(seq![
                word(Keyword::Return),
                nt(Nonterminal::ExpressionList),
                tk(TokenKind::EndOfStatement),
            ]),
            TokenKind::Identifier => Some(seq![nt(Nonterminal::ExpressionStatement), tk(TokenKind::EndOfStatement)]),
            TokenKind::ReservedWord(Keyword::For) => Some(seq![
                word(Keyword::For),
                tk(TokenKind::Identifier),
                word(Keyword::In),
                tk(TokenKind::Identifier),
                op(Operator::Colon),
                tk(TokenKind::EndOfStatement),
                nt(Nonterminal::Block),
            ]),
            TokenKind::ReservedWord(Keyword::While) => Some(seq![
                word(Keyword::While),
                nt(Nonterminal::Expression),
                op(Operator::Colon),
                tk(TokenKind::EndOfStatement),
                nt(Nonterminal::Block),
            ]),
            TokenKind::ReservedWord(Keyword::If) => Some(seq![
                word(Keyword::If),
                nt(Nonterminal::Expression),
                op(Operator::Colon),
                tk(TokenKind::EndOfStatement),
                nt(Nonterminal::Block),
                nt(Nonterminal::ElseClause),
            ]),
            _ => None,
        },
        Nonterminal::Block => match la {
            TokenKind::Indent => Some(seq![
                tk(TokenKind::Indent),
                nt(Nonterminal::StatementList),
                tk(TokenKind::Dedent),
            ]),
            _ => None,
        },
        Nonterminal::IdList => match la {
            TokenKind::Identifier => Some(seq![tk(TokenKind::Identifier), nt(Nonterminal::IdListTail)]),
            TokenKind::Operator(Operator::RightParen) => Some(seq![]),
            _ => None,
        },
        Nonterminal::IdListTail => match la {
            TokenKind::Operator(Operator::Comma) => Some(seq![
                op(Operator::Comma),
                tk(TokenKind::Identifier),
                nt(Nonterminal::IdListTail),
            ]),
            TokenKind::Operator(Operator::RightParen) => Some(seq![]),
            _ => None,
        },
        Nonterminal::ExpressionList => if starts_expression(la) {
            Some(seq![nt(Nonterminal::Expression), nt(Nonterminal::ExpressionListTail)])
        } else {
            None
        },
        Nonterminal::ExpressionListTail => match la {
            TokenKind::Operator(Operator::Comma) => Some(seq![
                op(Operator::Comma),
                nt(Nonterminal::Expression),
                nt(Nonterminal::ExpressionListTail),
            ]),
            TokenKind::Operator(Operator::RightParen) => Some(seq![]),
            TokenKind::EndOfStatement => Some(seq![]),
            _ => None,
        },
        Nonterminal::ExpressionStatement => match la {
            TokenKind::Identifier => Some(seq![tk(TokenKind::Identifier), nt(Nonterminal::ExpressionStatementTail)]),
            _ => None,
        },
        Nonterminal::ExpressionStatementTail => if la == TokenKind::Operator(Operator::LeftParen) {
            Some(seq![
                op(Operator::LeftParen),
                nt(Nonterminal::ExpressionList),
                op(Operator::RightParen),
            ])
        } else if is_assignment(la) {
            Some(seq![nt(Nonterminal::AssignmentTail)])
        } else {
            None
        },
        Nonterminal::Assignment => match la {
            TokenKind::Identifier => Some(seq![tk(TokenKind::Identifier), nt(Nonterminal::AssignmentTail)]),
            _ => None,
        },
        Nonterminal::AssignmentTail => if is_assignment(la) {
            Some(seq![tk(la), nt(Nonterminal::Expression)])
        } else {
            None
        },
        Nonterminal::NameOrCall => match la {
            TokenKind::Identifier => Some(seq![tk(TokenKind::Identifier), nt(Nonterminal::CallTail)]),
            _ => None,
        },
        Nonterminal::CallTail => if la == TokenKind::Operator(Operator::LeftParen) {
            Some(seq![
                op(Operator::LeftParen),
                nt(Nonterminal::ExpressionList),
                op(Operator::RightParen),
            ])
        } else if ends_primary(la) {
            Some(seq![])
        } else {
            None
        },
        Nonterminal::Expression => if starts_expression(la) {
            Some(seq![nt(Nonterminal::Comparison), nt(Nonterminal::LogicalTail)])
        } else {
            None
        },
        Nonterminal::LogicalTail => if is_logical(la) {
            Some(seq![tk(la), nt(Nonterminal::Expression)])
        } else if ends_expression(la) {
            Some(seq![])
        } else {
            None
        },
        Nonterminal::Comparison => if starts_primary(la) {
            Some(seq![nt(Nonterminal::Product), nt(Nonterminal::ComparisonTail)])
        } else if la == TokenKind::ReservedWord(Keyword::Not) {
            Some(seq![word(Keyword::Not), nt(Nonterminal::Product)])
        } else {
            None
        },
        Nonterminal::ComparisonTail => if is_comparison(la) {
            Some(seq![tk(la), nt(Nonterminal::Comparison)])
        } else if ends_comparison(la) {
            Some(seq![])
        } else {
            None
        },
        Nonterminal::Product => if starts_primary(la) {
            Some(seq![nt(Nonterminal::Sum), nt(Nonterminal::ProductTail)])
        } else {
            None
        },
        Nonterminal::ProductTail => if is_product_operator(la) {
            Some(seq![tk(la), nt(Nonterminal::Product)])
        } else if ends_product(la) {
            Some(seq![])
        } else {
            None
        },
        Nonterminal::Sum => if starts_primary(la) {
            Some(seq![nt(Nonterminal::Primary), nt(Nonterminal::SumTail)])
        } else {
            None
        },
        Nonterminal::SumTail => if is_sum_operator(la) {
            Some(seq![tk(la), nt(Nonterminal::Sum)])
        } else if ends_sum(la) {
            Some(seq![])
        } else {
            None
        },
        Nonterminal::Primary => match la {
            TokenKind::Operator(Operator::LeftParen) => Some(seq![
                op(Operator::LeftParen),
                nt(Nonterminal::Expression),
                op(Operator::RightParen),
            ]),
            TokenKind::Identifier => Some(seq![nt(Nonterminal::NameOrCall)]),
            TokenKind::Literal(_) => Some(seq![tk(la)]),
            _ => None,
        },
        Nonterminal::ElseClause => if la == TokenKind::ReservedWord(Keyword::Else) {
            Some(seq![
                word(Keyword::Else),
                op(Operator::Colon),
                tk(TokenKind::EndOfStatement),
                nt(Nonterminal::Block),
            ])
        } else if la == TokenKind::ReservedWord(Keyword::Elif) {
            Some(seq![
                word(Keyword::Elif),
                nt(Nonterminal::Expression),
                op(Operator::Colon),
                tk(TokenKind::EndOfStatement),
                nt(Nonterminal::Block),
                nt(Nonterminal::ElseClause),
            ])
        } else if ends_statement(la) {
            Some(seq![])
        } else {
            None
        },
    }
}

/// What a computed cell says, as a mathematical value.
pub open spec fn cell_view(cell: Option<Vec<Symbol>>) -> Option<Seq<Symbol>> {
    match cell {
        Some(symbols) => Some(symbols@),
        None => None,
    }
}

/// Computes the cell for `n`, a nonterminal of the statement grammar, and a next token of kind `la`.
fn statement_cell(n: Nonterminal, la: TokenKind) -> (cell: Option<Vec<Symbol>>)
    requires
        n == Nonterminal::StatementList
            || n == Nonterminal::StatementListTail
            || n == Nonterminal::Statement
            || n == Nonterminal::Block
            || n == Nonterminal::ElseClause,
    ensures
        cell_view(cell) == production(n, la),
{
    match n {
        Nonterminal::StatementList | Nonterminal::StatementListTail => if starts_statement(la) {
            Some(vec![nt(Nonterminal::Statement), nt(Nonterminal::StatementListTail)])
        } else if ends_statement_list(la) {
            Some(Vec::new())
        } else {
            None
        },
        Nonterminal::Statement => match la {
            TokenKind::ReservedWord(Keyword::Def) => Some(vec![
                word(Keyword::Def),
                tk(TokenKind::Identifier),
                op(Operator::LeftParen),
                nt(Nonterminal::IdList),
                op(Operator::RightParen),
                op(Operator::Colon),
                tk(TokenKind::EndOfStatement),
                nt(Nonterminal::Block),
            ]),
            TokenKind::ReservedWord(Keyword::Break) => Some(vec![word(Keyword::Break), tk(TokenKind::EndOfStatement)]),
            TokenKind::ReservedWord(Keyword::Continue) => Some(vec![word(Keyword::Continue), tk(TokenKind::EndOfStatement)]),
            TokenKind::ReservedWord(Keyword::Return) => Some(vec![
                word(Keyword::Return),
                nt(Nonterminal::ExpressionList),
                tk(TokenKind::EndOfStatement),
            ]),
            TokenKind::Identifier => Some(vec![nt(Nonterminal::ExpressionStatement), tk(TokenKind::EndOfStatement)]),
            TokenKind::ReservedWord(Keyword::For) => Some(vec![
                word(Keyword::For),
                tk(TokenKind::Identifier),
                word(Keyword::In),
                tk(TokenKind::Identifier),
                op(Operator::Colon),
                tk(TokenKind::EndOfStatement),
                nt(Nonterminal::Block),
            ]),
            TokenKind::ReservedWord(Keyword::While) => Some(vec![
                word(Keyword::While),
                nt(Nonterminal::Expression),
                op(Operator::Colon),
                tk(TokenKind::EndOfStatement),
                nt(Nonterminal::Block),
            ]),
            TokenKind::ReservedWord(Keyword::If) => Some(vec![
                word(Keyword::If),
                nt(Nonterminal::Expression),
                op(Operator::Colon),
                tk(TokenKind::EndOfStatement),
                nt(Nonterminal::Block),
                nt(Nonterminal::ElseClause),
            ]),
            _ => None,
        },
        Nonterminal::Block => match la {
            TokenKind::Indent => Some(vec![
                tk(TokenKind::Indent),
                nt(Nonterminal::StatementList),
                tk(TokenKind::Dedent),
            ]),
            _ => None,
        },
        Nonterminal::ElseClause => if matches!(la, TokenKind::ReservedWord(Keyword::Else)) {
            Some(vec![
                word(Keyword::Else),
                op(Operator::Colon),
                tk(TokenKind::EndOfStatement),
                nt(Nonterminal::Block),
            ])
        } else if matches!(la, TokenKind::ReservedWord(Keyword::Elif)) {
            Some(vec![
                word(Keyword::Elif),
                nt(Nonterminal::Expression),
                op(Operator::Colon),
                tk(TokenKind::EndOfStatement),
                nt(Nonterminal::Block),
                nt(Nonterminal::ElseClause),
            ])
        } else if ends_statement(la) {
            Some(Vec::new())
        } else {
            None
        },
        _ => None,
    }
}

/// Computes the cell for `n`, a nonterminal of the two list grammars, and a next token of kind `la`.
fn list_cell(n: Nonterminal, la: TokenKind) -> (cell: Option<Vec<Symbol>>)
    requires
        n == Nonterminal::IdList
            || n == Nonterminal::IdListTail
            || n == Nonterminal::ExpressionList
            || n == Nonterminal::ExpressionListTail,
    ensures
        cell_view(cell) == production(n, la),
{
    match n {
        Nonterminal::IdList => match la {
            TokenKind::Identifier => Some(vec![tk(TokenKind::Identifier), nt(Nonterminal::IdListTail)]),
            TokenKind::Operator(Operator::RightParen) => Some(Vec::new()),
            _ => None,
        },
        Nonterminal::IdListTail => match la {
            TokenKind::Operator(Operator::Comma) => Some(vec![
                op(Operator::Comma),
                tk(TokenKind::Identifier),
                nt(Nonterminal::IdListTail),
            ]),
            TokenKind::Operator(Operator::RightParen) => Some(Vec::new()),
            _ => None,
        },
        Nonterminal::ExpressionList => if starts_expression(la) {
            Some(vec![nt(Nonterminal::Expression), nt(Nonterminal::ExpressionListTail)])
        } else {
            None
        },
        Nonterminal::ExpressionListTail => match la {
            TokenKind::Operator(Operator::Comma) => Some(vec![
                op(Operator::Comma),
                nt(Nonterminal::Expression),
                nt(Nonterminal::ExpressionListTail),
            ]),
            TokenKind::Operator(Operator::RightParen) => Some(Vec::new()),
            TokenKind::EndOfStatement => Some(Vec::new()),
            _ => None,
        },
        _ => None,
    }
}

/// Computes the cell for `n`, a nonterminal of calls and assignments, and a next token of kind `la`.
fn simple_statement_cell(n: Nonterminal, la: TokenKind) -> (cell: Option<Vec<Symbol>>)
    requires
        n == Nonterminal::ExpressionStatement
            || n == Nonterminal::ExpressionStatementTail
            || n == Nonterminal::Assignment
            || n == Nonterminal::AssignmentTail
            || n == Nonterminal::NameOrCall
            || n == Nonterminal::CallTail,
    ensures
        cell_view(cell) == production(n, la),
{
    match n {
        Nonterminal::ExpressionStatement => match la {
            TokenKind::Identifier => Some(vec![tk(TokenKind::Identifier), nt(Nonterminal::ExpressionStatementTail)]),
            _ => None,
        },
        Nonterminal::ExpressionStatementTail => if matches!(la, TokenKind::Operator(Operator::LeftParen)) {
            Some(vec![
                op(Operator::LeftParen),
                nt(Nonterminal::ExpressionList),
                op(Operator::RightParen),
            ])
        } else if is_assignment(la) {
            Some(vec![nt(Nonterminal::AssignmentTail)])
        } else {
            None
        },
        Nonterminal::Assignment => match la {
            TokenKind::Identifier => Some(vec![tk(TokenKind::Identifier), nt(Nonterminal::AssignmentTail)]),
            _ => None,
        },
        Nonterminal::AssignmentTail => if is_assignment(la) {
            Some(vec![tk(la), nt(Nonterminal::Expression)])
        } else {
            None
        },
        Nonterminal::NameOrCall => match la {
            TokenKind::Identifier => Some(vec![tk(TokenKind::Identifier), nt(Nonterminal::CallTail)]),
            _ => None,
        },
        Nonterminal::CallTail => if matches!(la, TokenKind::Operator(Operator::LeftParen)) {
            Some(vec![
                op(Operator::LeftParen),
                nt(Nonterminal::ExpressionList),
                op(Operator::RightParen),
            ])
        } else if ends_primary(la) {
            Some(Vec::new())
        } else {
            None
        },
        _ => None,
    }
}

/// Computes the cell for `n`, a nonterminal of the expression grammar, and a next token of kind `la`.
fn expression_cell(n: Nonterminal, la: TokenKind) -> (cell: Option<Vec<Symbol>>)
    requires
        n == Nonterminal::Expression
            || n == Nonterminal::LogicalTail
            || n == Nonterminal::Comparison
            || n == Nonterminal::ComparisonTail
            || n == Nonterminal::Product
            || n == Nonterminal::ProductTail
            || n == Nonterminal::Sum
            || n == Nonterminal::SumTail
            || n == Nonterminal::Primary,
    ensures
        cell_view(cell) == production(n, la),
{
    match n {
        Nonterminal::Expression => if starts_expression(la) {
            Some(vec![nt(Nonterminal::Comparison), nt(Nonterminal::LogicalTail)])
        } else {
            None
        },
        Nonterminal::LogicalTail => if is_logical(la) {
            Some(vec![tk(la), nt(Nonterminal::Expression)])
        } else if ends_expression(la) {
            Some(Vec::new())
        } else {
            None
        },
        Nonterminal::Comparison => if starts_primary(la) {
            Some(vec![nt(Nonterminal::Product), nt(Nonterminal::ComparisonTail)])
        } else if matches!(la, TokenKind::ReservedWord(Keyword::Not)) {
            Some(vec![word(Keyword::Not), nt(Nonterminal::Product)])
        } else {
            None
        },
        Nonterminal::ComparisonTail => if is_comparison(la) {
            Some(vec![tk(la), nt(Nonterminal::Comparison)])
        } else if ends_comparison(la) {
            Some(Vec::new())
        } else {
            None
        },
        Nonterminal::Product => if starts_primary(la) {
            Some(vec![nt(Nonterminal::Sum), nt(Nonterminal::ProductTail)])
        } else {
            None
        },
        Nonterminal::ProductTail => if is_product_operator(la) {
            Some(vec![tk(la), nt(Nonterminal::Product)])
        } else if ends_product(la) {
            Some(Vec::new())
        } else {
            None
        },
        Nonterminal::Sum => if starts_primary(la) {
            Some(vec![nt(Nonterminal::Primary), nt(Nonterminal::SumTail)])
        } else {
            None
        },
        Nonterminal::SumTail => if is_sum_operator(la) {
            Some(vec![tk(la), nt(Nonterminal::Sum)])
        } else if ends_sum(la) {
            Some(Vec::new())
        } else {
            None
        },
        Nonterminal::Primary => match la {
            TokenKind::Operator(Operator::LeftParen) => Some(vec![
                op(Operator::LeftParen),
                nt(Nonterminal::Expression),
                op(Operator::RightParen),
            ]),
            TokenKind::Identifier => Some(vec![nt(Nonterminal::NameOrCall)]),
            TokenKind::Literal(_) => Some(vec![tk(la)]),
            _ => None,
        },
        _ => None,
    }
}

/// Computes the cell of the table for nonterminal `n` and a next token of kind `la`.
pub fn production_for(n: Nonterminal, la: TokenKind) -> (cell: Option<Vec<Symbol>>)
    ensures
        cell_view(cell) == production(n, la),
{
    match n {
        Nonterminal::StatementList
        | Nonterminal::StatementListTail
        | Nonterminal::Statement
        | Nonterminal::Block
        | Nonterminal::ElseClause => statement_cell(n, la),
        Nonterminal::IdList
        | Nonterminal::IdListTail
        | Nonterminal::ExpressionList
        | Nonterminal::ExpressionListTail => list_cell(n, la),
        Nonterminal::ExpressionStatement
        | Nonterminal::ExpressionStatementTail
        | Nonterminal::Assignment
        | Nonterminal::AssignmentTail
        | Nonterminal::NameOrCall
        | Nonterminal::CallTail => simple_statement_cell(n, la),
        Nonterminal::Expression
        | Nonterminal::LogicalTail
        | Nonterminal::Comparison
        | Nonterminal::ComparisonTail
        | Nonterminal::Product
        | Nonterminal::ProductTail
        | Nonterminal::Sum
        | Nonterminal::SumTail
        | Nonterminal::Primary => expression_cell(n, la),
    }
}

/// The table as a map: it holds a pair of a nonterminal and a token kind exactly
/// where the grammar has a production for them.
pub open spec fn parse_table() -> Map<(Nonterminal, TokenKind), Seq<Symbol>> {
    Map::new(
        |key: (Nonterminal, TokenKind)| production(key.0, key.1) is Some,
        |key: (Nonterminal, TokenKind)| production(key.0, key.1)->0,
    )
}

/// Where the cell for `n` and `la` stands among the cells of a table.
pub open spec fn cell_index(n: Nonterminal, la: TokenKind) -> int {
    n.index() * KIND_COUNT + la.index()
}

/// The table, with one cell for each nonterminal and each token kind. It is
/// built once and never changed; every value of this type holds the grammar
/// of `production`.
pub struct ParseTable {
    cells: Vec<Option<Vec<Symbol>>>,
}

impl ParseTable {
    #[verifier::type_invariant]
    spec fn holds_grammar(self) -> bool {
        &&& self.cells.len() == CELL_COUNT
        &&& forall|n: Nonterminal, la: TokenKind|
            cell_view(#[trigger] self.cells@[cell_index(n, la)]) == production(n, la)
    }

    /// The production for nonterminal `n` and a next token of kind `la`, if the
    /// table has one.
    pub fn lookup(&self, n: Nonterminal, la: TokenKind) -> (found: Option<&Vec<Symbol>>)
        ensures
            self@ == parse_table(),
            match found {
                Some(symbols) => production(n, la) == Some(symbols@),
                None => production(n, la) is None,
            },
    {
        proof {
            use_type_invariant(self);
            assert(self@ =~= parse_table());
        }
        let i = n.ordinal() * KIND_COUNT + la.ordinal();
        assert(i == cell_index(n, la));
        self.cells[i].as_ref()
    }
}

impl View for ParseTable {
    type V = Map<(Nonterminal, TokenKind), Seq<Symbol>>;

    closed spec fn view(&self) -> Map<(Nonterminal, TokenKind), Seq<Symbol>> {
        Map::new(
            |key: (Nonterminal, TokenKind)| self.cells@[cell_index(key.0, key.1)] is Some,
            |key: (Nonterminal, TokenKind)| self.cells@[cell_index(key.0, key.1)]->0@,
        )
    }
}

/// Builds the table of the grammar.
pub fn generate_lookup_table() -> (table: ParseTable)
    ensures
        table@ == parse_table(),
{
    let mut cells: Vec<Option<Vec<Symbol>>> = Vec::new();
    let mut i: usize = 0;
    while i < CELL_COUNT
        invariant
            i <= CELL_COUNT,
            cells.len() == i,
            forall|n: Nonterminal, la: TokenKind|
                cell_index(n, la) < i ==> cell_view(#[trigger] cells@[cell_index(n, la)])
                    == production(n, la),
        decreases CELL_COUNT - i,
    {
        let n = Nonterminal::from_ordinal(i / KIND_COUNT);
        let la = TokenKind::from_ordinal(i % KIND_COUNT);
        let cell = production_for(n, la);
        let ghost before = cells@;
        cells.push(cell);
        assert forall|m: Nonterminal, kind: TokenKind| cell_index(m, kind) < i + 1 implies cell_view(
            #[trigger] cells@[cell_index(m, kind)],
        ) == production(m, kind) by {
            if cell_index(m, kind) == i {
                assert(m.index() == n.index() && kind.index() == la.index());
                crate::token::lemma_kind_index_injective(kind, la);
            } else {
                assert(cells@[cell_index(m, kind)] == before[cell_index(m, kind)]);
            }
        }
        i += 1;
    }
    let table = ParseTable { cells };
    assert(table@ =~= parse_table());
    table
}

/// Whether the grammar lets `n` stand for the empty string.
pub open spec fn nullable(n: Nonterminal) -> bool {
    match n {
        Nonterminal::StatementList
        | Nonterminal::StatementListTail
        | Nonterminal::IdList
        | Nonterminal::IdListTail
        | Nonterminal::ExpressionListTail
        | Nonterminal::CallTail
        | Nonterminal::LogicalTail
        | Nonterminal::ComparisonTail
        | Nonterminal::ProductTail
        | Nonterminal::SumTail
        | Nonterminal::ElseClause => true,
        _ => false,
    }
}

/// A bound on how many expansions in a row can begin with a nonterminal,
/// starting at `n`.
pub open spec fn depth(n: Nonterminal) -> nat {
    match n {
        Nonterminal::ExpressionList => 6,
        Nonterminal::Expression => 5,
        Nonterminal::Comparison => 4,
        Nonterminal::Product => 3,
        Nonterminal::Sum => 2,
        Nonterminal::Primary => 1,
        Nonterminal::StatementList | Nonterminal::StatementListTail => 2,
        Nonterminal::Statement => 1,
        Nonterminal::ExpressionStatementTail => 1,
        _ => 0,
    }
}

/// How each production begins: with a terminal, or with a nonterminal that is
/// less deep than the expanded one and never empty. Only a nullable
/// nonterminal has the empty production. No production holds `Epsilon`.
pub proof fn lemma_production_shape(n: Nonterminal, la: TokenKind)
    ensures
        match production(n, la) {
            Some(symbols) => {
                &&& symbols.len() == 0 ==> nullable(n)
                &&& symbols.len() > 0 ==> match symbols[0] {
                    Symbol::Terminal(_) => true,
                    Symbol::Nonterminal(m) => depth(m) < depth(n) && !nullable(m),
                    Symbol::Epsilon => false,
                }
                &&& forall|i: int| 0 <= i < symbols.len() ==> symbols[i] != Symbol::Epsilon
            },
            None => true,
        },
{
}

/// A production that begins with a terminal begins with the kind of the next
/// token: the table never chooses a production that the next token refuses
/// at once.
pub proof fn theorem_production_begins_with_next_kind(n: Nonterminal, la: TokenKind)
    ensures
        match production(n, la) {
            Some(symbols) => symbols.len() > 0 ==> (symbols[0] matches Symbol::Terminal(kind)
                ==> kind == la),
            None => true,
        },
{
}

} // verus!
