//! Tokens, and the two fixed tables of reserved words and operators.

use vstd::prelude::*;

verus! {

/// How many reserved words the language has.
pub const KEYWORD_COUNT: usize = 33;

/// How many operators the language has.
pub const OPERATOR_COUNT: usize = 44;

/// A reserved word of the language.
#[derive(Clone, Copy, Debug, PartialEq, Eq, Hash, Structural)]
pub enum Keyword {
    /// `and`
    And,
    /// `as`
    As,
    /// `assert`
    Assert,
    /// `break`
    Break,
    /// `class`
    Class,
    /// `continue`
    Continue,
    /// `def`
    Def,
    /// `del`
    Del,
    /// `elif`
    Elif,
    /// `else`
    Else,
    /// `except`
    Except,
    /// `exec`
    Exec,
    /// `finally`
    Finally,
    /// `for`
    For,
    /// `from`
    From,
    /// `global`
    Global,
    /// `if`
    If,
    /// `import`
    Import,
    /// `in`
    In,
    /// `is`
    Is,
    /// `lambda`
    Lambda,
    /// `none`
    NoneValue,
    /// `nonlocal`
    Nonlocal,
    /// `not`
    Not,
    /// `or`
    Or,
    /// `pass`
    Pass,
    /// `print`
    Print,
    /// `raise`
    Raise,
    /// `return`
    Return,
    /// `try`
    Try,
    /// `while`
    While,
    /// `with`
    With,
    /// `yield`
    Yield,
}

impl Keyword {
    /// The spelling of this reserved word in source text.
    pub open spec fn spelling(self) -> Seq<char> {
        match self {
            Keyword::And => "and"@,
            Keyword::As => "as"@,
            Keyword::Assert => "assert"@,
            Keyword::Break => "break"@,
            Keyword::Class => "class"@,
            Keyword::Continue => "continue"@,
            Keyword::Def => "def"@,
            Keyword::Del => "del"@,
            Keyword::Elif => "elif"@,
            Keyword::Else => "else"@,
            Keyword::Except => "except"@,
            Keyword::Exec => "exec"@,
            Keyword::Finally => "finally"@,
            Keyword::For => "for"@,
            Keyword::From => "from"@,
            Keyword::Global => "global"@,
            Keyword::If => "if"@,
            Keyword::Import => "import"@,
            Keyword::In => "in"@,
            Keyword::Is => "is"@,
            Keyword::Lambda => "lambda"@,
            Keyword::NoneValue => "none"@,
            Keyword::Nonlocal => "nonlocal"@,
            Keyword::Not => "not"@,
            Keyword::Or => "or"@,
            Keyword::Pass => "pass"@,
            Keyword::Print => "print"@,
            Keyword::Raise => "raise"@,
            Keyword::Return => "return"@,
            Keyword::Try => "try"@,
            Keyword::While => "while"@,
            Keyword::With => "with"@,
            Keyword::Yield => "yield"@,
        }
    }

    /// The spelling of this reserved word in source text.
    pub fn text(self) -> (s: &'static str)
        ensures
            s@ == self.spelling(),
            keyword_of(s@) == Some(self),
    {
        proof {
            lemma_keyword_of_spelling(self);
        }
        match self {
            Keyword::And => "and",
            Keyword::As => "as",
            Keyword::Assert => "assert",
            Keyword::Break => "break",
            Keyword::Class => "class",
            Keyword::Continue => "continue",
            Keyword::Def => "def",
            Keyword::Del => "del",
            Keyword::Elif => "elif",
            Keyword::Else => "else",
            Keyword::Except => "except",
            Keyword::Exec => "exec",
            Keyword::Finally => "finally",
            Keyword::For => "for",
            Keyword::From => "from",
            Keyword::Global => "global",
            Keyword::If => "if",
            Keyword::Import => "import",
            Keyword::In => "in",
            Keyword::Is => "is",
            Keyword::Lambda => "lambda",
            Keyword::NoneValue => "none",
            Keyword::Nonlocal => "nonlocal",
            Keyword::Not => "not",
            Keyword::Or => "or",
            Keyword::Pass => "pass",
            Keyword::Print => "print",
            Keyword::Raise => "raise",
            Keyword::Return => "return",
            Keyword::Try => "try",
            Keyword::While => "while",
            Keyword::With => "with",
            Keyword::Yield => "yield",
        }
    }

    /// The symbolic name under which this reserved word is listed in a token dump.
    pub open spec fn name(self) -> Seq<char> {
        match self {
            Keyword::And => "RWORD{AND}"@,
            Keyword::As => "RWORD{AS}"@,
            Keyword::Assert => "RWORD{ASSERT}"@,
            Keyword::Break => "RWORD{BREAK}"@,
            Keyword::Class => "RWORD{CLASS}"@,
            Keyword::Continue => "RWORD{CONTINUE}"@,
            Keyword::Def => "RWORD{DEF}"@,
            Keyword::Del => "RWORD{DEL}"@,
            Keyword::Elif => "RWORD{ELIF}"@,
            Keyword::Else => "RWORD{ELSE}"@,
            Keyword::Except => "RWORD{EXCEPT}"@,
            Keyword::Exec => "RWORD{EXEC}"@,
            Keyword::Finally => "RWORD{FINALLY}"@,
            Keyword::For => "RWORD{FOR}"@,
            Keyword::From => "RWORD{FROM}"@,
            Keyword::Global => "RWORD{GLOBAL}"@,
            Keyword::If => "RWORD{IF}"@,
            Keyword::Import => "RWORD{IMPORT}"@,
            Keyword::In => "RWORD{IN}"@,
            Keyword::Is => "RWORD{IS}"@,
            Keyword::Lambda => "RWORD{LAMBDA}"@,
            Keyword::NoneValue => "RWORD{NONE}"@,
            Keyword::Nonlocal => "RWORD{NONLOCAL}"@,
            Keyword::Not => "RWORD{NOT}"@,
            Keyword::Or => "RWORD{OR}"@,
            Keyword::Pass => "RWORD{PASS}"@,
            Keyword::Print => "RWORD{PRINT}"@,
            Keyword::Raise => "RWORD{RAISE}"@,
            Keyword::Return => "RWORD{RETURN}"@,
            Keyword::Try => "RWORD{TRY}"@,
            Keyword::While => "RWORD{WHILE}"@,
            Keyword::With => "RWORD{WITH}"@,
            Keyword::Yield => "RWORD{YIELD}"@,
        }
    }

    /// The symbolic name under which this reserved word is listed in a token dump.
    pub fn symbolic_name(self) -> (s: &'static str)
        ensures
            s@ == self.name(),
    {
        match self {
            Keyword::And => "RWORD{AND}",
            Keyword::As => "RWORD{AS}",
            Keyword::Assert => "RWORD{ASSERT}",
            Keyword::Break => "RWORD{BREAK}",
            Keyword::Class => "RWORD{CLASS}",
            Keyword::Continue => "RWORD{CONTINUE}",
            Keyword::Def => "RWORD{DEF}",
            Keyword::Del => "RWORD{DEL}",
            Keyword::Elif => "RWORD{ELIF}",
            Keyword::Else => "RWORD{ELSE}",
            Keyword::Except => "RWORD{EXCEPT}",
            Keyword::Exec => "RWORD{EXEC}",
            Keyword::Finally => "RWORD{FINALLY}",
            Keyword::For => "RWORD{FOR}",
            Keyword::From => "RWORD{FROM}",
            Keyword::Global => "RWORD{GLOBAL}",
            Keyword::If => "RWORD{IF}",
            Keyword::Import => "RWORD{IMPORT}",
            Keyword::In => "RWORD{IN}",
            Keyword::Is => "RWORD{IS}",
            Keyword::Lambda => "RWORD{LAMBDA}",
            Keyword::NoneValue => "RWORD{NONE}",
            Keyword::Nonlocal => "RWORD{NONLOCAL}",
            Keyword::Not => "RWORD{NOT}",
            Keyword::Or => "RWORD{OR}",
            Keyword::Pass => "RWORD{PASS}",
            Keyword::Print => "RWORD{PRINT}",
            Keyword::Raise => "RWORD{RAISE}",
            Keyword::Return => "RWORD{RETURN}",
            Keyword::Try => "RWORD{TRY}",
            Keyword::While => "RWORD{WHILE}",
            Keyword::With => "RWORD{WITH}",
            Keyword::Yield => "RWORD{YIELD}",
        }
    }

    /// The position of this reserved word in its table, counted from zero.
    pub open spec fn index(self) -> nat {
        match self {
            Keyword::And => 0,
            Keyword::As => 1,
            Keyword::Assert => 2,
            Keyword::Break => 3,
            Keyword::Class => 4,
            Keyword::Continue => 5,
            Keyword::Def => 6,
            Keyword::Del => 7,
            Keyword::Elif => 8,
            Keyword::Else => 9,
            Keyword::Except => 10,
            Keyword::Exec => 11,
            Keyword::Finally => 12,
            Keyword::For => 13,
            Keyword::From => 14,
            Keyword::Global => 15,
            Keyword::If => 16,
            Keyword::Import => 17,
            Keyword::In => 18,
            Keyword::Is => 19,
            Keyword::Lambda => 20,
            Keyword::NoneValue => 21,
            Keyword::Nonlocal => 22,
            Keyword::Not => 23,
            Keyword::Or => 24,
            Keyword::Pass => 25,
            Keyword::Print => 26,
            Keyword::Raise => 27,
            Keyword::Return => 28,
            Keyword::Try => 29,
            Keyword::While => 30,
            Keyword::With => 31,
            Keyword::Yield => 32,
        }
    }

    /// The position of this reserved word in its table, counted from zero.
    pub fn ordinal(self) -> (i: usize)
        ensures
            i == self.index(),
            i < KEYWORD_COUNT,
    {
        match self {
            Keyword::And => 0,
            Keyword::As => 1,
            Keyword::Assert => 2,
            Keyword::Break => 3,
            Keyword::Class => 4,
            Keyword::Continue => 5,
            Keyword::Def => 6,
            Keyword::Del => 7,
            Keyword::Elif => 8,
            Keyword::Else => 9,
            Keyword::Except => 10,
            Keyword::Exec => 11,
            Keyword::Finally => 12,
            Keyword::For => 13,
            Keyword::From => 14,
            Keyword::Global => 15,
            Keyword::If => 16,
            Keyword::Import => 17,
            Keyword::In => 18,
            Keyword::Is => 19,
            Keyword::Lambda => 20,
            Keyword::NoneValue => 21,
            Keyword::Nonlocal => 22,
            Keyword::Not => 23,
            Keyword::Or => 24,
            Keyword::Pass => 25,
            Keyword::Print => 26,
            Keyword::Raise => 27,
            Keyword::Return => 28,
            Keyword::Try => 29,
            Keyword::While => 30,
            Keyword::With => 31,
            Keyword::Yield => 32,
        }
    }

    /// The reserved word at position `i` of its table.
    pub fn from_ordinal(i: usize) -> (found: Keyword)
        requires
            i < KEYWORD_COUNT,
        ensures
            found.index() == i,
    {
        match i {
            0 => Keyword::And,
            1 => Keyword::As,
            2 => Keyword::Assert,
            3 => Keyword::Break,
            4 => Keyword::Class,
            5 => Keyword::Continue,
            6 => Keyword::Def,
            7 => Keyword::Del,
            8 => Keyword::Elif,
            9 => Keyword::Else,
            10 => Keyword::Except,
            11 => Keyword::Exec,
            12 => Keyword::Finally,
            13 => Keyword::For,
            14 => Keyword::From,
            15 => Keyword::Global,
            16 => Keyword::If,
            17 => Keyword::Import,
            18 => Keyword::In,
            19 => Keyword::Is,
            20 => Keyword::Lambda,
            21 => Keyword::NoneValue,
            22 => Keyword::Nonlocal,
            23 => Keyword::Not,
            24 => Keyword::Or,
            25 => Keyword::Pass,
            26 => Keyword::Print,
            27 => Keyword::Raise,
            28 => Keyword::Return,
            29 => Keyword::Try,
            30 => Keyword::While,
            31 => Keyword::With,
            _ => Keyword::Yield,
        }
    }
}

/// The reserved word spelled `word`, if there is one.
pub open spec fn keyword_of(word: Seq<char>) -> Option<Keyword> {
    if exists|k: Keyword| k.spelling() == word {
        Some(choose|k: Keyword| k.spelling() == word)
    } else {
        None
    }
}

/// No two reserved words share a spelling.
pub proof fn lemma_keyword_spelling_injective(a: Keyword, b: Keyword)
    requires
        a.spelling() == b.spelling(),
    ensures
        a == b,
{
    reveal_strlit("and");
    assert("and"@ =~= seq!['a', 'n', 'd']);
    reveal_strlit("as");
    assert("as"@ =~= seq!['a', 's']);
    reveal_strlit("assert");
    assert("assert"@ =~= seq!['a', 's', 's', 'e', 'r', 't']);
    reveal_strlit("break");
    assert("break"@ =~= seq!['b', 'r', 'e', 'a', 'k']);
    reveal_strlit("class");
    assert("class"@ =~= seq!['c', 'l', 'a', 's', 's']);
    reveal_strlit("continue");
    assert("continue"@ =~= seq!['c', 'o', 'n', 't', 'i', 'n', 'u', 'e']);
    reveal_strlit("def");
    assert("def"@ =~= seq!['d', 'e', 'f']);
    reveal_strlit("del");
    assert("del"@ =~= seq!['d', 'e', 'l']);
    reveal_strlit("elif");
    assert("elif"@ =~= seq!['e', 'l', 'i', 'f']);
    reveal_strlit("else");
    assert("else"@ =~= seq!['e', 'l', 's', 'e']);
    reveal_strlit("except");
    assert("except"@ =~= seq!['e', 'x', 'c', 'e', 'p', 't']);
    reveal_strlit("exec");
    assert("exec"@ =~= seq!['e', 'x', 'e', 'c']);
    reveal_strlit("finally");
    assert("finally"@ =~= seq!['f', 'i', 'n', 'a', 'l', 'l', 'y']);
    reveal_strlit("for");
    assert("for"@ =~= seq!['f', 'o', 'r']);
    reveal_strlit("from");
    assert("from"@ =~= seq!['f', 'r', 'o', 'm']);
    reveal_strlit("global");
    assert("global"@ =~= seq!['g', 'l', 'o', 'b', 'a', 'l']);
    reveal_strlit("if");
    assert("if"@ =~= seq!['i', 'f']);
    reveal_strlit("import");
    assert("import"@ =~= seq!['i', 'm', 'p', 'o', 'r', 't']);
    reveal_strlit("in");
    assert("in"@ =~= seq!['i', 'n']);
    reveal_strlit("is");
    assert("is"@ =~= seq!['i', 's']);
    reveal_strlit("lambda");
    assert("lambda"@ =~= seq!['l', 'a', 'm', 'b', 'd', 'a']);
    reveal_strlit("none");
    assert("none"@ =~= seq!['n', 'o', 'n', 'e']);
    reveal_strlit("nonlocal");
    assert("nonlocal"@ =~= seq!['n', 'o', 'n', 'l', 'o', 'c', 'a', 'l']);
    reveal_strlit("not");
    assert("not"@ =~= seq!['n', 'o', 't']);
    reveal_strlit("or");
    assert("or"@ =~= seq!['o', 'r']);
    reveal_strlit("pass");
    assert("pass"@ =~= seq!['p', 'a', 's', 's']);
    reveal_strlit("print");
    assert("print"@ =~= seq!['p', 'r', 'i', 'n', 't']);
    reveal_strlit("raise");
    assert("raise"@ =~= seq!['r', 'a', 'i', 's', 'e']);
    reveal_strlit("return");
    assert("return"@ =~= seq!['r', 'e', 't', 'u', 'r', 'n']);
    reveal_strlit("try");
    assert("try"@ =~= seq!['t', 'r', 'y']);
    reveal_strlit("while");
    assert("while"@ =~= seq!['w', 'h', 'i', 'l', 'e']);
    reveal_strlit("with");
    assert("with"@ =~= seq!['w', 'i', 't', 'h']);
    reveal_strlit("yield");
    assert("yield"@ =~= seq!['y', 'i', 'e', 'l', 'd']);
}

/// A reserved word is found again from its spelling.
pub proof fn lemma_keyword_of_spelling(k: Keyword)
    ensures
        keyword_of(k.spelling()) == Some(k),
{
    let found = choose|other: Keyword| other.spelling() == k.spelling();
    lemma_keyword_spelling_injective(found, k);
}

/// An operator or punctuation mark of the language.
#[derive(Clone, Copy, Debug, PartialEq, Eq, Hash, Structural)]
pub enum Operator {
    /// `+`
    Plus,
    /// `-`
    Minus,
    /// `*`
    Star,
    /// `/`
    Slash,
    /// `%`
    Percent,
    /// `&`
    Ampersand,
    /// `|`
    Pipe,
    /// `^`
    Caret,
    /// `~`
    Tilde,
    /// `<`
    Less,
    /// `>`
    Greater,
    /// `(`
    LeftParen,
    /// `)`
    RightParen,
    /// `[`
    LeftBracket,
    /// `]`
    RightBracket,
    /// `{`
    LeftBrace,
    /// `}`
    RightBrace,
    /// `,`
    Comma,
    /// `:`
    Colon,
    /// `.`
    Dot,
    /// `;`
    Semicolon,
    /// `@`
    At,
    /// `=`
    Assign,
    /// `**`
    DoubleStar,
    /// `//`
    DoubleSlash,
    /// `<<`
    ShiftLeft,
    /// `>>`
    ShiftRight,
    /// `<=`
    LessEqual,
    /// `>=`
    GreaterEqual,
    /// `==`
    EqualEqual,
    /// `!=`
    NotEqual,
    /// `+=`
    PlusAssign,
    /// `-=`
    MinusAssign,
    /// `*=`
    StarAssign,
    /// `/=`
    SlashAssign,
    /// `//=`
    DoubleSlashAssign,
    /// `%=`
    PercentAssign,
    /// `@=`
    AtAssign,
    /// `&=`
    AmpersandAssign,
    /// `|=`
    PipeAssign,
    /// `^=`
    CaretAssign,
    /// `>>=`
    ShiftRightAssign,
    /// `<<=`
    ShiftLeftAssign,
    /// `**=`
    DoubleStarAssign,
}

impl Operator {
    /// The spelling of this operator in source text.
    pub open spec fn spelling(self) -> Seq<char> {
        match self {
            Operator::Plus => "+"@,
            Operator::Minus => "-"@,
            Operator::Star => "*"@,
            Operator::Slash => "/"@,
            Operator::Percent => "%"@,
            Operator::Ampersand => "&"@,
            Operator::Pipe => "|"@,
            Operator::Caret => "^"@,
            Operator::Tilde => "~"@,
            Operator::Less => "<"@,
            Operator::Greater => ">"@,
            Operator::LeftParen => "("@,
            Operator::RightParen => ")"@,
            Operator::LeftBracket => "["@,
            Operator::RightBracket => "]"@,
            Operator::LeftBrace => "{"@,
            Operator::RightBrace => "}"@,
            Operator::Comma => ","@,
            Operator::Colon => ":"@,
            Operator::Dot => "."@,
            Operator::Semicolon => ";"@,
            Operator::At => "@"@,
            Operator::Assign => "="@,
            Operator::DoubleStar => "**"@,
            Operator::DoubleSlash => "//"@,
            Operator::ShiftLeft => "<<"@,
            Operator::ShiftRight => ">>"@,
            Operator::LessEqual => "<="@,
            Operator::GreaterEqual => ">="@,
            Operator::EqualEqual => "=="@,
            Operator::NotEqual => "!="@,
            Operator::PlusAssign => "+="@,
            Operator::MinusAssign => "-="@,
            Operator::StarAssign => "*="@,
            Operator::SlashAssign => "/="@,
            Operator::DoubleSlashAssign => "//="@,
            Operator::PercentAssign => "%="@,
            Operator::AtAssign => "@="@,
            Operator::AmpersandAssign => "&="@,
            Operator::PipeAssign => "|="@,
            Operator::CaretAssign => "^="@,
            Operator::ShiftRightAssign => ">>="@,
            Operator::ShiftLeftAssign => "<<="@,
            Operator::DoubleStarAssign => "**="@,
        }
    }

    /// The spelling of this operator in source text.
    pub fn text(self) -> (s: &'static str)
        ensures
            s@ == self.spelling(),
            operator_of(s@) == Some(self),
    {
        proof {
            lemma_operator_of_spelling(self);
        }
        match self {
            Operator::Plus => "+",
            Operator::Minus => "-",
            Operator::Star => "*",
            Operator::Slash => "/",
            Operator::Percent => "%",
            Operator::Ampersand => "&",
            Operator::Pipe => "|",
            Operator::Caret => "^",
            Operator::Tilde => "~",
            Operator::Less => "<",
            Operator::Greater => ">",
            Operator::LeftParen => "(",
            Operator::RightParen => ")",
            Operator::LeftBracket => "[",
            Operator::RightBracket => "]",
            Operator::LeftBrace => "{",
            Operator::RightBrace => "}",
            Operator::Comma => ",",
            Operator::Colon => ":",
            Operator::Dot => ".",
            Operator::Semicolon => ";",
            Operator::At => "@",
            Operator::Assign => "=",
            Operator::DoubleStar => "**",
            Operator::DoubleSlash => "//",
            Operator::ShiftLeft => "<<",
            Operator::ShiftRight => ">>",
            Operator::LessEqual => "<=",
            Operator::GreaterEqual => ">=",
            Operator::EqualEqual => "==",
            Operator::NotEqual => "!=",
            Operator::PlusAssign => "+=",
            Operator::MinusAssign => "-=",
            Operator::StarAssign => "*=",
            Operator::SlashAssign => "/=",
            Operator::DoubleSlashAssign => "//=",
            Operator::PercentAssign => "%=",
            Operator::AtAssign => "@=",
            Operator::AmpersandAssign => "&=",
            Operator::PipeAssign => "|=",
            Operator::CaretAssign => "^=",
            Operator::ShiftRightAssign => ">>=",
            Operator::ShiftLeftAssign => "<<=",
            Operator::DoubleStarAssign => "**=",
        }
    }

    /// The symbolic name under which this operator is listed in a token dump.
    pub open spec fn name(self) -> Seq<char> {
        match self {
            Operator::Plus => "OPERATOR{MAIS}"@,
            Operator::Minus => "OPERATOR{MENOS}"@,
            Operator::Star => "OPERATOR{VEZES}"@,
            Operator::Slash => "OPERATOR{BARRA}"@,
            Operator::Percent => "OPERATOR{PORCENTO}"@,
            Operator::Ampersand => "OPERATOR{ECOMERCIAL}"@,
            Operator::Pipe => "OPERATOR{PIPE}"@,
            Operator::Caret => "OPERATOR{CIRCUMFLEXO}"@,
            Operator::Tilde => "OPERATOR{TIL}"@,
            Operator::Less => "OPERATOR{MENOR}"@,
            Operator::Greater => "OPERATOR{MAIOR}"@,
            Operator::LeftParen => "OPERATOR{PARENTESES_ESQUERDO}"@,
            Operator::RightParen => "OPERATOR{PARENTESES_DIREITO}"@,
            Operator::LeftBracket => "OPERATOR{COLCHETES_ESQUERDO}"@,
            Operator::RightBracket => "OPERATOR{COLCHETES_DIREITO}"@,
            Operator::LeftBrace => "OPERATOR{CHAVES_ESQUERDA}"@,
            Operator::RightBrace => "OPERATOR{CHAVES_DIREITA}"@,
            Operator::Comma => "OPERATOR{VIRGULA}"@,
            Operator::Colon => "OPERATOR{DOIS_PONTOS}"@,
            Operator::Dot => "OPERATOR{PONTO}"@,
            Operator::Semicolon => "OPERATOR{PONTO_VIRGULA}"@,
            Operator::At => "OPERATOR{ARROBA}"@,
            Operator::Assign => "OPERATOR{IGUAL}"@,
            Operator::DoubleStar => "OPERATOR{NOME_PARAMETRO}"@,
            Operator::DoubleSlash => "OPERATOR{BARRA_DUPLA}"@,
            Operator::ShiftLeft => "OPERATOR{SHIFT_LEFT}"@,
            Operator::ShiftRight => "OPERATOR{SHIFT_RIGHT}"@,
            Operator::LessEqual => "OPERATOR{MENOR_IGUAL}"@,
            Operator::GreaterEqual => "OPERATOR{MAIOR_IGUAL}"@,
            Operator::EqualEqual => "OPERATOR{IGUAL_IGUAL}"@,
            Operator::NotEqual => "OPERATOR{DIFERENTE}"@,
            Operator::PlusAssign => "OPERATOR{MAIS_IGUAL}"@,
            Operator::MinusAssign => "OPERATOR{MENOS_IGUAL}"@,
            Operator::StarAssign => "OPERATOR{VEZES_IGUAL}"@,
            Operator::SlashAssign => "OPERATOR{BARRA_IGUAL}"@,
            Operator::DoubleSlashAssign => "OPERATOR{BARRA_DUPLA_IGUAL}"@,
            Operator::PercentAssign => "OPERATOR{PORCENTO_IGUAL}"@,
            Operator::AtAssign => "OPERATOR{ARROBA_IGUAL}"@,
            Operator::AmpersandAssign => "OPERATOR{ECOMERCIAL_IGUAL}"@,
            Operator::PipeAssign => "OPERATOR{PIPE_IGUAL}"@,
            Operator::CaretAssign => "OPERATOR{CIRCUMFLEXO_IGUAL}"@,
            Operator::ShiftRightAssign => "OPERATOR{SHIFT_RIGHT_IGUAL}"@,
            Operator::ShiftLeftAssign => "OPERATOR{SHIFT_LEFT_IGUAL}"@,
            Operator::DoubleStarAssign => "OPERATOR{DUPLO_ASTERISCO_IGUAL}"@,
        }
    }

    /// The symbolic name under which this operator is listed in a token dump.
    pub fn symbolic_name(self) -> (s: &'static str)
        ensures
            s@ == self.name(),
    {
        match self {
            Operator::Plus => "OPERATOR{MAIS}",
            Operator::Minus => "OPERATOR{MENOS}",
            Operator::Star => "OPERATOR{VEZES}",
            Operator::Slash => "OPERATOR{BARRA}",
            Operator::Percent => "OPERATOR{PORCENTO}",
            Operator::Ampersand => "OPERATOR{ECOMERCIAL}",
            Operator::Pipe => "OPERATOR{PIPE}",
            Operator::Caret => "OPERATOR{CIRCUMFLEXO}",
            Operator::Tilde => "OPERATOR{TIL}",
            Operator::Less => "OPERATOR{MENOR}",
            Operator::Greater => "OPERATOR{MAIOR}",
            Operator::LeftParen => "OPERATOR{PARENTESES_ESQUERDO}",
            Operator::RightParen => "OPERATOR{PARENTESES_DIREITO}",
            Operator::LeftBracket => "OPERATOR{COLCHETES_ESQUERDO}",
            Operator::RightBracket => "OPERATOR{COLCHETES_DIREITO}",
            Operator::LeftBrace => "OPERATOR{CHAVES_ESQUERDA}",
            Operator::RightBrace => "OPERATOR{CHAVES_DIREITA}",
            Operator::Comma => "OPERATOR{VIRGULA}",
            Operator::Colon => "OPERATOR{DOIS_PONTOS}",
            Operator::Dot => "OPERATOR{PONTO}",
            Operator::Semicolon => "OPERATOR{PONTO_VIRGULA}",
            Operator::At => "OPERATOR{ARROBA}",
            Operator::Assign => "OPERATOR{IGUAL}",
            Operator::DoubleStar => "OPERATOR{NOME_PARAMETRO}",
            Operator::DoubleSlash => "OPERATOR{BARRA_DUPLA}",
            Operator::ShiftLeft => "OPERATOR{SHIFT_LEFT}",
            Operator::ShiftRight => "OPERATOR{SHIFT_RIGHT}",
            Operator::LessEqual => "OPERATOR{MENOR_IGUAL}",
            Operator::GreaterEqual => "OPERATOR{MAIOR_IGUAL}",
            Operator::EqualEqual => "OPERATOR{IGUAL_IGUAL}",
            Operator::NotEqual => "OPERATOR{DIFERENTE}",
            Operator::PlusAssign => "OPERATOR{MAIS_IGUAL}",
            Operator::MinusAssign => "OPERATOR{MENOS_IGUAL}",
            Operator::StarAssign => "OPERATOR{VEZES_IGUAL}",
            Operator::SlashAssign => "OPERATOR{BARRA_IGUAL}",
            Operator::DoubleSlashAssign => "OPERATOR{BARRA_DUPLA_IGUAL}",
            Operator::PercentAssign => "OPERATOR{PORCENTO_IGUAL}",
            Operator::AtAssign => "OPERATOR{ARROBA_IGUAL}",
            Operator::AmpersandAssign => "OPERATOR{ECOMERCIAL_IGUAL}",
            Operator::PipeAssign => "OPERATOR{PIPE_IGUAL}",
            Operator::CaretAssign => "OPERATOR{CIRCUMFLEXO_IGUAL}",
            Operator::ShiftRightAssign => "OPERATOR{SHIFT_RIGHT_IGUAL}",
            Operator::ShiftLeftAssign => "OPERATOR{SHIFT_LEFT_IGUAL}",
            Operator::DoubleStarAssign => "OPERATOR{DUPLO_ASTERISCO_IGUAL}",
        }
    }

    /// The position of this operator in its table, counted from zero.
    pub open spec fn index(self) -> nat {
        match self {
            Operator::Plus => 0,
            Operator::Minus => 1,
            Operator::Star => 2,
            Operator::Slash => 3,
            Operator::Percent => 4,
            Operator::Ampersand => 5,
            Operator::Pipe => 6,
            Operator::Caret => 7,
            Operator::Tilde => 8,
            Operator::Less => 9,
            Operator::Greater => 10,
            Operator::LeftParen => 11,
            Operator::RightParen => 12,
            Operator::LeftBracket => 13,
            Operator::RightBracket => 14,
            Operator::LeftBrace => 15,
            Operator::RightBrace => 16,
            Operator::Comma => 17,
            Operator::Colon => 18,
            Operator::Dot => 19,
            Operator::Semicolon => 20,
            Operator::At => 21,
            Operator::Assign => 22,
            Operator::DoubleStar => 23,
            Operator::DoubleSlash => 24,
            Operator::ShiftLeft => 25,
            Operator::ShiftRight => 26,
            Operator::LessEqual => 27,
            Operator::GreaterEqual => 28,
            Operator::EqualEqual => 29,
            Operator::NotEqual => 30,
            Operator::PlusAssign => 31,
            Operator::MinusAssign => 32,
            Operator::StarAssign => 33,
            Operator::SlashAssign => 34,
            Operator::DoubleSlashAssign => 35,
            Operator::PercentAssign => 36,
            Operator::AtAssign => 37,
            Operator::AmpersandAssign => 38,
            Operator::PipeAssign => 39,
            Operator::CaretAssign => 40,
            Operator::ShiftRightAssign => 41,
            Operator::ShiftLeftAssign => 42,
            Operator::DoubleStarAssign => 43,
        }
    }

    /// The position of this operator in its table, counted from zero.
    pub fn ordinal(self) -> (i: usize)
        ensures
            i == self.index(),
            i < OPERATOR_COUNT,
    {
        match self {
            Operator::Plus => 0,
            Operator::Minus => 1,
            Operator::Star => 2,
            Operator::Slash => 3,
            Operator::Percent => 4,
            Operator::Ampersand => 5,
            Operator::Pipe => 6,
            Operator::Caret => 7,
            Operator::Tilde => 8,
            Operator::Less => 9,
            Operator::Greater => 10,
            Operator::LeftParen => 11,
            Operator::RightParen => 12,
            Operator::LeftBracket => 13,
            Operator::RightBracket => 14,
            Operator::LeftBrace => 15,
            Operator::RightBrace => 16,
            Operator::Comma => 17,
            Operator::Colon => 18,
            Operator::Dot => 19,
            Operator::Semicolon => 20,
            Operator::At => 21,
            Operator::Assign => 22,
            Operator::DoubleStar => 23,
            Operator::DoubleSlash => 24,
            Operator::ShiftLeft => 25,
            Operator::ShiftRight => 26,
            Operator::LessEqual => 27,
            Operator::GreaterEqual => 28,
            Operator::EqualEqual => 29,
            Operator::NotEqual => 30,
            Operator::PlusAssign => 31,
            Operator::MinusAssign => 32,
            Operator::StarAssign => 33,
            Operator::SlashAssign => 34,
            Operator::DoubleSlashAssign => 35,
            Operator::PercentAssign => 36,
            Operator::AtAssign => 37,
            Operator::AmpersandAssign => 38,
            Operator::PipeAssign => 39,
            Operator::CaretAssign => 40,
            Operator::ShiftRightAssign => 41,
            Operator::ShiftLeftAssign => 42,
            Operator::DoubleStarAssign => 43,
        }
    }

    /// The operator at position `i` of its table.
    pub fn from_ordinal(i: usize) -> (found: Operator)
        requires
            i < OPERATOR_COUNT,
        ensures
            found.index() == i,
    {
        match i {
            0 => Operator::Plus,
            1 => Operator::Minus,
            2 => Operator::Star,
            3 => Operator::Slash,
            4 => Operator::Percent,
            5 => Operator::Ampersand,
            6 => Operator::Pipe,
            7 => Operator::Caret,
            8 => Operator::Tilde,
            9 => Operator::Less,
            10 => Operator::Greater,
            11 => Operator::LeftParen,
            12 => Operator::RightParen,
            13 => Operator::LeftBracket,
            14 => Operator::RightBracket,
            15 => Operator::LeftBrace,
            16 => Operator::RightBrace,
            17 => Operator::Comma,
            18 => Operator::Colon,
            19 => Operator::Dot,
            20 => Operator::Semicolon,
            21 => Operator::At,
            22 => Operator::Assign,
            23 => Operator::DoubleStar,
            24 => Operator::DoubleSlash,
            25 => Operator::ShiftLeft,
            26 => Operator::ShiftRight,
            27 => Operator::LessEqual,
            28 => Operator::GreaterEqual,
            29 => Operator::EqualEqual,
            30 => Operator::NotEqual,
            31 => Operator::PlusAssign,
            32 => Operator::MinusAssign,
            33 => Operator::StarAssign,
            34 => Operator::SlashAssign,
            35 => Operator::DoubleSlashAssign,
            36 => Operator::PercentAssign,
            37 => Operator::AtAssign,
            38 => Operator::AmpersandAssign,
            39 => Operator::PipeAssign,
            40 => Operator::CaretAssign,
            41 => Operator::ShiftRightAssign,
            42 => Operator::ShiftLeftAssign,
            _ => Operator::DoubleStarAssign,
        }
    }
}

/// The operator spelled `text`, if there is one.
pub open spec fn operator_of(text: Seq<char>) -> Option<Operator> {
    if exists|op: Operator| op.spelling() == text {
        Some(choose|op: Operator| op.spelling() == text)
    } else {
        None
    }
}

/// Whether `text` is the one character `a`.
pub open spec fn is_one(text: Seq<char>, a: char) -> bool {
    text.len() == 1 && text[0] == a
}

/// Whether `text` is the two characters `a`, `b`.
pub open spec fn is_two(text: Seq<char>, a: char, b: char) -> bool {
    text.len() == 2 && text[0] == a && text[1] == b
}

/// Whether `text` is the three characters `a`, `b`, `c`.
pub open spec fn is_three(text: Seq<char>, a: char, b: char, c: char) -> bool {
    text.len() == 3 && text[0] == a && text[1] == b && text[2] == c
}

/// The characters of each operator's spelling, one by one.
pub proof fn lemma_operator_spellings()
    ensures
        is_one(Operator::Plus.spelling(), '+'),
        is_one(Operator::Minus.spelling(), '-'),
        is_one(Operator::Star.spelling(), '*'),
        is_one(Operator::Slash.spelling(), '/'),
        is_one(Operator::Percent.spelling(), '%'),
        is_one(Operator::Ampersand.spelling(), '&'),
        is_one(Operator::Pipe.spelling(), '|'),
        is_one(Operator::Caret.spelling(), '^'),
        is_one(Operator::Tilde.spelling(), '~'),
        is_one(Operator::Less.spelling(), '<'),
        is_one(Operator::Greater.spelling(), '>'),
        is_one(Operator::LeftParen.spelling(), '('),
        is_one(Operator::RightParen.spelling(), ')'),
        is_one(Operator::LeftBracket.spelling(), '['),
        is_one(Operator::RightBracket.spelling(), ']'),
        is_one(Operator::LeftBrace.spelling(), '{'),
        is_one(Operator::RightBrace.spelling(), '}'),
        is_one(Operator::Comma.spelling(), ','),
        is_one(Operator::Colon.spelling(), ':'),
        is_one(Operator::Dot.spelling(), '.'),
        is_one(Operator::Semicolon.spelling(), ';'),
        is_one(Operator::At.spelling(), '@'),
        is_one(Operator::Assign.spelling(), '='),
        is_two(Operator::DoubleStar.spelling(), '*', '*'),
        is_two(Operator::DoubleSlash.spelling(), '/', '/'),
        is_two(Operator::ShiftLeft.spelling(), '<', '<'),
        is_two(Operator::ShiftRight.spelling(), '>', '>'),
        is_two(Operator::LessEqual.spelling(), '<', '='),
        is_two(Operator::GreaterEqual.spelling(), '>', '='),
        is_two(Operator::EqualEqual.spelling(), '=', '='),
        is_two(Operator::NotEqual.spelling(), '!', '='),
        is_two(Operator::PlusAssign.spelling(), '+', '='),
        is_two(Operator::MinusAssign.spelling(), '-', '='),
        is_two(Operator::StarAssign.spelling(), '*', '='),
        is_two(Operator::SlashAssign.spelling(), '/', '='),
        is_three(Operator::DoubleSlashAssign.spelling(), '/', '/', '='),
        is_two(Operator::PercentAssign.spelling(), '%', '='),
        is_two(Operator::AtAssign.spelling(), '@', '='),
        is_two(Operator::AmpersandAssign.spelling(), '&', '='),
        is_two(Operator::PipeAssign.spelling(), '|', '='),
        is_two(Operator::CaretAssign.spelling(), '^', '='),
        is_three(Operator::ShiftRightAssign.spelling(), '>', '>', '='),
        is_three(Operator::ShiftLeftAssign.spelling(), '<', '<', '='),
        is_three(Operator::DoubleStarAssign.spelling(), '*', '*', '='),
{
    reveal_strlit("+");
    assert("+"@ =~= seq!['+']);
    reveal_strlit("-");
    assert("-"@ =~= seq!['-']);
    reveal_strlit("*");
    assert("*"@ =~= seq!['*']);
    reveal_strlit("/");
    assert("/"@ =~= seq!['/']);
    reveal_strlit("%");
    assert("%"@ =~= seq!['%']);
    reveal_strlit("&");
    assert("&"@ =~= seq!['&']);
    reveal_strlit("|");
    assert("|"@ =~= seq!['|']);
    reveal_strlit("^");
    assert("^"@ =~= seq!['^']);
    reveal_strlit("~");
    assert("~"@ =~= seq!['~']);
    reveal_strlit("<");
    assert("<"@ =~= seq!['<']);
    reveal_strlit(">");
    assert(">"@ =~= seq!['>']);
    reveal_strlit("(");
    assert("("@ =~= seq!['(']);
    reveal_strlit(")");
    assert(")"@ =~= seq![')']);
    reveal_strlit("[");
    assert("["@ =~= seq!['[']);
    reveal_strlit("]");
    assert("]"@ =~= seq![']']);
    reveal_strlit("{");
    assert("{"@ =~= seq!['{']);
    reveal_strlit("}");
    assert("}"@ =~= seq!['}']);
    reveal_strlit(",");
    assert(","@ =~= seq![',']);
    reveal_strlit(":");
    assert(":"@ =~= seq![':']);
    reveal_strlit(".");
    assert("."@ =~= seq!['.']);
    reveal_strlit(";");
    assert(";"@ =~= seq![';']);
    reveal_strlit("@");
    assert("@"@ =~= seq!['@']);
    reveal_strlit("=");
    assert("="@ =~= seq!['=']);
    reveal_strlit("**");
    assert("**"@ =~= seq!['*', '*']);
    reveal_strlit("//");
    assert("//"@ =~= seq!['/', '/']);
    reveal_strlit("<<");
    assert("<<"@ =~= seq!['<', '<']);
    reveal_strlit(">>");
    assert(">>"@ =~= seq!['>', '>']);
    reveal_strlit("<=");
    assert("<="@ =~= seq!['<', '=']);
    reveal_strlit(">=");
    assert(">="@ =~= seq!['>', '=']);
    reveal_strlit("==");
    assert("=="@ =~= seq!['=', '=']);
    reveal_strlit("!=");
    assert("!="@ =~= seq!['!', '=']);
    reveal_strlit("+=");
    assert("+="@ =~= seq!['+', '=']);
    reveal_strlit("-=");
    assert("-="@ =~= seq!['-', '=']);
    reveal_strlit("*=");
    assert("*="@ =~= seq!['*', '=']);
    reveal_strlit("/=");
    assert("/="@ =~= seq!['/', '=']);
    reveal_strlit("//=");
    assert("//="@ =~= seq!['/', '/', '=']);
    reveal_strlit("%=");
    assert("%="@ =~= seq!['%', '=']);
    reveal_strlit("@=");
    assert("@="@ =~= seq!['@', '=']);
    reveal_strlit("&=");
    assert("&="@ =~= seq!['&', '=']);
    reveal_strlit("|=");
    assert("|="@ =~= seq!['|', '=']);
    reveal_strlit("^=");
    assert("^="@ =~= seq!['^', '=']);
    reveal_strlit(">>=");
    assert(">>="@ =~= seq!['>', '>', '=']);
    reveal_strlit("<<=");
    assert("<<="@ =~= seq!['<', '<', '=']);
    reveal_strlit("**=");
    assert("**="@ =~= seq!['*', '*', '=']);
}

/// No two operators share a spelling.
pub proof fn lemma_operator_spelling_injective(a: Operator, b: Operator)
    requires
        a.spelling() == b.spelling(),
    ensures
        a == b,
{
    lemma_operator_spellings();
}

/// An operator is found again from its spelling.
pub proof fn lemma_operator_of_spelling(op: Operator)
    ensures
        operator_of(op.spelling()) == Some(op),
{
    let found = choose|other: Operator| other.spelling() == op.spelling();
    lemma_operator_spelling_injective(found, op);
}

/// An operator is one to three characters long.
pub proof fn lemma_operator_length(op: Operator)
    ensures
        1 <= op.spelling().len() <= 3,
{
    lemma_operator_spellings();
}

/// What a three-character operator begins with is an operator of two characters.
pub proof fn lemma_operator_prefix(text: Seq<char>)
    requires
        text.len() == 3,
        operator_of(text) is Some,
    ensures
        operator_of(text.take(2)) is Some,
{
    lemma_operator_spellings();
    let op = choose|op: Operator| op.spelling() == text;
    let shorter = match op {
        Operator::DoubleSlashAssign => Operator::DoubleSlash,
        Operator::ShiftRightAssign => Operator::ShiftRight,
        Operator::ShiftLeftAssign => Operator::ShiftLeft,
        _ => Operator::DoubleStar,
    };
    assert(shorter.spelling() =~= text.take(2));
}

/// The kind of a literal.
#[derive(Clone, Copy, Debug, PartialEq, Eq, Hash, Structural)]
pub enum LiteralKind {
    /// A run of digits that fits a signed 32-bit integer.
    IntLiteral,
    /// Digits with one decimal point.
    FloatLiteral,
    /// Text between two quotes of one kind.
    StringLiteral,
}

impl LiteralKind {
    /// The symbolic name under which this literal is listed in a token dump.
    pub open spec fn name(self) -> Seq<char> {
        match self {
            LiteralKind::IntLiteral => "LITERAL{INT}"@,
            LiteralKind::FloatLiteral => "LITERAL{FLOAT}"@,
            LiteralKind::StringLiteral => "LITERAL{STRING}"@,
        }
    }

    /// The symbolic name under which this literal is listed in a token dump.
    pub fn symbolic_name(self) -> (s: &'static str)
        ensures
            s@ == self.name(),
    {
        match self {
            LiteralKind::IntLiteral => "LITERAL{INT}",
            LiteralKind::FloatLiteral => "LITERAL{FLOAT}",
            LiteralKind::StringLiteral => "LITERAL{STRING}",
        }
    }

    /// The position of this literal kind among the three, counted from zero.
    pub open spec fn index(self) -> nat {
        match self {
            LiteralKind::IntLiteral => 0,
            LiteralKind::FloatLiteral => 1,
            LiteralKind::StringLiteral => 2,
        }
    }
}

/// How many token kinds there are, each reserved word, operator and literal kind counted once.
pub const KIND_COUNT: usize = 85;

/// What a token is.
#[derive(Clone, Copy, Debug, PartialEq, Eq, Hash, Structural)]
pub enum TokenKind {
    /// A line is indented deeper than the block around it.
    Indent,
    /// One block ends.
    Dedent,
    /// A reserved word.
    ReservedWord(Keyword),
    /// An operator.
    Operator(Operator),
    /// A literal.
    Literal(LiteralKind),
    /// A name.
    Identifier,
    /// The end of a logical line.
    EndOfStatement,
    /// The end of the token sequence.
    EndOfInput,
}

impl TokenKind {
    /// The symbolic name under which a token of this kind is listed in a token dump.
    pub open spec fn name(self) -> Seq<char> {
        match self {
            TokenKind::Indent => "INDENT"@,
            TokenKind::Dedent => "DEDENT"@,
            TokenKind::ReservedWord(word) => word.name(),
            TokenKind::Operator(op) => op.name(),
            TokenKind::Literal(literal) => literal.name(),
            TokenKind::Identifier => "ID"@,
            TokenKind::EndOfStatement => "EOS"@,
            TokenKind::EndOfInput => "END"@,
        }
    }

    /// The symbolic name under which a token of this kind is listed in a token dump.
    pub fn symbolic_name(self) -> (s: &'static str)
        ensures
            s@ == self.name(),
    {
        match self {
            TokenKind::Indent => "INDENT",
            TokenKind::Dedent => "DEDENT",
            TokenKind::ReservedWord(word) => word.symbolic_name(),
            TokenKind::Operator(op) => op.symbolic_name(),
            TokenKind::Literal(literal) => literal.symbolic_name(),
            TokenKind::Identifier => "ID",
            TokenKind::EndOfStatement => "EOS",
            TokenKind::EndOfInput => "END",
        }
    }

    /// A number below `KIND_COUNT` that tells the kinds apart.
    pub open spec fn index(self) -> nat {
        match self {
            TokenKind::Indent => 0,
            TokenKind::Dedent => 1,
            TokenKind::Identifier => 2,
            TokenKind::EndOfStatement => 3,
            TokenKind::EndOfInput => 4,
            TokenKind::Literal(literal) => 5 + literal.index(),
            TokenKind::ReservedWord(word) => 8 + word.index(),
            TokenKind::Operator(op) => 41 + op.index(),
        }
    }

    /// A number below `KIND_COUNT` that tells the kinds apart.
    pub fn ordinal(self) -> (i: usize)
        ensures
            i == self.index(),
            i < KIND_COUNT,
    {
        match self {
            TokenKind::Indent => 0,
            TokenKind::Dedent => 1,
            TokenKind::Identifier => 2,
            TokenKind::EndOfStatement => 3,
            TokenKind::EndOfInput => 4,
            TokenKind::Literal(LiteralKind::IntLiteral) => 5,
            TokenKind::Literal(LiteralKind::FloatLiteral) => 6,
            TokenKind::Literal(LiteralKind::StringLiteral) => 7,
            TokenKind::ReservedWord(word) => 8 + word.ordinal(),
            TokenKind::Operator(op) => 41 + op.ordinal(),
        }
    }

    /// The kind numbered `i`.
    pub fn from_ordinal(i: usize) -> (kind: TokenKind)
        requires
            i < KIND_COUNT,
        ensures
            kind.index() == i,
    {
        if i >= 41 {
            TokenKind::Operator(Operator::from_ordinal(i - 41))
        } else if i >= 8 {
            TokenKind::ReservedWord(Keyword::from_ordinal(i - 8))
        } else {
            match i {
                0 => TokenKind::Indent,
                1 => TokenKind::Dedent,
                2 => TokenKind::Identifier,
                3 => TokenKind::EndOfStatement,
                4 => TokenKind::EndOfInput,
                5 => TokenKind::Literal(LiteralKind::IntLiteral),
                6 => TokenKind::Literal(LiteralKind::FloatLiteral),
                _ => TokenKind::Literal(LiteralKind::StringLiteral),
            }
        }
    }
}

/// Two kinds with one number are one kind.
pub proof fn lemma_kind_index_injective(a: TokenKind, b: TokenKind)
    requires
        a.index() == b.index(),
    ensures
        a == b,
{
}

/// One token: its kind, the source text it was read from, and where that text begins.
/// Rows and columns count from zero, columns in characters.
#[derive(Debug, PartialEq, Eq)]
pub struct Token {
    pub kind: TokenKind,
    pub lexeme: String,
    pub row: usize,
    pub col: usize,
}

/// A token as a mathematical value.
pub struct TokenView {
    pub kind: TokenKind,
    pub lexeme: Seq<char>,
    pub row: nat,
    pub col: nat,
}

impl View for Token {
    type V = TokenView;

    open spec fn view(&self) -> TokenView {
        TokenView {
            kind: self.kind,
            lexeme: self.lexeme@,
            row: self.row as nat,
            col: self.col as nat,
        }
    }
}

impl DeepView for Token {
    type V = TokenView;

    open spec fn deep_view(&self) -> TokenView {
        self@
    }
}

impl Token {
    /// A token of the given kind and text at the given place.
    pub fn new(kind: TokenKind, lexeme: String, row: usize, col: usize) -> (token: Token)
        ensures
            token.kind == kind,
            token.lexeme == lexeme,
            token.row == row,
            token.col == col,
    {
        Token { kind, lexeme, row, col }
    }
}

} // verus!
