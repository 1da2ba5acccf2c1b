use vstd::prelude::*;

verus! {

/// One lexical unit of a formula.
///
/// Floating literals are carried as the IEEE 754 bit pattern of the
/// 64-bit value, so that every payload is a plain value.
#[derive(Debug, Clone, PartialEq)]
pub enum Token {
    // Data types
    IntLiteral(i64),
    DoubleLiteral(u64),
    True,
    False,
    StringLiteral(String),

    // Identifier
    Ident(String),

    // Grouping
    LParen,
    RParen,
    LBracket,
    RBracket,

    // Logical negation
    Bang,
    Not,

    // Multiplicative operators
    Asterisk,
    Slash,
    Percent,

    // Additive operators
    Plus,
    Minus,

    // Relational
    LessThan,
    GreaterThan,
    LessThanEqualTo,
    GreaterThanEqualTo,

    Equals,
    NotEquals,
    NotEqualsAngleBrackets,

    And,
    DoubleAmpersand,

    Or,
    DoublePipe,

    Comma,
    EOF,
    Illegal,
}

/// The mathematical shadow of `Token`: string payloads become
/// character sequences.
pub enum SpecToken {
    IntLiteral(i64),
    DoubleLiteral(u64),
    True,
    False,
    StringLiteral(Seq<char>),
    Ident(Seq<char>),
    LParen,
    RParen,
    LBracket,
    RBracket,
    Bang,
    Not,
    Asterisk,
    Slash,
    Percent,
    Plus,
    Minus,
    LessThan,
    GreaterThan,
    LessThanEqualTo,
    GreaterThanEqualTo,
    Equals,
    NotEquals,
    NotEqualsAngleBrackets,
    And,
    DoubleAmpersand,
    Or,
    DoublePipe,
    Comma,
    EOF,
    Illegal,
}

impl View for Token {
    type V = SpecToken;

    open spec fn view(&self) -> SpecToken {
        match self {
            Token::IntLiteral(n) => SpecToken::IntLiteral(*n),
            Token::DoubleLiteral(b) => SpecToken::DoubleLiteral(*b),
            Token::True => SpecToken::True,
            Token::False => SpecToken::False,
            Token::StringLiteral(s) => SpecToken::StringLiteral(s@),
            Token::Ident(s) => SpecToken::Ident(s@),
            Token::LParen => SpecToken::LParen,
            Token::RParen => SpecToken::RParen,
            Token::LBracket => SpecToken::LBracket,
            Token::RBracket => SpecToken::RBracket,
            Token::Bang => SpecToken::Bang,
            Token::Not => SpecToken::Not,
            Token::Asterisk => SpecToken::Asterisk,
            Token::Slash => SpecToken::Slash,
            Token::Percent => SpecToken::Percent,
            Token::Plus => SpecToken::Plus,
            Token::Minus => SpecToken::Minus,
            Token::LessThan => SpecToken::LessThan,
            Token::GreaterThan => SpecToken::GreaterThan,
            Token::LessThanEqualTo => SpecToken::LessThanEqualTo,
            Token::GreaterThanEqualTo => SpecToken::GreaterThanEqualTo,
            Token::Equals => SpecToken::Equals,
            Token::NotEquals => SpecToken::NotEquals,
            Token::NotEqualsAngleBrackets => SpecToken::NotEqualsAngleBrackets,
            Token::And => SpecToken::And,
            Token::DoubleAmpersand => SpecToken::DoubleAmpersand,
            Token::Or => SpecToken::Or,
            Token::DoublePipe => SpecToken::DoublePipe,
            Token::Comma => SpecToken::Comma,
            Token::EOF => SpecToken::EOF,
            Token::Illegal => SpecToken::Illegal,
        }
    }
}

impl Token {
    /// The binding strength of this token when it appears in infix
    /// position, as an integer; see `Precedence` for the tiers.
    pub fn get_precedence(&self) -> (p: crate::expression::Precedence)
        ensures
            p.spec_value() == spec_precedence(self@),
    {
        match self {
            Token::Equals | Token::NotEquals | Token::NotEqualsAngleBrackets => {
                crate::expression::Precedence::Equals
            },
            Token::LessThan
            | Token::LessThanEqualTo
            | Token::GreaterThanEqualTo
            | Token::GreaterThan => crate::expression::Precedence::LessGreater,
            Token::Plus | Token::Minus => crate::expression::Precedence::Sum,
            Token::Slash | Token::Asterisk | Token::Percent => {
                crate::expression::Precedence::Product
            },
            Token::Or | Token::DoublePipe => crate::expression::Precedence::Logical,
            Token::LParen => crate::expression::Precedence::Call,
            _ => crate::expression::Precedence::Lowest,
        }
    }
}

/// Binding strength of a token in infix position.
///
/// `or` and `||` bind more loosely than the equality operators, so that
/// `a == b or c == d` groups as `(a == b) or (c == d)`; `%` binds like
/// `*` and `/`. `and` and `&&` are left at the lowest tier: the
/// evaluator defines no meaning for them, and an infix chain never
/// absorbs a lowest-tier token.
pub open spec fn spec_precedence(t: SpecToken) -> int {
    match t {
        SpecToken::Equals | SpecToken::NotEquals | SpecToken::NotEqualsAngleBrackets => 2,
        SpecToken::LessThan
        | SpecToken::LessThanEqualTo
        | SpecToken::GreaterThanEqualTo
        | SpecToken::GreaterThan => 3,
        SpecToken::Plus | SpecToken::Minus => 4,
        SpecToken::Slash | SpecToken::Asterisk | SpecToken::Percent => 5,
        SpecToken::Or | SpecToken::DoublePipe => 1,
        SpecToken::LParen => 7,
        _ => 0,
    }
}

impl Token {
    /// An owned copy whose view equals this token's view.
    pub fn duplicate(&self) -> (r: Token)
        ensures
            r@ == self@,
    {
        match self {
            Token::IntLiteral(n) => Token::IntLiteral(*n),
            Token::DoubleLiteral(b) => Token::DoubleLiteral(*b),
            Token::True => Token::True,
            Token::False => Token::False,
            Token::StringLiteral(s) => Token::StringLiteral(s.clone()),
            Token::Ident(s) => Token::Ident(s.clone()),
            Token::LParen => Token::LParen,
            Token::RParen => Token::RParen,
            Token::LBracket => Token::LBracket,
            Token::RBracket => Token::RBracket,
            Token::Bang => Token::Bang,
            Token::Not => Token::Not,
            Token::Asterisk => Token::Asterisk,
            Token::Slash => Token::Slash,
            Token::Percent => Token::Percent,
            Token::Plus => Token::Plus,
            Token::Minus => Token::Minus,
            Token::LessThan => Token::LessThan,
            Token::GreaterThan => Token::GreaterThan,
            Token::LessThanEqualTo => Token::LessThanEqualTo,
            Token::GreaterThanEqualTo => Token::GreaterThanEqualTo,
            Token::Equals => Token::Equals,
            Token::NotEquals => Token::NotEquals,
            Token::NotEqualsAngleBrackets => Token::NotEqualsAngleBrackets,
            Token::And => Token::And,
            Token::DoubleAmpersand => Token::DoubleAmpersand,
            Token::Or => Token::Or,
            Token::DoublePipe => Token::DoublePipe,
            Token::Comma => Token::Comma,
            Token::EOF => Token::EOF,
            Token::Illegal => Token::Illegal,
        }
    }
}

} // verus!
