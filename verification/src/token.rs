//! The token data model: the closed set of token kinds, the executable
//! `Token` value, and its mathematical view `SpecToken`.

use vstd::prelude::*;

verus! {

/// The classification of a lexical unit. The set is closed: identifiers,
/// reserved keywords, literals, operators, separators, and the two sentinels
/// `EOF` (end of input) and `Illegal` (a character no rule recognises).
#[derive(Debug, Clone, Copy, PartialEq, Eq, Structural)]
pub enum TokenType {
    // Identifier
    Identifier,
    // Keywords
    If,
    Else,
    While,
    Int,
    Float,
    Bool,
    Character,
    String,
    Function,
    Return,
    Void,
    // Literals
    IntegerLiteral,
    FloatingLiteral,
    BooleanLiteral,
    CharacterLiteral,
    StringLiteral,
    NullLiteral,
    // Operators
    Addition,
    Subtraction,
    Multiplication,
    Division,
    Modulus,
    LogicalAnd,
    LogicalOr,
    LogicalNot,
    EqualTo,
    NotEqualTo,
    LessThan,
    GreaterThan,
    LessThanOrEqualTo,
    GreaterThanOrEqualTo,
    Assignment,
    AddAndAssign,
    SubtractAndAssign,
    MultiplyAndAssign,
    DivideAndAssign,
    ModulusAndAssign,
    // Separators
    Semicolon,
    Comma,
    LeftParenthesis,
    RightParenthesis,
    LeftBracket,
    RightBracket,
    LeftCurlyBracket,
    RightCurlyBracket,
    Period,
    Colon,
    // Sentinels
    EOF,
    Illegal,
}

/// The mathematical value of a token: its kind and the characters of its
/// lexeme. Contracts about the scanner are stated over sequences of these.
pub struct SpecToken {
    pub kind: TokenType,
    pub text: Seq<char>,
}

/// One classified lexical unit: its kind and the exact (or, for string and
/// character literals, quote-stripped) text it was matched from.
#[derive(Debug)]
pub struct Token {
    pub token_type: TokenType,
    pub lexeme: String,
}

impl View for Token {
    type V = SpecToken;

    open spec fn view(&self) -> SpecToken {
        SpecToken { kind: self.token_type, text: self.lexeme@ }
    }
}

/// The mathematical values of a sequence of tokens, in order.
pub open spec fn token_views(ts: Seq<Token>) -> Seq<SpecToken> {
    ts.map_values(|t: Token| t@)
}

impl Token {
    /// Packs a kind and a lexeme into a token.
    pub fn new(token_type: TokenType, lexeme: String) -> (t: Token)
        ensures
            t@ == (SpecToken { kind: token_type, text: lexeme@ }),
    {
        Token { token_type, lexeme }
    }
}

} // verus!
