//! The character classifier: pure predicates over single characters and over
//! whole words, together with the fixed tables that map separators, operators
//! and keywords to their token kinds.

use vstd::prelude::*;
use crate::token::TokenType;

verus! {

/// Whitespace in the scanner's sense: space, tab, newline, carriage return.
pub open spec fn spec_is_whitespace(c: char) -> bool {
    c == ' ' || c == '\t' || c == '\n' || c == '\r'
}

/// A separator: one of `; , ( ) [ ] { } . :`.
pub open spec fn spec_is_separator(c: char) -> bool {
    ||| c == ';'
    ||| c == ','
    ||| c == '('
    ||| c == ')'
    ||| c == '['
    ||| c == ']'
    ||| c == '{'
    ||| c == '}'
    ||| c == '.'
    ||| c == ':'
}

/// An operator symbol: the first character of every one- or two-character
/// operator, `+ - * / % & | ! = < >`.
pub open spec fn spec_is_operator(c: char) -> bool {
    ||| c == '+'
    ||| c == '-'
    ||| c == '*'
    ||| c == '/'
    ||| c == '%'
    ||| c == '&'
    ||| c == '|'
    ||| c == '!'
    ||| c == '='
    ||| c == '<'
    ||| c == '>'
}

/// The opening (and closing) quote of a character literal.
pub open spec fn spec_is_char_quote(c: char) -> bool {
    c == '\''
}

/// The opening (and closing) quote of a string literal.
pub open spec fn spec_is_string_quote(c: char) -> bool {
    c == '"'
}

/// A decimal digit `0`-`9`.
pub open spec fn spec_is_digit(c: char) -> bool {
    48 <= c as u32 && c as u32 <= 57
}

/// What `char::is_alphabetic` returns on a character beyond ASCII; the result
/// depends on the character alone.
pub uninterp spec fn non_ascii_alphabetic(c: char) -> bool;

/// A letter: an alphabetic character. Within ASCII these are exactly `a`-`z`
/// and `A`-`Z`; beyond ASCII the classification is `non_ascii_alphabetic`.
pub open spec fn spec_is_letter(c: char) -> bool {
    if c as u32 <= 127 {
        (97 <= c as u32 && c as u32 <= 122) || (65 <= c as u32 && c as u32 <= 90)
    } else {
        non_ascii_alphabetic(c)
    }
}

/// A reserved keyword of the language.
pub open spec fn spec_is_keyword(w: Seq<char>) -> bool {
    ||| w == "if"@
    ||| w == "else"@
    ||| w == "while"@
    ||| w == "int"@
    ||| w == "float"@
    ||| w == "bool"@
    ||| w == "char"@
    ||| w == "string"@
    ||| w == "fun"@
    ||| w == "return"@
    ||| w == "void"@
}

/// The token kind of a reserved keyword. On a word that is no keyword it
/// falls through to `Identifier`.
pub open spec fn keyword_kind(w: Seq<char>) -> TokenType {
    if w == "if"@ {
        TokenType::If
    } else if w == "else"@ {
        TokenType::Else
    } else if w == "while"@ {
        TokenType::While
    } else if w == "int"@ {
        TokenType::Int
    } else if w == "float"@ {
        TokenType::Float
    } else if w == "bool"@ {
        TokenType::Bool
    } else if w == "char"@ {
        TokenType::Character
    } else if w == "string"@ {
        TokenType::String
    } else if w == "fun"@ {
        TokenType::Function
    } else if w == "return"@ {
        TokenType::Return
    } else if w == "void"@ {
        TokenType::Void
    } else {
        TokenType::Identifier
    }
}

/// The kind of a consumed word: a keyword's kind, a boolean or null literal,
/// or an identifier.
pub open spec fn word_kind(w: Seq<char>) -> TokenType {
    if spec_is_keyword(w) {
        keyword_kind(w)
    } else if w == "true"@ || w == "false"@ {
        TokenType::BooleanLiteral
    } else if w == "null"@ {
        TokenType::NullLiteral
    } else {
        TokenType::Identifier
    }
}

/// The separator table. On a character that is no separator it falls through
/// to `Colon`; the scanner only applies it under `spec_is_separator`.
pub open spec fn separator_kind(c: char) -> TokenType {
    if c == ';' {
        TokenType::Semicolon
    } else if c == ',' {
        TokenType::Comma
    } else if c == '(' {
        TokenType::LeftParenthesis
    } else if c == ')' {
        TokenType::RightParenthesis
    } else if c == '[' {
        TokenType::LeftBracket
    } else if c == ']' {
        TokenType::RightBracket
    } else if c == '{' {
        TokenType::LeftCurlyBracket
    } else if c == '}' {
        TokenType::RightCurlyBracket
    } else if c == '.' {
        TokenType::Period
    } else {
        TokenType::Colon
    }
}

/// The one-character operator table. `&` and `|` start operator symbols but
/// have no one-character entry, so they map to `None`.
pub open spec fn one_char_operator_kind(c: char) -> Option<TokenType> {
    if c == '+' {
        Some(TokenType::Addition)
    } else if c == '-' {
        Some(TokenType::Subtraction)
    } else if c == '*' {
        Some(TokenType::Multiplication)
    } else if c == '/' {
        Some(TokenType::Division)
    } else if c == '%' {
        Some(TokenType::Modulus)
    } else if c == '!' {
        Some(TokenType::LogicalNot)
    } else if c == '=' {
        Some(TokenType::Assignment)
    } else if c == '<' {
        Some(TokenType::LessThan)
    } else if c == '>' {
        Some(TokenType::GreaterThan)
    } else {
        None
    }
}

/// The two-character operator table: `&& || == != <= >= += -= *= /= %=`.
/// Every other pair of operator symbols maps to `None`.
pub open spec fn two_char_operator_kind(c1: char, c2: char) -> Option<TokenType> {
    if c1 == '&' && c2 == '&' {
        Some(TokenType::LogicalAnd)
    } else if c1 == '|' && c2 == '|' {
        Some(TokenType::LogicalOr)
    } else if c1 == '=' && c2 == '=' {
        Some(TokenType::EqualTo)
    } else if c1 == '!' && c2 == '=' {
        Some(TokenType::NotEqualTo)
    } else if c1 == '<' && c2 == '=' {
        Some(TokenType::LessThanOrEqualTo)
    } else if c1 == '>' && c2 == '=' {
        Some(TokenType::GreaterThanOrEqualTo)
    } else if c1 == '+' && c2 == '=' {
        Some(TokenType::AddAndAssign)
    } else if c1 == '-' && c2 == '=' {
        Some(TokenType::SubtractAndAssign)
    } else if c1 == '*' && c2 == '=' {
        Some(TokenType::MultiplyAndAssign)
    } else if c1 == '/' && c2 == '=' {
        Some(TokenType::DivideAndAssign)
    } else if c1 == '%' && c2 == '=' {
        Some(TokenType::ModulusAndAssign)
    } else {
        None
    }
}

/// Relies on `char::is_alphabetic`: within ASCII it holds exactly of the
/// letters `a`-`z` and `A`-`Z`; beyond ASCII its result depends on the
/// character alone, which `non_ascii_alphabetic` names.
#[verifier::external_body]
fn char_is_alphabetic(c: char) -> (r: bool)
    ensures
        r == spec_is_letter(c),
        c as u32 > 127 ==> r == non_ascii_alphabetic(c),
{
    c.is_alphabetic()
}

/// True for space, tab, newline and carriage return.
pub fn is_whitespace(character: char) -> (r: bool)
    ensures
        r == spec_is_whitespace(character),
{
    character == ' ' || character == '\t' || character == '\n' || character == '\r'
}

/// True for the separators `; , ( ) [ ] { } . :`.
pub fn is_separator(character: char) -> (r: bool)
    ensures
        r == spec_is_separator(character),
{
    character == ';' || character == ',' || character == '(' || character == ')'
        || character == '[' || character == ']' || character == '{' || character == '}'
        || character == '.' || character == ':'
}

/// True for the operator symbols `+ - * / % & | ! = < >`.
pub fn is_operator(character: char) -> (r: bool)
    ensures
        r == spec_is_operator(character),
{
    character == '+' || character == '-' || character == '*' || character == '/'
        || character == '%' || character == '&' || character == '|' || character == '!'
        || character == '=' || character == '<' || character == '>'
}

/// True only for `'`, the quote that begins a character literal.
pub fn is_beginning_of_char(character: char) -> (r: bool)
    ensures
        r == spec_is_char_quote(character),
{
    character == '\''
}

/// True only for `"`, the quote that begins a string literal.
pub fn is_beginning_of_string(character: char) -> (r: bool)
    ensures
        r == spec_is_string_quote(character),
{
    character == '"'
}

/// True for the decimal digits `0`-`9`.
pub fn is_number(character: char) -> (r: bool)
    ensures
        r == spec_is_digit(character),
{
    let code = character as u32;
    48 <= code && code <= 57
}

/// True for any alphabetic character.
pub fn is_letter(character: char) -> (r: bool)
    ensures
        r == spec_is_letter(character),
{
    char_is_alphabetic(character)
}

/// True exactly when the word is one of the eleven reserved keywords.
pub fn is_keyword(string: String) -> (r: bool)
    ensures
        r == spec_is_keyword(string@),
{
    string == String::from_str("if") || string == String::from_str("else")
        || string == String::from_str("while") || string == String::from_str("int")
        || string == String::from_str("float") || string == String::from_str("bool")
        || string == String::from_str("char") || string == String::from_str("string")
        || string == String::from_str("fun") || string == String::from_str("return")
        || string == String::from_str("void")
}

} // verus!
