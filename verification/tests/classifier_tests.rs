use lexer_rust::token::TokenType;
use lexer_rust::token::Token;
use lexer_rust::util::{
    is_beginning_of_char, is_beginning_of_string, is_keyword, is_letter, is_number, is_operator,
    is_separator, is_whitespace,
};

#[test]
fn test_whitespace_classifier() {
    assert!(is_whitespace(' '));
    assert!(is_whitespace('\t'));
    assert!(is_whitespace('\n'));
    assert!(is_whitespace('\r'));
    assert!(!is_whitespace('x'));
    assert!(!is_whitespace('0'));
}

#[test]
fn test_separator_classifier() {
    for c in [';', ',', '(', ')', '[', ']', '{', '}', '.', ':'] {
        assert!(is_separator(c));
    }
    assert!(!is_separator('+'));
    assert!(!is_separator('a'));
    assert!(!is_separator(' '));
}

#[test]
fn test_operator_classifier() {
    for c in ['+', '-', '*', '/', '%', '&', '|', '!', '=', '<', '>'] {
        assert!(is_operator(c));
    }
    assert!(!is_operator(';'));
    assert!(!is_operator('a'));
    assert!(!is_operator('.'));
}

#[test]
fn test_quote_classifiers() {
    assert!(is_beginning_of_string('"'));
    assert!(!is_beginning_of_string('\''));
    assert!(is_beginning_of_char('\''));
    assert!(!is_beginning_of_char('"'));
}

#[test]
fn test_digit_classifier() {
    for c in ['0', '1', '2', '3', '4', '5', '6', '7', '8', '9'] {
        assert!(is_number(c));
    }
    assert!(!is_number('a'));
    assert!(!is_number('.'));
    assert!(!is_number('/'));
}

#[test]
fn test_letter_classifier() {
    assert!(is_letter('a'));
    assert!(is_letter('z'));
    assert!(is_letter('A'));
    assert!(is_letter('Z'));
    assert!(is_letter('é'));
    assert!(!is_letter('0'));
    assert!(!is_letter('_'));
    assert!(!is_letter(' '));
    assert!(!is_letter(';'));
}

#[test]
fn test_keyword_classifier() {
    for word in [
        "if", "else", "while", "int", "float", "bool", "char", "string", "fun", "return", "void",
    ] {
        assert!(is_keyword(String::from(word)));
    }
    assert!(!is_keyword(String::from("If")));
    assert!(!is_keyword(String::from("house")));
    assert!(!is_keyword(String::from("true")));
    assert!(!is_keyword(String::from("")));
}

#[test]
fn test_classifiers_are_pure() {
    for c in [' ', 'a', '0', ';', '+', '"', '\'', '#', 'é'] {
        assert_eq!(is_whitespace(c), is_whitespace(c));
        assert_eq!(is_separator(c), is_separator(c));
        assert_eq!(is_operator(c), is_operator(c));
        assert_eq!(is_beginning_of_char(c), is_beginning_of_char(c));
        assert_eq!(is_beginning_of_string(c), is_beginning_of_string(c));
        assert_eq!(is_number(c), is_number(c));
        assert_eq!(is_letter(c), is_letter(c));
    }
    assert_eq!(is_keyword(String::from("if")), is_keyword(String::from("if")));
}

#[test]
fn test_token_new_sets_fields() {
    let token = Token::new(TokenType::Identifier, String::from("house"));
    assert_eq!(token.token_type, TokenType::Identifier);
    assert_eq!(token.lexeme, "house");
}
