use lexer_rust::lexer::{Lexer, Tokenizer};
use lexer_rust::token::TokenType;

#[test]
fn test_can_lex_identifier() {
    let input = String::from("house");
    let mut lexer = Lexer::new(input);
    let tokens = lexer.tokenize();
    assert_eq!(tokens[0].token_type, TokenType::Identifier);
}

#[test]
fn test_can_lex_keyword() {
    let input = String::from("if");
    let mut lexer = Lexer::new(input);
    let tokens = lexer.tokenize();
    assert_eq!(tokens[0].token_type, TokenType::If);
}

#[test]
fn test_can_lex_literal() {
    let input = String::from("4.0");
    let mut lexer = Lexer::new(input);
    let tokens = lexer.tokenize();
    assert_eq!(tokens[0].token_type, TokenType::FloatingLiteral);
}

#[test]
fn test_can_lex_two_char_operator() {
    let input = String::from("*=");
    let mut lexer = Lexer::new(input);
    let tokens = lexer.tokenize();
    assert_eq!(tokens[0].token_type, TokenType::MultiplyAndAssign);
}

#[test]
fn test_can_lex_operator() {
    let input = String::from('=');
    let mut lexer = Lexer::new(input);
    let tokens = lexer.tokenize();
    assert_eq!(tokens[0].token_type, TokenType::Assignment);
}

#[test]
fn test_can_lex_separator() {
    let input = String::from('{');
    let mut lexer = Lexer::new(input);
    let tokens = lexer.tokenize();
    assert_eq!(tokens[0].token_type, TokenType::LeftCurlyBracket);
}

#[test]
fn test_can_lex_other() {
    let input = String::from("");
    let mut lexer = Lexer::new(input);
    let tokens = lexer.tokenize();
    assert_eq!(tokens[0].token_type, TokenType::EOF);
}

#[test]
fn test_can_lex_subsequent() {
    let input = String::from("; \"hello\" 4.0 5 'a' bool true null");
    let mut lexer = Lexer::new(input);
    let tokens = lexer.tokenize();
    assert_eq!(tokens[0].token_type, TokenType::Semicolon);
    assert_eq!(tokens[1].token_type, TokenType::StringLiteral);
    assert_eq!(tokens[2].token_type, TokenType::FloatingLiteral);
    assert_eq!(tokens[3].token_type, TokenType::IntegerLiteral);
    assert_eq!(tokens[4].token_type, TokenType::CharacterLiteral);
    assert_eq!(tokens[5].token_type, TokenType::Bool);
    assert_eq!(tokens[6].token_type, TokenType::BooleanLiteral);
    assert_eq!(tokens[7].token_type, TokenType::NullLiteral);
    assert_eq!(tokens[8].token_type, TokenType::EOF);
}

#[test]
fn test_subsequent_lexemes() {
    let input = String::from("; \"hello\" 4.0 5 'a' bool true null");
    let mut lexer = Lexer::new(input);
    let tokens = lexer.tokenize();
    assert_eq!(tokens.len(), 9);
    assert_eq!(tokens[0].lexeme, ";");
    assert_eq!(tokens[1].lexeme, "hello");
    assert_eq!(tokens[2].lexeme, "4.0");
    assert_eq!(tokens[3].lexeme, "5");
    assert_eq!(tokens[4].lexeme, "a");
    assert_eq!(tokens[5].lexeme, "bool");
    assert_eq!(tokens[6].lexeme, "true");
    assert_eq!(tokens[7].lexeme, "null");
    assert_eq!(tokens[8].lexeme, "EOF");
}

#[test]
fn test_star_assign_exact_sequence() {
    let mut lexer = Lexer::new(String::from("*="));
    let tokens = lexer.tokenize();
    assert_eq!(tokens.len(), 2);
    assert_eq!(tokens[0].token_type, TokenType::MultiplyAndAssign);
    assert_eq!(tokens[0].lexeme, "*=");
    assert_eq!(tokens[1].token_type, TokenType::EOF);
    assert_eq!(tokens[1].lexeme, "EOF");
}

#[test]
fn test_empty_input_exact_sequence() {
    let mut lexer = Lexer::new(String::from(""));
    let tokens = lexer.tokenize();
    assert_eq!(tokens.len(), 1);
    assert_eq!(tokens[0].token_type, TokenType::EOF);
    assert_eq!(tokens[0].lexeme, "EOF");
}

#[test]
fn test_whitespace_only_input() {
    let mut lexer = Lexer::new(String::from("  \t\n\r "));
    let tokens = lexer.tokenize();
    assert_eq!(tokens.len(), 1);
    assert_eq!(tokens[0].token_type, TokenType::EOF);
}

#[test]
fn test_all_keywords() {
    let cases = [
        ("if", TokenType::If),
        ("else", TokenType::Else),
        ("while", TokenType::While),
        ("int", TokenType::Int),
        ("float", TokenType::Float),
        ("bool", TokenType::Bool),
        ("char", TokenType::Character),
        ("string", TokenType::String),
        ("fun", TokenType::Function),
        ("return", TokenType::Return),
        ("void", TokenType::Void),
    ];
    for (word, kind) in cases {
        let mut lexer = Lexer::new(String::from(word));
        let tokens = lexer.tokenize();
        assert_eq!(tokens.len(), 2);
        assert_eq!(tokens[0].token_type, kind);
        assert_eq!(tokens[0].lexeme, word);
        assert_eq!(tokens[1].token_type, TokenType::EOF);
    }
}

#[test]
fn test_boolean_and_null_literals() {
    let cases = [
        ("true", TokenType::BooleanLiteral),
        ("false", TokenType::BooleanLiteral),
        ("null", TokenType::NullLiteral),
    ];
    for (word, kind) in cases {
        let mut lexer = Lexer::new(String::from(word));
        let tokens = lexer.tokenize();
        assert_eq!(tokens[0].token_type, kind);
        assert_eq!(tokens[0].lexeme, word);
    }
}

#[test]
fn test_integer_literal() {
    let mut lexer = Lexer::new(String::from("123"));
    let tokens = lexer.tokenize();
    assert_eq!(tokens.len(), 2);
    assert_eq!(tokens[0].token_type, TokenType::IntegerLiteral);
    assert_eq!(tokens[0].lexeme, "123");
}

#[test]
fn test_number_with_many_dots_stays_one_literal() {
    let mut lexer = Lexer::new(String::from("1.2.3"));
    let tokens = lexer.tokenize();
    assert_eq!(tokens.len(), 2);
    assert_eq!(tokens[0].token_type, TokenType::FloatingLiteral);
    assert_eq!(tokens[0].lexeme, "1.2.3");
}

#[test]
fn test_trailing_dot_is_floating() {
    let mut lexer = Lexer::new(String::from("5."));
    let tokens = lexer.tokenize();
    assert_eq!(tokens[0].token_type, TokenType::FloatingLiteral);
    assert_eq!(tokens[0].lexeme, "5.");
}

#[test]
fn test_all_two_char_operators() {
    let cases = [
        ("&&", TokenType::LogicalAnd),
        ("||", TokenType::LogicalOr),
        ("==", TokenType::EqualTo),
        ("!=", TokenType::NotEqualTo),
        ("<=", TokenType::LessThanOrEqualTo),
        (">=", TokenType::GreaterThanOrEqualTo),
        ("+=", TokenType::AddAndAssign),
        ("-=", TokenType::SubtractAndAssign),
        ("*=", TokenType::MultiplyAndAssign),
        ("/=", TokenType::DivideAndAssign),
        ("%=", TokenType::ModulusAndAssign),
    ];
    for (pair, kind) in cases {
        let mut lexer = Lexer::new(String::from(pair));
        let tokens = lexer.tokenize();
        assert_eq!(tokens.len(), 2);
        assert_eq!(tokens[0].token_type, kind);
        assert_eq!(tokens[0].lexeme, pair);
    }
}

#[test]
fn test_all_one_char_operators() {
    let cases = [
        ("+", TokenType::Addition),
        ("-", TokenType::Subtraction),
        ("*", TokenType::Multiplication),
        ("/", TokenType::Division),
        ("%", TokenType::Modulus),
        ("!", TokenType::LogicalNot),
        ("=", TokenType::Assignment),
        ("<", TokenType::LessThan),
        (">", TokenType::GreaterThan),
    ];
    for (sym, kind) in cases {
        let mut lexer = Lexer::new(String::from(sym));
        let tokens = lexer.tokenize();
        assert_eq!(tokens.len(), 2);
        assert_eq!(tokens[0].token_type, kind);
        assert_eq!(tokens[0].lexeme, sym);
    }
}

#[test]
fn test_all_separators() {
    let cases = [
        (";", TokenType::Semicolon),
        (",", TokenType::Comma),
        ("(", TokenType::LeftParenthesis),
        (")", TokenType::RightParenthesis),
        ("[", TokenType::LeftBracket),
        ("]", TokenType::RightBracket),
        ("{", TokenType::LeftCurlyBracket),
        ("}", TokenType::RightCurlyBracket),
        (".", TokenType::Period),
        (":", TokenType::Colon),
    ];
    for (sym, kind) in cases {
        let mut lexer = Lexer::new(String::from(sym));
        let tokens = lexer.tokenize();
        assert_eq!(tokens.len(), 2);
        assert_eq!(tokens[0].token_type, kind);
        assert_eq!(tokens[0].lexeme, sym);
    }
}

#[test]
fn test_illegal_character_continues_scan() {
    let mut lexer = Lexer::new(String::from("#;"));
    let tokens = lexer.tokenize();
    assert_eq!(tokens.len(), 3);
    assert_eq!(tokens[0].token_type, TokenType::Illegal);
    assert_eq!(tokens[0].lexeme, "Illegal");
    assert_eq!(tokens[1].token_type, TokenType::Semicolon);
    assert_eq!(tokens[2].token_type, TokenType::EOF);
}

#[test]
fn test_empty_string_literal() {
    let mut lexer = Lexer::new(String::from("\"\""));
    let tokens = lexer.tokenize();
    assert_eq!(tokens.len(), 2);
    assert_eq!(tokens[0].token_type, TokenType::StringLiteral);
    assert_eq!(tokens[0].lexeme, "");
}

#[test]
fn test_char_literal_consumes_closing_quote() {
    let mut lexer = Lexer::new(String::from("'a' bool"));
    let tokens = lexer.tokenize();
    assert_eq!(tokens.len(), 3);
    assert_eq!(tokens[0].token_type, TokenType::CharacterLiteral);
    assert_eq!(tokens[0].lexeme, "a");
    assert_eq!(tokens[1].token_type, TokenType::Bool);
}

#[test]
fn test_word_swallows_operator_characters() {
    // The word boundary is "whitespace or separator", so operator symbols
    // inside a word are kept in it.
    let mut lexer = Lexer::new(String::from("x+1"));
    let tokens = lexer.tokenize();
    assert_eq!(tokens.len(), 2);
    assert_eq!(tokens[0].token_type, TokenType::Identifier);
    assert_eq!(tokens[0].lexeme, "x+1");
}

#[test]
fn test_tokenize_is_repeatable() {
    let mut lexer = Lexer::new(String::from("if (x) { return 1; }"));
    let first = lexer.tokenize();
    let second = lexer.tokenize();
    assert_eq!(first.len(), second.len());
    for i in 0..first.len() {
        assert_eq!(first[i].token_type, second[i].token_type);
        assert_eq!(first[i].lexeme, second[i].lexeme);
    }
}

#[test]
fn test_last_token_is_the_only_eof() {
    let mut lexer = Lexer::new(String::from("while true { x = x + 1.5; }"));
    let tokens = lexer.tokenize();
    assert!(tokens.len() > 0);
    assert_eq!(tokens[tokens.len() - 1].token_type, TokenType::EOF);
    for i in 0..tokens.len() - 1 {
        assert_ne!(tokens[i].token_type, TokenType::EOF);
    }
}

#[test]
fn test_try_tokenize_accepts_good_input() {
    let mut lexer = Lexer::new(String::from("fun f(a, b) { return a <= b; }"));
    let tokens = lexer.try_tokenize().unwrap();
    assert_eq!(tokens[0].token_type, TokenType::Function);
    assert_eq!(tokens[tokens.len() - 1].token_type, TokenType::EOF);
}

#[test]
fn test_try_tokenize_rejects_unterminated_string() {
    let mut lexer = Lexer::new(String::from("\"unterminated"));
    assert!(lexer.try_tokenize().is_none());
}

#[test]
fn test_try_tokenize_rejects_unterminated_char() {
    let mut lexer = Lexer::new(String::from("'a"));
    assert!(lexer.try_tokenize().is_none());
}

#[test]
fn test_try_tokenize_rejects_lone_ampersand_and_bar() {
    let mut lexer = Lexer::new(String::from("&"));
    assert!(lexer.try_tokenize().is_none());
    let mut lexer = Lexer::new(String::from("|"));
    assert!(lexer.try_tokenize().is_none());
}
