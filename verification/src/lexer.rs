//! The executable scanner: a `Lexer` walks the input once, left to right,
//! and is proved to produce exactly the token sequence that the mathematical
//! scanner `spec_scan` names.

use vstd::prelude::*;
use vstd::pervasive::unreached;
use vstd::string::StrSliceExecFns;
use crate::scan::{
    close_quote, eof_token, has_dot, lemma_close_quote, lemma_next_bounds, lemma_num_end,
    lemma_scan_skips_whitespace, lemma_word_end, lemma_ws_end, num_end, spec_lexable, spec_next,
    spec_scan, spec_token_seq, word_end, ws_end, ScanStep,
};
use crate::token::{token_views, SpecToken, Token, TokenType};
use crate::util::{
    is_beginning_of_char, is_beginning_of_string, is_keyword, is_letter, is_number, is_operator,
    is_separator, is_whitespace, keyword_kind, spec_is_char_quote, spec_is_digit, spec_is_keyword,
    spec_is_letter, spec_is_operator, spec_is_separator, spec_is_string_quote,
};

verus! {

/// Relies on `String::push`: it appends exactly the given character to the
/// end of the string.
#[verifier::external_body]
fn push_char(s: &mut String, c: char)
    ensures
        final(s)@ == old(s)@.push(c),
{
    s.push(c);
}

/// The scanner's state: the input as a sequence of characters, and a cursor
/// that only moves forward and never leaves `[0, input.len()]` while a scan
/// runs.
pub struct Lexer {
    input: Vec<char>,
    position: usize,
}

/// The one operation a scanner offers: producing the complete ordered token
/// sequence of its input. `tokenize` may be called again; every call scans
/// the unchanged input afresh from its start.
pub trait Tokenizer {
    /// The input text being scanned.
    spec fn text(&self) -> Seq<char>;

    /// Produces the full token sequence of the input: exactly the tokens of
    /// the mathematical scan, closed by one end-of-input token.
    fn tokenize(&mut self) -> (tokens: Vec<Token>)
        requires
            spec_lexable(old(self).text()),
        ensures
            final(self).text() == old(self).text(),
            token_views(tokens@) == spec_token_seq(old(self).text()),
    ;
}

impl Lexer {
    /// The cursor.
    pub closed spec fn pos(&self) -> nat {
        self.position as nat
    }

    /// The cursor never passes the end of the input.
    pub closed spec fn wf(&self) -> bool {
        self.position <= self.input.len()
    }

    /// Builds a scanner over the given input text.
    pub fn new(input: String) -> (lexer: Lexer)
        ensures
            lexer.text() == input@,
            lexer.pos() == 0,
            lexer.wf(),
    {
        let text = input.as_str();
        let length = text.unicode_len();
        let mut chars: Vec<char> = Vec::new();
        let mut i: usize = 0;
        #[verifier::loop_isolation(false)]
        while i < length
            invariant
                i <= length,
                length == text@.len(),
                text@ == input@,
                chars@ == input@.subrange(0, i as int),
            decreases length - i,
        {
            let c = text.get_char(i);
            chars.push(c);
            i = i + 1;
            proof {
                assert(chars@ =~= input@.subrange(0, i as int));
            }
        }
        proof {
            assert(chars@ =~= input@);
        }
        Lexer { input: chars, position: 0 }
    }

    /// Steps the cursor past one whitespace character.
    fn skip_whitespace(&mut self)
        requires
            old(self).wf(),
            old(self).pos() < old(self).text().len(),
        ensures
            final(self).wf(),
            final(self).text() == old(self).text(),
            final(self).pos() == old(self).pos() + 1,
    {
        self.position = self.position + 1;
    }

    /// Consumes one separator character and maps it through the separator
    /// table.
    fn consume_separator(&mut self) -> (t: Token)
        requires
            old(self).wf(),
            old(self).pos() < old(self).text().len(),
            spec_is_separator(old(self).text()[old(self).pos() as int]),
        ensures
            final(self).wf(),
            final(self).text() == old(self).text(),
            old(self).pos() <= final(self).pos(),
            spec_next(old(self).text(), old(self).pos()) == ScanStep::Emit(t@, final(self).pos()),
    {
        let current_char = self.input[self.position];
        self.position = self.position + 1;
        let type_of_token = if current_char == ';' {
            TokenType::Semicolon
        } else if current_char == ',' {
            TokenType::Comma
        } else if current_char == '(' {
            TokenType::LeftParenthesis
        } else if current_char == ')' {
            TokenType::RightParenthesis
        } else if current_char == '[' {
            TokenType::LeftBracket
        } else if current_char == ']' {
            TokenType::RightBracket
        } else if current_char == '{' {
            TokenType::LeftCurlyBracket
        } else if current_char == '}' {
            TokenType::RightCurlyBracket
        } else if current_char == '.' {
            TokenType::Period
        } else {
            TokenType::Colon
        };
        let mut lexeme = String::new();
        push_char(&mut lexeme, current_char);
        proof {
            assert(lexeme@ =~= seq![current_char]);
        }
        Token::new(type_of_token, lexeme)
    }

    /// Consumes one or two operator symbols and maps them through the
    /// operator tables; `None` when the symbols have no table entry.
    fn consume_operator(&mut self) -> (r: Option<Token>)
        requires
            old(self).wf(),
            old(self).pos() < old(self).text().len(),
            spec_is_operator(old(self).text()[old(self).pos() as int]),
        ensures
            final(self).wf(),
            final(self).text() == old(self).text(),
            old(self).pos() <= final(self).pos(),
            match r {
                Option::None => spec_next(old(self).text(), old(self).pos()) is Stuck,
                Option::Some(t) => spec_next(old(self).text(), old(self).pos())
                    == ScanStep::Emit(t@, final(self).pos()),
            },
    {
        let current_char = self.input[self.position];
        self.position = self.position + 1;
        let mut lexeme = String::new();
        push_char(&mut lexeme, current_char);
        if self.position < self.input.len() && is_operator(self.input[self.position]) {
            let next_char = self.input[self.position];
            self.position = self.position + 1;
            push_char(&mut lexeme, next_char);
            proof {
                assert(lexeme@ =~= seq![current_char, next_char]);
            }
            let kind = if current_char == '&' && next_char == '&' {
                Some(TokenType::LogicalAnd)
            } else if current_char == '|' && next_char == '|' {
                Some(TokenType::LogicalOr)
            } else if current_char == '=' && next_char == '=' {
                Some(TokenType::EqualTo)
            } else if current_char == '!' && next_char == '=' {
                Some(TokenType::NotEqualTo)
            } else if current_char == '<' && next_char == '=' {
                Some(TokenType::LessThanOrEqualTo)
            } else if current_char == '>' && next_char == '=' {
                Some(TokenType::GreaterThanOrEqualTo)
            } else if current_char == '+' && next_char == '=' {
                Some(TokenType::AddAndAssign)
            } else if current_char == '-' && next_char == '=' {
                Some(TokenType::SubtractAndAssign)
            } else if current_char == '*' && next_char == '=' {
                Some(TokenType::MultiplyAndAssign)
            } else if current_char == '/' && next_char == '=' {
                Some(TokenType::DivideAndAssign)
            } else if current_char == '%' && next_char == '=' {
                Some(TokenType::ModulusAndAssign)
            } else {
                None
            };
            match kind {
                Some(type_of_token) => Some(Token::new(type_of_token, lexeme)),
                None => None,
            }
        } else {
            proof {
                assert(lexeme@ =~= seq![current_char]);
            }
            let kind = if current_char == '+' {
                Some(TokenType::Addition)
            } else if current_char == '-' {
                Some(TokenType::Subtraction)
            } else if current_char == '*' {
                Some(TokenType::Multiplication)
            } else if current_char == '/' {
                Some(TokenType::Division)
            } else if current_char == '%' {
                Some(TokenType::Modulus)
            } else if current_char == '!' {
                Some(TokenType::LogicalNot)
            } else if current_char == '=' {
                Some(TokenType::Assignment)
            } else if current_char == '<' {
                Some(TokenType::LessThan)
            } else if current_char == '>' {
                Some(TokenType::GreaterThan)
            } else {
                None
            };
            match kind {
                Some(type_of_token) => Some(Token::new(type_of_token, lexeme)),
                None => None,
            }
        }
    }

    /// Consumes a character literal: an opening `'`, exactly one character
    /// as the lexeme, and a validated closing `'`. `None` when the input
    /// ends too early or the closing quote is missing.
    fn consume_char(&mut self) -> (r: Option<Token>)
        requires
            old(self).wf(),
            old(self).pos() < old(self).text().len(),
            spec_is_char_quote(old(self).text()[old(self).pos() as int]),
        ensures
            final(self).wf(),
            final(self).text() == old(self).text(),
            old(self).pos() <= final(self).pos(),
            match r {
                Option::None => spec_next(old(self).text(), old(self).pos()) is Stuck,
                Option::Some(t) => spec_next(old(self).text(), old(self).pos())
                    == ScanStep::Emit(t@, final(self).pos()),
            },
    {
        if self.input.len() - self.position <= 2 {
            return None;
        }
        let character = self.input[self.position + 1];
        let closing = self.input[self.position + 2];
        if closing != '\'' {
            return None;
        }
        self.position = self.position + 3;
        let mut lexeme = String::new();
        push_char(&mut lexeme, character);
        proof {
            assert(lexeme@ =~= seq![character]);
        }
        Some(Token::new(TokenType::CharacterLiteral, lexeme))
    }

    /// Consumes a string literal: everything between the opening `"` and the
    /// first closing `"`, which is consumed but kept out of the lexeme.
    /// `None` when the input ends before a closing quote.
    fn consume_string(&mut self) -> (r: Option<Token>)
        requires
            old(self).wf(),
            old(self).pos() < old(self).text().len(),
            spec_is_string_quote(old(self).text()[old(self).pos() as int]),
        ensures
            final(self).wf(),
            final(self).text() == old(self).text(),
            old(self).pos() <= final(self).pos(),
            match r {
                Option::None => spec_next(old(self).text(), old(self).pos()) is Stuck,
                Option::Some(t) => spec_next(old(self).text(), old(self).pos())
                    == ScanStep::Emit(t@, final(self).pos()),
            },
    {
        let ghost s = self.text();
        let ghost start = (self.pos() + 1) as nat;
        self.position = self.position + 1;
        let mut lexeme = String::new();
        proof {
            lemma_close_quote(s, start);
        }
        #[verifier::loop_isolation(false)]
        loop
            invariant
                self.wf(),
                self.text() == s,
                start <= self.pos() <= s.len(),
                close_quote(s, start) == close_quote(s, self.pos()),
                lexeme@ == s.subrange(start as int, self.pos() as int),
            decreases s.len() - self.pos(),
        {
            if self.position >= self.input.len() {
                return None;
            }
            let c = self.input[self.position];
            if c == '"' {
                self.position = self.position + 1;
                return Some(Token::new(TokenType::StringLiteral, lexeme));
            }
            push_char(&mut lexeme, c);
            self.position = self.position + 1;
            proof {
                assert(close_quote(s, (self.pos() - 1) as nat) == close_quote(s, self.pos()));
                assert(lexeme@ =~= s.subrange(start as int, self.pos() as int));
            }
        }
    }

    /// Consumes a number literal: a maximal run of digits and decimal
    /// points. The token is floating when a point occurred, integral
    /// otherwise.
    fn consume_number(&mut self) -> (t: Token)
        requires
            old(self).wf(),
            old(self).pos() < old(self).text().len(),
            spec_is_digit(old(self).text()[old(self).pos() as int]),
        ensures
            final(self).wf(),
            final(self).text() == old(self).text(),
            old(self).pos() <= final(self).pos(),
            spec_next(old(self).text(), old(self).pos()) == ScanStep::Emit(t@, final(self).pos()),
    {
        let ghost s = self.text();
        let ghost start = self.pos();
        proof {
            lemma_num_end(s, start);
        }
        let mut is_float = false;
        let mut lexeme = String::new();
        loop
            invariant
                self.wf(),
                self.text() == s,
                start <= self.pos() <= s.len(),
                num_end(s, start) == num_end(s, self.pos()),
                lexeme@ == s.subrange(start as int, self.pos() as int),
                is_float == has_dot(s, start as int, self.pos() as int),
            ensures
                self.wf(),
                self.text() == s,
                start <= self.pos() <= s.len(),
                self.pos() == num_end(s, start),
                lexeme@ == s.subrange(start as int, self.pos() as int),
                is_float == has_dot(s, start as int, self.pos() as int),
            decreases s.len() - self.pos(),
        {
            if self.position >= self.input.len() {
                break;
            }
            let c = self.input[self.position];
            if !(is_number(c) || c == '.') {
                break;
            }
            if c == '.' {
                is_float = true;
            }
            push_char(&mut lexeme, c);
            self.position = self.position + 1;
            proof {
                assert(num_end(s, (self.pos() - 1) as nat) == num_end(s, self.pos()));
                assert(lexeme@ =~= s.subrange(start as int, self.pos() as int));
                if c == '.' {
                    assert(s[self.pos() - 1] == '.');
                    assert(has_dot(s, start as int, self.pos() as int));
                } else {
                    assert(is_float == has_dot(s, start as int, self.pos() as int));
                }
            }
        }
        let type_of_token = if is_float {
            TokenType::FloatingLiteral
        } else {
            TokenType::IntegerLiteral
        };
        Token::new(type_of_token, lexeme)
    }

    /// Consumes a word: a maximal run of characters that are neither
    /// whitespace nor separators, then classifies it as a keyword, a boolean
    /// or null literal, or an identifier.
    fn consume_letter(&mut self) -> (t: Token)
        requires
            old(self).wf(),
            old(self).pos() < old(self).text().len(),
            spec_is_letter(old(self).text()[old(self).pos() as int]),
        ensures
            final(self).wf(),
            final(self).text() == old(self).text(),
            old(self).pos() <= final(self).pos(),
            spec_next(old(self).text(), old(self).pos()) == ScanStep::Emit(t@, final(self).pos()),
    {
        let ghost s = self.text();
        let ghost start = self.pos();
        proof {
            lemma_word_end(s, start);
        }
        let mut lexeme = String::new();
        loop
            invariant
                self.wf(),
                self.text() == s,
                start <= self.pos() <= s.len(),
                word_end(s, start) == word_end(s, self.pos()),
                lexeme@ == s.subrange(start as int, self.pos() as int),
            ensures
                self.wf(),
                self.text() == s,
                start <= self.pos() <= s.len(),
                self.pos() == word_end(s, start),
                lexeme@ == s.subrange(start as int, self.pos() as int),
            decreases s.len() - self.pos(),
        {
            if self.position >= self.input.len() {
                break;
            }
            let c = self.input[self.position];
            if is_whitespace(c) {
                break;
            }
            if is_separator(c) {
                break;
            }
            push_char(&mut lexeme, c);
            self.position = self.position + 1;
            proof {
                assert(word_end(s, (self.pos() - 1) as nat) == word_end(s, self.pos()));
                assert(lexeme@ =~= s.subrange(start as int, self.pos() as int));
            }
        }
        if is_keyword(lexeme.clone()) {
            return self.consume_keyword(lexeme);
        }
        if lexeme == String::from_str("true") || lexeme == String::from_str("false") {
            return Token::new(TokenType::BooleanLiteral, lexeme);
        }
        if lexeme == String::from_str("null") {
            return Token::new(TokenType::NullLiteral, lexeme);
        }
        Token::new(TokenType::Identifier, lexeme)
    }

    /// Maps a word already known to be a reserved keyword through the
    /// keyword table.
    fn consume_keyword(&mut self, keyword: String) -> (t: Token)
        requires
            spec_is_keyword(keyword@),
        ensures
            *final(self) == *old(self),
            t@ == (SpecToken { kind: keyword_kind(keyword@), text: keyword@ }),
    {
        let type_of_token = if keyword == String::from_str("if") {
            TokenType::If
        } else if keyword == String::from_str("else") {
            TokenType::Else
        } else if keyword == String::from_str("while") {
            TokenType::While
        } else if keyword == String::from_str("int") {
            TokenType::Int
        } else if keyword == String::from_str("float") {
            TokenType::Float
        } else if keyword == String::from_str("bool") {
            TokenType::Bool
        } else if keyword == String::from_str("char") {
            TokenType::Character
        } else if keyword == String::from_str("string") {
            TokenType::String
        } else if keyword == String::from_str("fun") {
            TokenType::Function
        } else if keyword == String::from_str("return") {
            TokenType::Return
        } else {
            TokenType::Void
        };
        Token::new(type_of_token, keyword)
    }

    /// Skips whitespace and consumes the next token. Produces the
    /// end-of-input token at the end of the text, and `None` exactly when
    /// the scanner gets stuck on a fatal flaw at the next token.
    fn get_next_token(&mut self) -> (r: Option<Token>)
        requires
            old(self).wf(),
        ensures
            final(self).wf(),
            final(self).text() == old(self).text(),
            old(self).pos() <= final(self).pos() <= final(self).text().len(),
            ({
                let s = old(self).text();
                let w = ws_end(s, old(self).pos());
                match r {
                    Option::None => w < s.len() && spec_next(s, w) is Stuck,
                    Option::Some(t) => {
                        &&& (w >= s.len() ==> t@ == eof_token() && final(self).pos() == s.len())
                        &&& (w < s.len() ==> spec_next(s, w) == ScanStep::Emit(
                            t@,
                            final(self).pos(),
                        ) && t@.kind != TokenType::EOF)
                    },
                }
            }),
    {
        let ghost s = self.text();
        let ghost start = self.pos();
        #[verifier::loop_isolation(false)]
        while self.position < self.input.len() && is_whitespace(self.input[self.position])
            invariant
                self.wf(),
                self.text() == s,
                start <= self.pos() <= s.len(),
                ws_end(s, start) == ws_end(s, self.pos()),
            decreases s.len() - self.pos(),
        {
            proof {
                assert(ws_end(s, self.pos()) == ws_end(s, (self.pos() + 1) as nat));
            }
            self.skip_whitespace();
        }
        proof {
            assert(ws_end(s, self.pos()) == self.pos());
        }
        if self.position >= self.input.len() {
            return Some(Token::new(TokenType::EOF, String::from_str("EOF")));
        }
        let c = self.input[self.position];
        if is_beginning_of_string(c) {
            self.consume_string()
        } else if is_beginning_of_char(c) {
            self.consume_char()
        } else if is_number(c) {
            Some(self.consume_number())
        } else if is_letter(c) {
            Some(self.consume_letter())
        } else if is_separator(c) {
            Some(self.consume_separator())
        } else if is_operator(c) {
            self.consume_operator()
        } else {
            let token = Token::new(TokenType::Illegal, String::from_str("Illegal"));
            self.position = self.position + 1;
            Some(token)
        }
    }

    /// Scans the whole input once, keeping nothing, and reports whether the
    /// scan runs to the end without a fatal flaw.
    fn scan_succeeds(&mut self) -> (b: bool)
        ensures
            final(self).wf(),
            final(self).text() == old(self).text(),
            b == spec_lexable(old(self).text()),
    {
        let ghost s = self.text();
        self.position = 0;
        #[verifier::loop_isolation(false)]
        loop
            invariant
                self.wf(),
                self.text() == s,
                self.pos() <= s.len(),
                spec_scan(s, 0) is Some <==> spec_scan(s, self.pos()) is Some,
            decreases s.len() - self.pos(),
        {
            let ghost p = self.pos();
            let r = self.get_next_token();
            proof {
                lemma_ws_end(s, p);
                lemma_scan_skips_whitespace(s, p);
                if ws_end(s, p) < s.len() {
                    lemma_next_bounds(s, ws_end(s, p));
                }
            }
            match r {
                Option::None => {
                    return false;
                },
                Option::Some(t) => {
                    if t.token_type == TokenType::EOF {
                        return true;
                    }
                },
            }
        }
    }

    /// Tokenizes the input unless it holds a fatal flaw — an unterminated
    /// string or character literal, or a run of operator symbols with no
    /// table entry — and returns `None` exactly in that case.
    pub fn try_tokenize(&mut self) -> (r: Option<Vec<Token>>)
        ensures
            final(self).text() == old(self).text(),
            r is Some <==> spec_lexable(old(self).text()),
            (r matches Some(tokens) ==> token_views(tokens@) == spec_token_seq(
                old(self).text(),
            )),
    {
        if self.scan_succeeds() {
            Some(self.tokenize())
        } else {
            None
        }
    }
}

impl Tokenizer for Lexer {
    closed spec fn text(&self) -> Seq<char> {
        self.input@
    }

    fn tokenize(&mut self) -> (tokens: Vec<Token>) {
        let ghost s = self.text();
        self.position = 0;
        let mut tokens: Vec<Token> = Vec::new();
        loop
            invariant_except_break
                self.wf(),
                self.text() == s,
                spec_scan(s, self.pos()) is Some,
                token_views(tokens@) + spec_scan(s, self.pos()).unwrap() == spec_token_seq(s),
            ensures
                self.text() == s,
                token_views(tokens@) == spec_token_seq(s),
            decreases s.len() - self.pos(),
        {
            let ghost p = self.pos();
            let ghost prev = tokens@;
            let r = self.get_next_token();
            proof {
                lemma_ws_end(s, p);
                lemma_scan_skips_whitespace(s, p);
                if ws_end(s, p) < s.len() {
                    lemma_next_bounds(s, ws_end(s, p));
                }
            }
            let token = match r {
                Option::Some(t) => t,
                Option::None => unreached(),
            };
            let is_eof = token.token_type == TokenType::EOF;
            tokens.push(token);
            proof {
                assert(token_views(tokens@) =~= token_views(prev) + seq![token@]);
            }
            if is_eof {
                break;
            }
        }
        tokens
    }
}

} // verus!
