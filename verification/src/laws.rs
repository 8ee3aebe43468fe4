//! General laws of the scanner, proved once and for all inputs: what it
//! yields on all-whitespace input, on a lone keyword, on a run of digits, on
//! a bare operator, and the shape every token sequence has.

use vstd::prelude::*;
use crate::scan::{
    eof_token, has_dot, lemma_next_bounds, num_end, spec_is_num_char, spec_is_word_char,
    spec_lexable, spec_next, spec_scan, spec_token_seq, word_end, ScanStep,
};
use crate::token::{SpecToken, TokenType};
use crate::util::{
    keyword_kind, one_char_operator_kind, spec_is_digit, spec_is_keyword, spec_is_letter,
    spec_is_whitespace, two_char_operator_kind, word_kind,
};

verus! {

proof fn lemma_scan_all_whitespace(s: Seq<char>, i: nat)
    requires
        i <= s.len(),
        forall|k: int| i <= k < s.len() ==> spec_is_whitespace(s[k]),
    ensures
        spec_scan(s, i) == Some(seq![eof_token()]),
    decreases s.len() - i,
{
    if i < s.len() {
        lemma_scan_all_whitespace(s, (i + 1) as nat);
    }
}

/// On input consisting solely of whitespace the scan succeeds and yields
/// exactly the end-of-input token.
pub proof fn lemma_whitespace_only(s: Seq<char>)
    requires
        forall|k: int| 0 <= k < s.len() ==> spec_is_whitespace(s[k]),
    ensures
        spec_lexable(s),
        spec_token_seq(s) == seq![eof_token()],
{
    lemma_scan_all_whitespace(s, 0);
}

proof fn lemma_word_end_full(s: Seq<char>, i: nat)
    requires
        i <= s.len(),
        forall|k: int| i <= k < s.len() ==> spec_is_word_char(s[k]),
    ensures
        word_end(s, i) == s.len(),
    decreases s.len() - i,
{
    if i < s.len() {
        lemma_word_end_full(s, (i + 1) as nat);
    }
}

proof fn lemma_num_end_full(s: Seq<char>, i: nat)
    requires
        i <= s.len(),
        forall|k: int| i <= k < s.len() ==> spec_is_num_char(s[k]),
    ensures
        num_end(s, i) == s.len(),
    decreases s.len() - i,
{
    if i < s.len() {
        lemma_num_end_full(s, (i + 1) as nat);
    }
}

proof fn lemma_single_word(s: Seq<char>)
    requires
        s.len() > 0,
        spec_is_letter(s[0]),
        forall|k: int| 0 <= k < s.len() ==> spec_is_word_char(s[k]),
    ensures
        spec_lexable(s),
        spec_token_seq(s) == seq![SpecToken { kind: word_kind(s), text: s }, eof_token()],
{
    lemma_word_end_full(s, 0);
    assert(s.subrange(0, s.len() as int) =~= s);
    assert(spec_scan(s, s.len() as nat) == Some(seq![eof_token()]));
    assert(spec_token_seq(s) =~= seq![SpecToken { kind: word_kind(s), text: s }, eof_token()]);
}

/// On input equal to one reserved keyword the scan succeeds, its first token
/// carries that keyword's kind with the whole input as its lexeme, and only
/// the end-of-input token follows.
pub proof fn lemma_keyword_input(s: Seq<char>)
    requires
        spec_is_keyword(s),
    ensures
        spec_lexable(s),
        spec_token_seq(s) == seq![SpecToken { kind: keyword_kind(s), text: s }, eof_token()],
{
    reveal_strlit("if");
    reveal_strlit("else");
    reveal_strlit("while");
    reveal_strlit("int");
    reveal_strlit("float");
    reveal_strlit("bool");
    reveal_strlit("char");
    reveal_strlit("string");
    reveal_strlit("fun");
    reveal_strlit("return");
    reveal_strlit("void");
    assert(spec_is_letter(s[0]));
    assert(forall|k: int| 0 <= k < s.len() ==> spec_is_word_char(s[k]));
    lemma_single_word(s);
}

/// On input that is a run of digits holding at most one decimal point the
/// scan succeeds and its first token covers the whole run: floating when a
/// point is present, integral otherwise. (The run must open with a digit: on
/// an input such as a bare point the first character is read as the
/// separator `Period` instead.)
pub proof fn lemma_number_run(s: Seq<char>)
    requires
        s.len() > 0,
        spec_is_digit(s[0]),
        forall|k: int| 0 <= k < s.len() ==> spec_is_num_char(s[k]),
        s.filter(|c: char| c == '.').len() <= 1,
    ensures
        spec_lexable(s),
        spec_token_seq(s) == seq![
            SpecToken {
                kind: if has_dot(s, 0, s.len() as int) {
                    TokenType::FloatingLiteral
                } else {
                    TokenType::IntegerLiteral
                },
                text: s,
            },
            eof_token(),
        ],
{
    lemma_num_end_full(s, 0);
    assert(s.subrange(0, s.len() as int) =~= s);
    assert(spec_scan(s, s.len() as nat) == Some(seq![eof_token()]));
    assert(spec_token_seq(s) =~= seq![
        SpecToken {
            kind: if has_dot(s, 0, s.len() as int) {
                TokenType::FloatingLiteral
            } else {
                TokenType::IntegerLiteral
            },
            text: s,
        },
        eof_token(),
    ]);
}

/// On input that is exactly one entry of the two-character operator table
/// the scan succeeds and yields that entry's token, with the pair as its
/// lexeme, before the end-of-input token.
pub proof fn lemma_two_char_operator_input(c1: char, c2: char)
    requires
        two_char_operator_kind(c1, c2) is Some,
    ensures
        spec_lexable(seq![c1, c2]),
        spec_token_seq(seq![c1, c2]) == seq![
            SpecToken { kind: two_char_operator_kind(c1, c2).unwrap(), text: seq![c1, c2] },
            eof_token(),
        ],
{
    let s = seq![c1, c2];
    assert(spec_scan(s, 2) == Some(seq![eof_token()]));
    assert(spec_next(s, 0) == ScanStep::Emit(
        SpecToken { kind: two_char_operator_kind(c1, c2).unwrap(), text: seq![c1, c2] },
        2nat,
    ));
    assert(spec_token_seq(s) =~= seq![
        SpecToken { kind: two_char_operator_kind(c1, c2).unwrap(), text: seq![c1, c2] },
        eof_token(),
    ]);
}

/// On input that is exactly one entry of the one-character operator table
/// the scan succeeds and yields that entry's token before the end-of-input
/// token.
pub proof fn lemma_one_char_operator_input(c: char)
    requires
        one_char_operator_kind(c) is Some,
    ensures
        spec_lexable(seq![c]),
        spec_token_seq(seq![c]) == seq![
            SpecToken { kind: one_char_operator_kind(c).unwrap(), text: seq![c] },
            eof_token(),
        ],
{
    let s = seq![c];
    assert(spec_scan(s, 1) == Some(seq![eof_token()]));
    assert(spec_next(s, 0) == ScanStep::Emit(
        SpecToken { kind: one_char_operator_kind(c).unwrap(), text: seq![c] },
        1nat,
    ));
    assert(spec_token_seq(s) =~= seq![
        SpecToken { kind: one_char_operator_kind(c).unwrap(), text: seq![c] },
        eof_token(),
    ]);
}

/// Every classifier predicate is pure: its contract fixes its result as a
/// function of the character alone, so any two results it gives for the same
/// character agree.
pub proof fn lemma_classifier_pure(p: spec_fn(char) -> bool, c: char, r1: bool, r2: bool)
    requires
        r1 == p(c),
        r2 == p(c),
    ensures
        r1 == r2,
{
}

proof fn lemma_emit_kind_not_eof(s: Seq<char>, i: nat)
    requires
        i < s.len(),
    ensures
        spec_next(s, i) matches ScanStep::Emit(t, j) ==> t.kind != TokenType::EOF,
{
}

proof fn lemma_scan_shape(s: Seq<char>, i: nat)
    requires
        i <= s.len(),
        spec_scan(s, i) is Some,
    ensures
        ({
            let toks = spec_scan(s, i).unwrap();
            &&& toks.len() > 0
            &&& toks[toks.len() - 1] == eof_token()
            &&& forall|k: int| 0 <= k < toks.len() - 1 ==> toks[k].kind != TokenType::EOF
        }),
    decreases s.len() - i,
{
    if i < s.len() {
        lemma_next_bounds(s, i);
        match spec_next(s, i) {
            ScanStep::Skip(j) => {
                lemma_scan_shape(s, j);
            },
            ScanStep::Emit(t, j) => {
                lemma_emit_kind_not_eof(s, i);
                lemma_scan_shape(s, j);
            },
            ScanStep::Stuck => {},
        }
    }
}

/// Every token sequence the scan yields is non-empty, its last element is
/// the end-of-input token, and no earlier element has that kind.
pub proof fn lemma_tokens_end_with_eof(s: Seq<char>)
    requires
        spec_lexable(s),
    ensures
        ({
            let toks = spec_token_seq(s);
            &&& toks.len() > 0
            &&& toks[toks.len() - 1].kind == TokenType::EOF
            &&& forall|k: int| 0 <= k < toks.len() - 1 ==> toks[k].kind != TokenType::EOF
        }),
{
    lemma_scan_shape(s, 0);
}

} // verus!
