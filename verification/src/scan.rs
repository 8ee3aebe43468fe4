//! The mathematical scanner: a recursive specification of maximal-munch
//! tokenization over a sequence of characters. The executable scanner in
//! `lexer` is proved to return exactly what `spec_scan` names.

use vstd::prelude::*;
use crate::token::{SpecToken, TokenType};
use crate::util::{
    one_char_operator_kind, separator_kind, spec_is_char_quote, spec_is_digit, spec_is_letter,
    spec_is_operator, spec_is_separator, spec_is_string_quote, spec_is_whitespace,
    two_char_operator_kind, word_kind,
};

verus! {

/// A character that a word may contain: anything that is neither whitespace
/// nor a separator.
pub open spec fn spec_is_word_char(c: char) -> bool {
    !spec_is_whitespace(c) && !spec_is_separator(c)
}

/// A character that a number literal may contain: a digit or a decimal point.
pub open spec fn spec_is_num_char(c: char) -> bool {
    spec_is_digit(c) || c == '.'
}

/// The first index at or after `i` whose character ends a word (or the length
/// of `s` when the word runs to the end of the input).
pub open spec fn word_end(s: Seq<char>, i: nat) -> nat
    decreases s.len() - i
        when i <= s.len()
{
    if i >= s.len() {
        i
    } else if spec_is_word_char(s[i as int]) {
        word_end(s, (i + 1) as nat)
    } else {
        i
    }
}

/// The first index at or after `i` whose character ends a number literal (or
/// the length of `s`).
pub open spec fn num_end(s: Seq<char>, i: nat) -> nat
    decreases s.len() - i
        when i <= s.len()
{
    if i >= s.len() {
        i
    } else if spec_is_num_char(s[i as int]) {
        num_end(s, (i + 1) as nat)
    } else {
        i
    }
}

/// The first index at or after `i` that is not whitespace (or the length of
/// `s`).
pub open spec fn ws_end(s: Seq<char>, i: nat) -> nat
    decreases s.len() - i
        when i <= s.len()
{
    if i >= s.len() {
        i
    } else if spec_is_whitespace(s[i as int]) {
        ws_end(s, (i + 1) as nat)
    } else {
        i
    }
}

/// The index of the first `"` at or after `i`, if any.
pub open spec fn close_quote(s: Seq<char>, i: nat) -> Option<nat>
    decreases s.len() - i
        when i <= s.len()
{
    if i >= s.len() {
        None
    } else if spec_is_string_quote(s[i as int]) {
        Some(i)
    } else {
        close_quote(s, (i + 1) as nat)
    }
}

/// Whether some character of `s` in `[from, to)` is a decimal point.
pub open spec fn has_dot(s: Seq<char>, from: int, to: int) -> bool {
    exists|k: int| from <= k < to && s[k] == '.'
}

/// The token of the end of the input.
pub open spec fn eof_token() -> SpecToken {
    SpecToken { kind: TokenType::EOF, text: "EOF"@ }
}

/// The token of a character no rule recognises.
pub open spec fn illegal_token() -> SpecToken {
    SpecToken { kind: TokenType::Illegal, text: "Illegal"@ }
}

/// One step of the scanner at a position strictly inside the input: skip a
/// whitespace character, emit a token and move past it, or get stuck on a
/// fatal flaw (an unterminated string or character literal, or a pair of
/// operator symbols with no table entry).
pub enum ScanStep {
    Skip(nat),
    Emit(SpecToken, nat),
    Stuck,
}

/// What the scanner does at position `i` of `s`, dispatching on the character
/// there in the scanner's fixed precedence order: whitespace, string quote,
/// character quote, digit, letter, separator, operator symbol, and otherwise
/// an illegal character.
pub open spec fn spec_next(s: Seq<char>, i: nat) -> ScanStep
    recommends
        i < s.len(),
{
    let c = s[i as int];
    if spec_is_whitespace(c) {
        ScanStep::Skip((i + 1) as nat)
    } else if spec_is_string_quote(c) {
        match close_quote(s, (i + 1) as nat) {
            Some(j) => ScanStep::Emit(
                SpecToken { kind: TokenType::StringLiteral, text: s.subrange(i + 1 as int, j as int) },
                (j + 1) as nat,
            ),
            None => ScanStep::Stuck,
        }
    } else if spec_is_char_quote(c) {
        if i + 2 < s.len() && spec_is_char_quote(s[i + 2 as int]) {
            ScanStep::Emit(
                SpecToken { kind: TokenType::CharacterLiteral, text: seq![s[i + 1 as int]] },
                (i + 3) as nat,
            )
        } else {
            ScanStep::Stuck
        }
    } else if spec_is_digit(c) {
        let j = num_end(s, i);
        ScanStep::Emit(
            SpecToken {
                kind: if has_dot(s, i as int, j as int) {
                    TokenType::FloatingLiteral
                } else {
                    TokenType::IntegerLiteral
                },
                text: s.subrange(i as int, j as int),
            },
            j,
        )
    } else if spec_is_letter(c) {
        let j = word_end(s, i);
        ScanStep::Emit(
            SpecToken { kind: word_kind(s.subrange(i as int, j as int)), text: s.subrange(i as int, j as int) },
            j,
        )
    } else if spec_is_separator(c) {
        ScanStep::Emit(SpecToken { kind: separator_kind(c), text: seq![c] }, (i + 1) as nat)
    } else if spec_is_operator(c) {
        if i + 1 < s.len() && spec_is_operator(s[i + 1 as int]) {
            match two_char_operator_kind(c, s[i + 1 as int]) {
                Some(kind) => ScanStep::Emit(
                    SpecToken { kind, text: seq![c, s[i + 1 as int]] },
                    (i + 2) as nat,
                ),
                None => ScanStep::Stuck,
            }
        } else {
            match one_char_operator_kind(c) {
                Some(kind) => ScanStep::Emit(SpecToken { kind, text: seq![c] }, (i + 1) as nat),
                None => ScanStep::Stuck,
            }
        }
    } else {
        ScanStep::Emit(illegal_token(), (i + 1) as nat)
    }
}

/// The whole token sequence that scanning `s` from position `i` yields:
/// `None` when a step gets stuck, otherwise the emitted tokens in order,
/// closed by exactly one end-of-input token.
pub open spec fn spec_scan(s: Seq<char>, i: nat) -> Option<Seq<SpecToken>>
    decreases s.len() - i
        when i <= s.len()
        via spec_scan_decreases
{
    if i >= s.len() {
        Some(seq![eof_token()])
    } else {
        match spec_next(s, i) {
            ScanStep::Skip(j) => spec_scan(s, j),
            ScanStep::Emit(t, j) => match spec_scan(s, j) {
                Some(rest) => Some(seq![t] + rest),
                None => None,
            },
            ScanStep::Stuck => None,
        }
    }
}

/// Whether the whole of `s` scans without a fatal flaw.
pub open spec fn spec_lexable(s: Seq<char>) -> bool {
    spec_scan(s, 0) is Some
}

/// The token sequence of a lexable input.
pub open spec fn spec_token_seq(s: Seq<char>) -> Seq<SpecToken> {
    spec_scan(s, 0).unwrap()
}

#[via_fn]
proof fn spec_scan_decreases(s: Seq<char>, i: nat) {
    if i < s.len() {
        lemma_next_bounds(s, i);
    }
}

/// Bounds of `word_end`: it stays inside the input, every character it
/// passes over is a word character, the character it stops on (if any) is
/// not, and it moves at least one step when it starts on a word character.
pub proof fn lemma_word_end(s: Seq<char>, i: nat)
    requires
        i <= s.len(),
    ensures
        i <= word_end(s, i) <= s.len(),
        forall|k: int| i <= k < word_end(s, i) ==> spec_is_word_char(s[k]),
        word_end(s, i) < s.len() ==> !spec_is_word_char(s[word_end(s, i) as int]),
        i < s.len() && spec_is_word_char(s[i as int]) ==> word_end(s, i) > i,
    decreases s.len() - i,
{
    if i < s.len() && spec_is_word_char(s[i as int]) {
        lemma_word_end(s, (i + 1) as nat);
    }
}

/// Bounds of `num_end`, in the same shape as `lemma_word_end`.
pub proof fn lemma_num_end(s: Seq<char>, i: nat)
    requires
        i <= s.len(),
    ensures
        i <= num_end(s, i) <= s.len(),
        forall|k: int| i <= k < num_end(s, i) ==> spec_is_num_char(s[k]),
        num_end(s, i) < s.len() ==> !spec_is_num_char(s[num_end(s, i) as int]),
        i < s.len() && spec_is_num_char(s[i as int]) ==> num_end(s, i) > i,
    decreases s.len() - i,
{
    if i < s.len() && spec_is_num_char(s[i as int]) {
        lemma_num_end(s, (i + 1) as nat);
    }
}

/// Bounds of `ws_end`, in the same shape as `lemma_word_end`.
pub proof fn lemma_ws_end(s: Seq<char>, i: nat)
    requires
        i <= s.len(),
    ensures
        i <= ws_end(s, i) <= s.len(),
        forall|k: int| i <= k < ws_end(s, i) ==> spec_is_whitespace(s[k]),
        ws_end(s, i) < s.len() ==> !spec_is_whitespace(s[ws_end(s, i) as int]),
    decreases s.len() - i,
{
    if i < s.len() && spec_is_whitespace(s[i as int]) {
        lemma_ws_end(s, (i + 1) as nat);
    }
}

/// Bounds of `close_quote`: a found index is the first `"` at or after `i`,
/// and `None` means there is none at all.
pub proof fn lemma_close_quote(s: Seq<char>, i: nat)
    requires
        i <= s.len(),
    ensures
        close_quote(s, i) matches Some(j) ==> i <= j < s.len() && s[j as int] == '"' && forall|
            k: int,
        | i <= k < j ==> s[k] != '"',
        close_quote(s, i) is None ==> forall|k: int| i <= k < s.len() ==> s[k] != '"',
    decreases s.len() - i,
{
    if i < s.len() && !spec_is_string_quote(s[i as int]) {
        lemma_close_quote(s, (i + 1) as nat);
    }
}

/// A step that skips or emits always moves the position forward, and never
/// past the end of the input.
pub proof fn lemma_next_bounds(s: Seq<char>, i: nat)
    requires
        i < s.len(),
    ensures
        spec_next(s, i) matches ScanStep::Skip(j) ==> i < j <= s.len(),
        spec_next(s, i) matches ScanStep::Emit(t, j) ==> i < j <= s.len(),
{
    let c = s[i as int];
    if spec_is_whitespace(c) {
    } else if spec_is_string_quote(c) {
        lemma_close_quote(s, (i + 1) as nat);
    } else if spec_is_char_quote(c) {
    } else if spec_is_digit(c) {
        lemma_num_end(s, i);
    } else if spec_is_letter(c) {
        lemma_word_end(s, i);
        assert(spec_is_word_char(c));
    } else {
    }
}

/// Skipping whitespace does not change what the scan yields.
pub proof fn lemma_scan_skips_whitespace(s: Seq<char>, i: nat)
    requires
        i <= s.len(),
    ensures
        spec_scan(s, i) == spec_scan(s, ws_end(s, i)),
    decreases s.len() - i,
{
    if i < s.len() && spec_is_whitespace(s[i as int]) {
        lemma_scan_skips_whitespace(s, (i + 1) as nat);
    }
}

} // verus!
