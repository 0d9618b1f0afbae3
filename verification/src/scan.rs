//! The mathematical model of the scanner: what token stands at each
//! cursor position of a source text, and where the cursor lands after it.

use vstd::prelude::*;
use crate::token::{
    TokenModel, ident_token, is_op_start, is_punct_char, one_char_op_token, punct_token,
    two_char_op_token,
};

verus! {

/// The character under the cursor, with `'\0'` as the sentinel for
/// end-of-input.
pub open spec fn char_at(s: Seq<char>, p: int) -> char {
    if 0 <= p < s.len() {
        s[p]
    } else {
        '\0'
    }
}

/// Ordinary whitespace: space and tab only.  Newline is semantically
/// significant and is never skipped as whitespace.
pub open spec fn is_ws_char(c: char) -> bool {
    c == ' ' || c == '\t'
}

/// Characters that may appear in an identifier: ASCII letters and `_`.
pub open spec fn is_letter_char(c: char) -> bool {
    ||| 'a' as u32 <= c as u32 <= 'z' as u32
    ||| 'A' as u32 <= c as u32 <= 'Z' as u32
    ||| c == '_'
}

/// ASCII decimal digits.
pub open spec fn is_digit_char(c: char) -> bool {
    '0' as u32 <= c as u32 <= '9' as u32
}

/// The position of the first non-whitespace character at or after `p`.
pub open spec fn skip_ws(s: Seq<char>, p: int) -> int
    decreases s.len() - p,
{
    if 0 <= p < s.len() && is_ws_char(s[p]) {
        skip_ws(s, p + 1)
    } else {
        p
    }
}

/// The end of the letter/underscore run starting at `p`.
pub open spec fn letter_run_end(s: Seq<char>, p: int) -> int
    decreases s.len() - p,
{
    if 0 <= p < s.len() && is_letter_char(s[p]) {
        letter_run_end(s, p + 1)
    } else {
        p
    }
}

/// The end of the digit run starting at `p`.
pub open spec fn digit_run_end(s: Seq<char>, p: int) -> int
    decreases s.len() - p,
{
    if 0 <= p < s.len() && is_digit_char(s[p]) {
        digit_run_end(s, p + 1)
    } else {
        p
    }
}

/// The end of a string literal's body starting at `p`: the position of
/// the closing quote, or end-of-input if the literal is unterminated.
pub open spec fn string_run_end(s: Seq<char>, p: int) -> int
    decreases s.len() - p,
{
    if 0 <= p < s.len() && s[p] != '"' {
        string_run_end(s, p + 1)
    } else {
        p
    }
}

/// The value of a run of decimal digits, most significant first.
pub open spec fn digits_val(text: Seq<char>) -> int
    decreases text.len(),
{
    if text.len() == 0 {
        0
    } else {
        digits_val(text.drop_last()) * 10 + (text.last() as u32 - '0' as u32)
    }
}

/// The token a digit run denotes: its numeric value where that value
/// fits the scanner's integer type, and `Illegal` where it does not.
pub open spec fn int_token(text: Seq<char>) -> TokenModel {
    if digits_val(text) <= i64::MAX as int {
        TokenModel::Int(digits_val(text))
    } else {
        TokenModel::Illegal
    }
}

/// The token produced by one scan step at position `p` of source `s`,
/// paired with the cursor position after it.  The cursor saturates at
/// `s.len()`; a cursor at `s.len()` yields `Eof` and stays put.
pub open spec fn token_at(s: Seq<char>, p: int) -> (TokenModel, int)
    recommends
        0 <= p <= s.len(),
    decreases s.len() - p,
{
    if p < 0 || p >= s.len() {
        (TokenModel::Eof, p)
    } else {
        let c = s[p];
        if is_ws_char(c) {
            token_at(s, p + 1)
        } else if c == '\n' {
            if char_at(s, p + 1) == '\n' {
                (TokenModel::Blank, p + 1)
            } else {
                token_at(s, p + 1)
            }
        } else if is_op_start(c) {
            if char_at(s, p + 1) == '=' {
                (two_char_op_token(c), p + 2)
            } else {
                (one_char_op_token(c), p + 1)
            }
        } else if is_punct_char(c) {
            (punct_token(c), p + 1)
        } else if is_letter_char(c) {
            let e = letter_run_end(s, p);
            (ident_token(s.subrange(p, e)), e)
        } else if is_digit_char(c) {
            let e = digit_run_end(s, p);
            (int_token(s.subrange(p, e)), e)
        } else if c == '"' {
            let e = string_run_end(s, p + 1);
            (TokenModel::Str(s.subrange(p + 1, e)), if e < s.len() { e + 1 } else { e })
        } else if c == '\0' {
            (TokenModel::Eof, p + 1)
        } else {
            (TokenModel::Illegal, p + 1)
        }
    }
}

/// Skipping whitespace reaches a fixed point within bounds, at a
/// non-whitespace character.
pub proof fn lemma_skip_ws_props(s: Seq<char>, p: int)
    requires
        0 <= p <= s.len(),
    ensures
        p <= skip_ws(s, p) <= s.len(),
        skip_ws(s, p) < s.len() ==> !is_ws_char(s[skip_ws(s, p)]),
        skip_ws(s, skip_ws(s, p)) == skip_ws(s, p),
    decreases s.len() - p,
{
    if p < s.len() && is_ws_char(s[p]) {
        lemma_skip_ws_props(s, p + 1);
    }
}

/// The token at a position does not change when leading whitespace is
/// skipped first.
pub proof fn lemma_skip_ws_token_at(s: Seq<char>, p: int)
    requires
        0 <= p <= s.len(),
    ensures
        token_at(s, skip_ws(s, p)) == token_at(s, p),
    decreases s.len() - p,
{
    if p < s.len() && is_ws_char(s[p]) {
        lemma_skip_ws_token_at(s, p + 1);
    }
}

/// Bounds of a letter run: it is non-empty when it starts at a letter,
/// consists of letters, and is maximal.
pub proof fn lemma_letter_run_props(s: Seq<char>, p: int)
    requires
        0 <= p <= s.len(),
    ensures
        p <= letter_run_end(s, p) <= s.len(),
        forall|i: int| p <= i < letter_run_end(s, p) ==> is_letter_char(s[i]),
        letter_run_end(s, p) < s.len() ==> !is_letter_char(s[letter_run_end(s, p)]),
        p < s.len() && is_letter_char(s[p]) ==> letter_run_end(s, p) > p,
    decreases s.len() - p,
{
    if p < s.len() && is_letter_char(s[p]) {
        lemma_letter_run_props(s, p + 1);
    }
}

/// Bounds of a digit run, as for letter runs.
pub proof fn lemma_digit_run_props(s: Seq<char>, p: int)
    requires
        0 <= p <= s.len(),
    ensures
        p <= digit_run_end(s, p) <= s.len(),
        forall|i: int| p <= i < digit_run_end(s, p) ==> is_digit_char(s[i]),
        digit_run_end(s, p) < s.len() ==> !is_digit_char(s[digit_run_end(s, p)]),
        p < s.len() && is_digit_char(s[p]) ==> digit_run_end(s, p) > p,
    decreases s.len() - p,
{
    if p < s.len() && is_digit_char(s[p]) {
        lemma_digit_run_props(s, p + 1);
    }
}

/// Bounds of a string literal body: it ends at the closing quote or at
/// end-of-input, and contains no quote.
pub proof fn lemma_string_run_props(s: Seq<char>, p: int)
    requires
        0 <= p <= s.len(),
    ensures
        p <= string_run_end(s, p) <= s.len(),
        forall|i: int| p <= i < string_run_end(s, p) ==> s[i] != '"',
        string_run_end(s, p) < s.len() ==> s[string_run_end(s, p)] == '"',
    decreases s.len() - p,
{
    if p < s.len() && s[p] != '"' {
        lemma_string_run_props(s, p + 1);
    }
}

/// One scan step never moves the cursor backwards nor past the end, and
/// it stands still only when producing `Eof` at end-of-input.
pub proof fn lemma_token_at_progress(s: Seq<char>, p: int)
    requires
        0 <= p <= s.len(),
    ensures
        p <= token_at(s, p).1 <= s.len(),
        token_at(s, p).1 == p ==> p == s.len() && token_at(s, p).0 == TokenModel::Eof,
    decreases s.len() - p,
{
    if p < s.len() {
        let c = s[p];
        if is_ws_char(c) {
            lemma_token_at_progress(s, p + 1);
        } else if c == '\n' && char_at(s, p + 1) != '\n' {
            lemma_token_at_progress(s, p + 1);
        } else if is_letter_char(c) {
            lemma_letter_run_props(s, p);
        } else if is_digit_char(c) {
            lemma_digit_run_props(s, p);
        } else if c == '"' {
            lemma_string_run_props(s, p + 1);
        }
    }
}

} // verus!
