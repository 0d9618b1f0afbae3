//! Laws of the scanner, stated and proved over the model in `scan`.

use vstd::prelude::*;
use crate::scan::{
    char_at, digit_run_end, int_token, is_digit_char, is_letter_char, is_ws_char,
    lemma_letter_run_props, lemma_token_at_progress, letter_run_end, token_at,
};
use crate::token::{
    TokenModel, ident_token, is_op_start, is_punct_char, is_reserved_word, one_char_op_token,
    punct_token, two_char_op_token,
};

verus! {

/// Single-character punctuation: the scanner emits the corresponding
/// token and advances the cursor exactly one place past it.
pub proof fn lemma_single_char_punct(s: Seq<char>, p: int)
    requires
        0 <= p < s.len(),
        is_punct_char(s[p]),
    ensures
        token_at(s, p).0 == punct_token(s[p]),
        token_at(s, p).1 == p + 1,
{
}

/// Two-character operators are recognized exactly when the operator
/// character is followed by `=`; a lone `=`, `!`, `<` or `>` yields the
/// one-character token and the cursor advances past it alone.
pub proof fn lemma_operator_disambiguation(s: Seq<char>, p: int)
    requires
        0 <= p < s.len(),
        is_op_start(s[p]),
    ensures
        char_at(s, p + 1) == '=' ==> token_at(s, p).0 == two_char_op_token(s[p]) && token_at(
            s,
            p,
        ).1 == p + 2,
        char_at(s, p + 1) != '=' ==> token_at(s, p).0 == one_char_op_token(s[p]) && token_at(
            s,
            p,
        ).1 == p + 1,
{
}

/// A letter/underscore run equal to a reserved word yields its keyword
/// token; every other run yields `Ident` holding the text unchanged.
/// The run consumed is the maximal one starting at the cursor.
pub proof fn lemma_keyword_or_ident(s: Seq<char>, p: int)
    requires
        0 <= p < s.len(),
        is_letter_char(s[p]),
    ensures
        ({
            let e = letter_run_end(s, p);
            let text = s.subrange(p, e);
            &&& token_at(s, p).1 == e
            &&& p < e <= s.len()
            &&& forall|i: int| p <= i < e ==> is_letter_char(s[i])
            &&& e < s.len() ==> !is_letter_char(s[e])
            &&& is_reserved_word(text) ==> token_at(s, p).0 != TokenModel::Ident(text)
            &&& !is_reserved_word(text) ==> token_at(s, p).0 == TokenModel::Ident(text)
            &&& token_at(s, p).0 == ident_token(text)
        }),
{
    lemma_letter_run_props(s, p);
}

/// Two adjacent newline characters yield exactly one `Blank` token:
/// the first call emits `Blank` and stops on the second newline, and
/// when no third newline follows, the call after it emits no `Blank`
/// for that line but scans on past the pair.
pub proof fn lemma_blank_line(s: Seq<char>, p: int)
    requires
        0 <= p,
        p + 1 < s.len(),
        s[p] == '\n',
        s[p + 1] == '\n',
    ensures
        token_at(s, p).0 == TokenModel::Blank,
        token_at(s, p).1 == p + 1,
        char_at(s, p + 2) != '\n' ==> token_at(s, p + 1) == token_at(s, p + 2),
{
}

/// A single newline yields no token of its own: scanning at it gives
/// whatever token stands after it.
pub proof fn lemma_lone_newline(s: Seq<char>, p: int)
    requires
        0 <= p < s.len(),
        s[p] == '\n',
        char_at(s, p + 1) != '\n',
    ensures
        token_at(s, p) == token_at(s, p + 1),
{
}

/// The stream of tokens produced by scanning from position `p` to
/// exhaustion: each step takes the token of `token_at` and continues at
/// the position it leaves, stopping once `Eof` is produced.
pub open spec fn token_stream_from(s: Seq<char>, p: int) -> Seq<TokenModel>
    recommends
        0 <= p <= s.len(),
    decreases s.len() - p,
        when 0 <= p <= s.len()
        via token_stream_from_decreases
{
    let (t, q) = token_at(s, p);
    if t == TokenModel::Eof {
        seq![t]
    } else {
        seq![t] + token_stream_from(s, q)
    }
}

#[via_fn]
proof fn token_stream_from_decreases(s: Seq<char>, p: int) {
    lemma_token_at_progress(s, p);
}

/// The tokens of a whole source text, in order, ending at the first
/// `Eof`.
pub open spec fn token_stream(s: Seq<char>) -> Seq<TokenModel> {
    token_stream_from(s, 0)
}

/// Scanning terminates with exactly one `Eof`: the token stream is
/// finite, its last token is `Eof`, and no earlier token is.
pub proof fn lemma_exactly_one_eof(s: Seq<char>, p: int)
    requires
        0 <= p <= s.len(),
    ensures
        token_stream_from(s, p).len() >= 1,
        token_stream_from(s, p).last() == TokenModel::Eof,
        forall|i: int|
            0 <= i < token_stream_from(s, p).len() - 1 ==> token_stream_from(s, p)[i]
                != TokenModel::Eof,
    decreases s.len() - p,
{
    let (t, q) = token_at(s, p);
    lemma_token_at_progress(s, p);
    if t != TokenModel::Eof {
        lemma_exactly_one_eof(s, q);
    }
}

/// Once `Eof` has been produced, every later call returns `Eof` again
/// and the cursor stays where it is, provided the text holds no `'\0'`
/// character (an embedded `'\0'` reads as the end-of-input sentinel and
/// yields an early `Eof` that scanning then moves past).
pub proof fn lemma_eof_idempotent(s: Seq<char>, p: int)
    requires
        0 <= p <= s.len(),
        forall|i: int| 0 <= i < s.len() ==> s[i] != '\0',
        token_at(s, p).0 == TokenModel::Eof,
    ensures
        token_at(s, p).1 == s.len(),
        token_at(s, token_at(s, p).1) == (TokenModel::Eof, s.len() as int),
    decreases s.len() - p,
{
    if p < s.len() {
        let c = s[p];
        if is_ws_char(c) || (c == '\n' && char_at(s, p + 1) != '\n') {
            lemma_eof_idempotent(s, p + 1);
        } else if is_letter_char(c) {
            lemma_letter_run_props(s, p);
        }
    }
}

/// An unterminated string literal at end-of-input yields a `Str` token
/// holding the partial text accumulated before the end, not an error;
/// the call after it returns `Eof`.
pub proof fn lemma_unterminated_string(s: Seq<char>, p: int)
    requires
        0 <= p < s.len(),
        s[p] == '"',
        forall|i: int| p < i < s.len() ==> s[i] != '"',
    ensures
        token_at(s, p).0 == TokenModel::Str(s.subrange(p + 1, s.len() as int)),
        token_at(s, p).1 == s.len(),
        token_at(s, s.len() as int).0 == TokenModel::Eof,
{
    crate::scan::lemma_string_run_props(s, p + 1);
    let e = crate::scan::string_run_end(s, p + 1);
    if e < s.len() {
        assert(s[e] == '"');
        assert(false);
    }
}

/// A digit run yields the integer it spells whenever that value fits the
/// scanner's integer type, and `Illegal` when it does not; either way the
/// cursor advances past the whole run.
pub proof fn lemma_number(s: Seq<char>, p: int)
    requires
        0 <= p < s.len(),
        is_digit_char(s[p]),
    ensures
        token_at(s, p).0 == int_token(s.subrange(p, digit_run_end(s, p))),
        token_at(s, p).1 == digit_run_end(s, p),
{
}

/// On ASCII input the byte classifiers agree with the character
/// classifiers the scanner dispatches on.
pub proof fn lemma_byte_classifiers_agree(c: char)
    requires
        c as u32 <= 127,
    ensures
        is_letter_char(c) == crate::lexer::spec_is_letter(c as u8),
        is_digit_char(c) == crate::lexer::spec_is_digit(c as u8),
{
}

} // verus!
