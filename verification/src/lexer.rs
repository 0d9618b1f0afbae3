//! The executable scanner, verified against the model in `scan`.

use vstd::prelude::*;
use vstd::string::StrSliceExecFns;
use crate::scan::{
    char_at, digit_run_end, digits_val, int_token, is_digit_char, is_letter_char, letter_run_end,
    lemma_digit_run_props, lemma_skip_ws_props, lemma_skip_ws_token_at, skip_ws, string_run_end,
    token_at,
};
use crate::token::{Token, ident_token, kw_else, kw_false, kw_func, kw_if, kw_let, kw_return,
    kw_true};

verus! {

/// True of bytes that may appear in an identifier: ASCII letters and `_`.
pub open spec fn spec_is_letter(ch: u8) -> bool {
    ||| 97 <= ch <= 122
    ||| 65 <= ch <= 90
    ||| ch == 95
}

/// True of ASCII decimal digit bytes.
pub open spec fn spec_is_digit(ch: u8) -> bool {
    48 <= ch <= 57
}

/// Classifies a byte as an identifier character.
pub fn is_letter(ch: u8) -> (r: bool)
    ensures
        r == spec_is_letter(ch),
{
    (97 <= ch && ch <= 122) || (65 <= ch && ch <= 90) || (ch == 95)
}

/// Classifies a byte as a decimal digit.
pub fn is_digit(ch: u8) -> (r: bool)
    ensures
        r == spec_is_digit(ch),
{
    48 <= ch && ch <= 57
}

/// Classifies a character as an identifier character.
fn letter_char(c: char) -> (r: bool)
    ensures
        r == is_letter_char(c),
{
    let u = c as u32;
    ('a' as u32 <= u && u <= 'z' as u32) || ('A' as u32 <= u && u <= 'Z' as u32) || c == '_'
}

/// Classifies a character as a decimal digit.
fn digit_char(c: char) -> (r: bool)
    ensures
        r == is_digit_char(c),
{
    let u = c as u32;
    '0' as u32 <= u && u <= '9' as u32
}

/// Compares two string slices character by character.
fn str_eq(a: &str, b: &str) -> (r: bool)
    ensures
        r == (a@ == b@),
{
    let na = a.unicode_len();
    let nb = b.unicode_len();
    if na != nb {
        return false;
    }
    let mut i: usize = 0;
    while i < na
        invariant
            na == a@.len(),
            na == b@.len(),
            i <= na,
            forall|j: int| 0 <= j < i ==> a@[j] == b@[j],
        decreases na - i,
    {
        if a.get_char(i) != b.get_char(i) {
            return false;
        }
        i = i + 1;
    }
    proof {
        assert(a@ =~= b@);
    }
    true
}

/// The scanner: the source text, the cursor, the lookahead position, and
/// the character under examination (`'\0'` past the end).
pub struct Lexer {
    input: String,
    len: usize,
    position: usize,
    read_position: usize,
    ch: char,
}

impl Lexer {
    /// The source text being scanned, as a character sequence.
    pub closed spec fn src(self) -> Seq<char> {
        self.input@
    }

    /// The current cursor position, counted in characters.
    pub closed spec fn pos(self) -> int {
        self.position as int
    }

    /// The positions are within the source.
    closed spec fn in_bounds(self) -> bool {
        &&& self.len as int == self.input@.len()
        &&& self.position <= self.read_position
        &&& self.read_position as int <= self.input@.len()
    }

    /// The cursor invariant: the lookahead position is one past the
    /// current position and the examined character is the one under the
    /// cursor, except that at end-of-input both positions rest at the
    /// end and the sentinel `'\0'` is under examination.
    pub closed spec fn wf(self) -> bool {
        &&& self.in_bounds()
        &&& if (self.position as int) < self.input@.len() {
            self.read_position as int == self.position as int + 1 && self.ch == self.input@[
                self.position as int
            ]
        } else {
            self.position as int == self.input@.len() && self.ch == '\0'
        }
    }

    /// Produces a scanner positioned at the first character of `input`.
    pub fn new(input: &str) -> (lx: Lexer)
        ensures
            lx.wf(),
            lx.src() == input@,
            lx.pos() == 0,
    {
        let n = input.unicode_len();
        let mut lx = Lexer {
            input: input.to_owned(),
            len: n,
            position: 0,
            read_position: 0,
            ch: '\0',
        };
        lx.read_char();
        lx
    }

    /// Moves the cursor to the lookahead position and refreshes the
    /// examined character; both positions saturate at end-of-input.
    fn read_char(&mut self)
        requires
            old(self).in_bounds(),
        ensures
            final(self).wf(),
            final(self).src() == old(self).src(),
            final(self).pos() == old(self).read_position as int,
            old(self).wf() ==> final(self).pos() == (if old(self).pos() < old(self).src().len() {
                old(self).pos() + 1
            } else {
                old(self).pos()
            }),
    {
        if self.read_position >= self.len {
            self.position = self.read_position;
            self.ch = '\0';
        } else {
            self.ch = self.input.as_str().get_char(self.read_position);
            self.position = self.read_position;
            self.read_position = self.read_position + 1;
        }
    }

    /// The character at the lookahead position, without moving the
    /// cursor; `'\0'` past the end.
    fn peek_char(&self) -> (c: char)
        requires
            self.wf(),
        ensures
            c == char_at(self.src(), self.pos() + 1),
    {
        if self.read_position >= self.len {
            '\0'
        } else {
            self.input.as_str().get_char(self.read_position)
        }
    }

    /// Skips the run of space and tab characters under the cursor.
    #[verifier::loop_isolation(false)]
    fn skip_whitespace(&mut self)
        requires
            old(self).wf(),
        ensures
            final(self).wf(),
            final(self).src() == old(self).src(),
            final(self).pos() == skip_ws(old(self).src(), old(self).pos()),
    {
        while self.ch == ' ' || self.ch == '\t'
            invariant
                self.wf(),
                self.src() == old(self).src(),
                skip_ws(self.src(), self.pos()) == skip_ws(old(self).src(), old(self).pos()),
            decreases self.src().len() - self.pos(),
        {
            self.read_char();
        }
    }

    /// Returns the next token and leaves the cursor ready for the call
    /// after it; the token and the new cursor position are exactly those
    /// of the model `token_at`.
    #[verifier::loop_isolation(false)]
    pub fn next_token(&mut self) -> (t: Token)
        requires
            old(self).wf(),
        ensures
            final(self).wf(),
            final(self).src() == old(self).src(),
            t@ == token_at(old(self).src(), old(self).pos()).0,
            final(self).pos() == token_at(old(self).src(), old(self).pos()).1,
    {
        loop
            invariant
                self.wf(),
                self.src() == old(self).src(),
                token_at(self.src(), self.pos()) == token_at(old(self).src(), old(self).pos()),
            decreases self.src().len() - self.pos(),
        {
            let ghost p_before = self.pos();
            self.skip_whitespace();
            proof {
                lemma_skip_ws_props(self.src(), p_before);
                lemma_skip_ws_token_at(self.src(), p_before);
            }
            let tok: Token;
            match self.ch {
                '=' => {
                    if self.peek_char() == '=' {
                        self.read_char();
                        tok = Token::Equal;
                    } else {
                        tok = Token::Assign;
                    }
                },
                '+' => {
                    tok = Token::Plus;
                },
                '-' => {
                    tok = Token::Minus;
                },
                '!' => {
                    if self.peek_char() == '=' {
                        self.read_char();
                        tok = Token::NotEqual;
                    } else {
                        tok = Token::Bang;
                    }
                },
                '/' => {
                    tok = Token::Slash;
                },
                '*' => {
                    tok = Token::Asterisk;
                },
                '<' => {
                    if self.peek_char() == '=' {
                        self.read_char();
                        tok = Token::LessThanEqual;
                    } else {
                        tok = Token::LessThan;
                    }
                },
                '>' => {
                    if self.peek_char() == '=' {
                        self.read_char();
                        tok = Token::GreaterThanEqual;
                    } else {
                        tok = Token::GreaterThan;
                    }
                },
                '(' => {
                    tok = Token::Lparen;
                },
                ')' => {
                    tok = Token::Rparen;
                },
                '{' => {
                    tok = Token::Lbrace;
                },
                '}' => {
                    tok = Token::Rbrace;
                },
                '[' => {
                    tok = Token::Lbracket;
                },
                ']' => {
                    tok = Token::Rbracket;
                },
                ',' => {
                    tok = Token::Comma;
                },
                ';' => {
                    tok = Token::Semicolon;
                },
                ':' => {
                    tok = Token::Colon;
                },
                '\n' => {
                    if self.peek_char() == '\n' {
                        tok = Token::Blank;
                    } else {
                        self.read_char();
                        continue;
                    }
                },
                '\0' => {
                    tok = Token::Eof;
                },
                c => {
                    if letter_char(c) {
                        return self.consume_identifier();
                    } else if digit_char(c) {
                        return self.read_number();
                    } else if c == '"' {
                        return self.consume_string();
                    } else {
                        tok = Token::Illegal;
                    }
                },
            }
            self.read_char();
            return tok;
        }
    }

    /// Scans the letter/underscore run under the cursor and classifies
    /// it by the keyword table.
    #[verifier::loop_isolation(false)]
    fn consume_identifier(&mut self) -> (t: Token)
        requires
            old(self).wf(),
            old(self).pos() < old(self).src().len(),
            is_letter_char(old(self).src()[old(self).pos()]),
        ensures
            final(self).wf(),
            final(self).src() == old(self).src(),
            final(self).pos() == letter_run_end(old(self).src(), old(self).pos()),
            t@ == ident_token(
                old(self).src().subrange(
                    old(self).pos(),
                    letter_run_end(old(self).src(), old(self).pos()),
                ),
            ),
    {
        let start_pos = self.position;
        while letter_char(self.ch)
            invariant
                self.wf(),
                self.src() == old(self).src(),
                start_pos as int <= self.pos() <= self.src().len(),
                letter_run_end(self.src(), self.pos()) == letter_run_end(
                    old(self).src(),
                    old(self).pos(),
                ),
            decreases self.src().len() - self.pos(),
        {
            self.read_char();
        }
        let literal = self.input.as_str().substring_char(start_pos, self.position);
        proof {
            reveal_strlit("fn");
            reveal_strlit("let");
            reveal_strlit("true");
            reveal_strlit("false");
            reveal_strlit("if");
            reveal_strlit("else");
            reveal_strlit("return");
            assert("fn"@ =~= kw_func());
            assert("let"@ =~= kw_let());
            assert("true"@ =~= kw_true());
            assert("false"@ =~= kw_false());
            assert("if"@ =~= kw_if());
            assert("else"@ =~= kw_else());
            assert("return"@ =~= kw_return());
        }
        if str_eq(literal, "fn") {
            Token::Func
        } else if str_eq(literal, "let") {
            Token::Let
        } else if str_eq(literal, "true") {
            Token::Bool(true)
        } else if str_eq(literal, "false") {
            Token::Bool(false)
        } else if str_eq(literal, "if") {
            Token::If
        } else if str_eq(literal, "else") {
            Token::Else
        } else if str_eq(literal, "return") {
            Token::Return
        } else {
            Token::Ident(literal.to_owned())
        }
    }

    /// Scans the digit run under the cursor and parses its value; a run
    /// whose value does not fit an `i64` yields `Illegal`.
    #[verifier::loop_isolation(false)]
    fn read_number(&mut self) -> (t: Token)
        requires
            old(self).wf(),
            old(self).pos() < old(self).src().len(),
            is_digit_char(old(self).src()[old(self).pos()]),
        ensures
            final(self).wf(),
            final(self).src() == old(self).src(),
            final(self).pos() == digit_run_end(old(self).src(), old(self).pos()),
            t@ == int_token(
                old(self).src().subrange(
                    old(self).pos(),
                    digit_run_end(old(self).src(), old(self).pos()),
                ),
            ),
    {
        let start_pos = self.position;
        while digit_char(self.ch)
            invariant
                self.wf(),
                self.src() == old(self).src(),
                start_pos as int <= self.pos() <= self.src().len(),
                digit_run_end(self.src(), self.pos()) == digit_run_end(
                    old(self).src(),
                    old(self).pos(),
                ),
            decreases self.src().len() - self.pos(),
        {
            self.read_char();
        }
        proof {
            lemma_digit_run_props(old(self).src(), old(self).pos());
        }
        let literal = self.input.as_str().substring_char(start_pos, self.position);
        match parse_digits(literal) {
            Option::Some(v) => Token::Int(v),
            Option::None => Token::Illegal,
        }
    }

    /// Scans a string literal: everything between the opening quote and
    /// the closing quote or end-of-input.
    #[verifier::loop_isolation(false)]
    fn consume_string(&mut self) -> (t: Token)
        requires
            old(self).wf(),
            old(self).pos() < old(self).src().len(),
            old(self).src()[old(self).pos()] == '"',
        ensures
            final(self).wf(),
            final(self).src() == old(self).src(),
            ({
                let e = string_run_end(old(self).src(), old(self).pos() + 1);
                &&& final(self).pos() == (if e < old(self).src().len() {
                    e + 1
                } else {
                    e
                })
                &&& t@ == crate::token::TokenModel::Str(
                    old(self).src().subrange(old(self).pos() + 1, e),
                )
            }),
    {
        self.read_char();
        let start_pos = self.position;
        while self.position < self.len && self.ch != '"'
            invariant
                self.wf(),
                self.src() == old(self).src(),
                start_pos as int <= self.pos() <= self.src().len(),
                start_pos == old(self).pos() + 1,
                string_run_end(self.src(), self.pos()) == string_run_end(
                    old(self).src(),
                    old(self).pos() + 1,
                ),
            decreases self.src().len() - self.pos(),
        {
            self.read_char();
        }
        let literal = self.input.as_str().substring_char(start_pos, self.position);
        let owned = literal.to_owned();
        self.read_char();
        Token::String(owned)
    }
}

/// Parses a run of decimal digits as an `i64`, detecting
/// overflow exactly: `None` if and only if the value exceeds `i64::MAX`.
#[verifier::loop_isolation(false)]
fn parse_digits(lit: &str) -> (r: Option<i64>)
    requires
        forall|i: int| 0 <= i < lit@.len() ==> is_digit_char(lit@[i]),
    ensures
        match r {
            Option::Some(v) => digits_val(lit@) <= i64::MAX && v as int == digits_val(lit@),
            Option::None => digits_val(lit@) > i64::MAX,
        },
{
    let n = lit.unicode_len();
    let mut val: i64 = 0;
    let mut i: usize = 0;
    while i < n
        invariant
            i <= n,
            0 <= val,
            val as int == digits_val(lit@.subrange(0, i as int)),
        decreases n - i,
    {
        let c = lit.get_char(i);
        let d = (c as u32 - '0' as u32) as i64;
        proof {
            assert(lit@.subrange(0, i + 1).drop_last() =~= lit@.subrange(0, i as int));
            assert(lit@.subrange(0, i + 1).last() == lit@[i as int]);
        }
        if val > (i64::MAX - d) / 10 {
            proof {
                let m = i64::MAX - d;
                assert(m == 10 * (m as int / 10) + (m as int % 10) && 0 <= m as int % 10 < 10);
                assert(val * 10 + d > i64::MAX);
                assert(digits_val(lit@.subrange(0, i + 1)) > i64::MAX);
                lemma_digits_val_grows(lit@, i + 1, lit@.len() as int);
                assert(lit@.subrange(0, lit@.len() as int) =~= lit@);
            }
            return Option::None;
        }
        proof {
            let m = i64::MAX - d;
            assert(m == 10 * (m as int / 10) + (m as int % 10) && 0 <= m as int % 10 < 10);
            assert(val * 10 + d <= i64::MAX);
        }
        val = val * 10 + d;
        i = i + 1;
    }
    proof {
        assert(lit@.subrange(0, n as int) =~= lit@);
    }
    Option::Some(val)
}

/// The value of a digit run is non-negative.
proof fn lemma_digits_val_nonneg(text: Seq<char>)
    requires
        forall|i: int| 0 <= i < text.len() ==> is_digit_char(text[i]),
    ensures
        digits_val(text) >= 0,
    decreases text.len(),
{
    if text.len() > 0 {
        lemma_digits_val_nonneg(text.drop_last());
    }
}

/// Extending a digit run never shrinks its value.
proof fn lemma_digits_val_grows(text: Seq<char>, i: int, j: int)
    requires
        0 <= i <= j <= text.len(),
        forall|k: int| 0 <= k < text.len() ==> is_digit_char(text[k]),
    ensures
        digits_val(text.subrange(0, i)) <= digits_val(text.subrange(0, j)),
    decreases j - i,
{
    if i < j {
        lemma_digits_val_grows(text, i, j - 1);
        let prev = text.subrange(0, j - 1);
        let cur = text.subrange(0, j);
        assert(cur.drop_last() =~= prev);
        lemma_digits_val_nonneg(prev);
    }
}

} // verus!

