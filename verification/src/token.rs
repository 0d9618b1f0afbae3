//! The token type and its mathematical model.

use vstd::prelude::*;

verus! {

/// An atomic lexical unit.  Each variant carries exactly the payload it
/// needs; the variant tag itself encodes the category.
#[derive(Debug, Clone, PartialEq)]
pub enum Token {
    Illegal,
    Blank,
    Eof,
    // Identifiers + literals
    Ident(String),
    Int(i64),
    String(String),
    Bool(bool),
    // Statements
    Assign,
    If,
    Else,
    // Operators
    Plus,
    Minus,
    Bang,
    Asterisk,
    Slash,
    Equal,
    NotEqual,
    LessThan,
    LessThanEqual,
    GreaterThan,
    GreaterThanEqual,
    // Delimiters
    Comma,
    Colon,
    Semicolon,
    Lparen,
    Rparen,
    Lbrace,
    Rbrace,
    Lbracket,
    Rbracket,
    // Reserved keywords
    Func,
    Let,
    Return,
}

/// The model of a token: text payloads as character sequences, integer
/// payloads as unbounded integers.
pub enum TokenModel {
    Illegal,
    Blank,
    Eof,
    Ident(Seq<char>),
    Int(int),
    Str(Seq<char>),
    Bool(bool),
    Assign,
    If,
    Else,
    Plus,
    Minus,
    Bang,
    Asterisk,
    Slash,
    Equal,
    NotEqual,
    LessThan,
    LessThanEqual,
    GreaterThan,
    GreaterThanEqual,
    Comma,
    Colon,
    Semicolon,
    Lparen,
    Rparen,
    Lbrace,
    Rbrace,
    Lbracket,
    Rbracket,
    Func,
    Let,
    Return,
}

impl View for Token {
    type V = TokenModel;

    open spec fn view(&self) -> TokenModel {
        match self {
            Token::Illegal => TokenModel::Illegal,
            Token::Blank => TokenModel::Blank,
            Token::Eof => TokenModel::Eof,
            Token::Ident(s) => TokenModel::Ident(s@),
            Token::Int(n) => TokenModel::Int(*n as int),
            Token::String(s) => TokenModel::Str(s@),
            Token::Bool(b) => TokenModel::Bool(*b),
            Token::Assign => TokenModel::Assign,
            Token::If => TokenModel::If,
            Token::Else => TokenModel::Else,
            Token::Plus => TokenModel::Plus,
            Token::Minus => TokenModel::Minus,
            Token::Bang => TokenModel::Bang,
            Token::Asterisk => TokenModel::Asterisk,
            Token::Slash => TokenModel::Slash,
            Token::Equal => TokenModel::Equal,
            Token::NotEqual => TokenModel::NotEqual,
            Token::LessThan => TokenModel::LessThan,
            Token::LessThanEqual => TokenModel::LessThanEqual,
            Token::GreaterThan => TokenModel::GreaterThan,
            Token::GreaterThanEqual => TokenModel::GreaterThanEqual,
            Token::Comma => TokenModel::Comma,
            Token::Colon => TokenModel::Colon,
            Token::Semicolon => TokenModel::Semicolon,
            Token::Lparen => TokenModel::Lparen,
            Token::Rparen => TokenModel::Rparen,
            Token::Lbrace => TokenModel::Lbrace,
            Token::Rbrace => TokenModel::Rbrace,
            Token::Lbracket => TokenModel::Lbracket,
            Token::Rbracket => TokenModel::Rbracket,
            Token::Func => TokenModel::Func,
            Token::Let => TokenModel::Let,
            Token::Return => TokenModel::Return,
        }
    }
}

/// The spelling of each reserved word of the language.
pub open spec fn kw_func() -> Seq<char> {
    seq!['f', 'n']
}

pub open spec fn kw_let() -> Seq<char> {
    seq!['l', 'e', 't']
}

pub open spec fn kw_true() -> Seq<char> {
    seq!['t', 'r', 'u', 'e']
}

pub open spec fn kw_false() -> Seq<char> {
    seq!['f', 'a', 'l', 's', 'e']
}

pub open spec fn kw_if() -> Seq<char> {
    seq!['i', 'f']
}

pub open spec fn kw_else() -> Seq<char> {
    seq!['e', 'l', 's', 'e']
}

pub open spec fn kw_return() -> Seq<char> {
    seq!['r', 'e', 't', 'u', 'r', 'n']
}

/// True exactly of the spellings in the keyword table.
pub open spec fn is_reserved_word(text: Seq<char>) -> bool {
    ||| text == kw_func()
    ||| text == kw_let()
    ||| text == kw_true()
    ||| text == kw_false()
    ||| text == kw_if()
    ||| text == kw_else()
    ||| text == kw_return()
}

/// The fixed, case-sensitive keyword table: a letter/underscore run equal
/// to a reserved word yields its keyword token; any other run yields
/// `Ident` holding the text verbatim.
pub open spec fn ident_token(text: Seq<char>) -> TokenModel {
    if text == kw_func() {
        TokenModel::Func
    } else if text == kw_let() {
        TokenModel::Let
    } else if text == kw_true() {
        TokenModel::Bool(true)
    } else if text == kw_false() {
        TokenModel::Bool(false)
    } else if text == kw_if() {
        TokenModel::If
    } else if text == kw_else() {
        TokenModel::Else
    } else if text == kw_return() {
        TokenModel::Return
    } else {
        TokenModel::Ident(text)
    }
}

/// Single-character punctuation lexemes.
pub open spec fn is_punct_char(c: char) -> bool {
    ||| c == '+'
    ||| c == '-'
    ||| c == '/'
    ||| c == '*'
    ||| c == '('
    ||| c == ')'
    ||| c == '{'
    ||| c == '}'
    ||| c == '['
    ||| c == ']'
    ||| c == ','
    ||| c == ';'
    ||| c == ':'
}

/// The token a single-character punctuation lexeme denotes.
pub open spec fn punct_token(c: char) -> TokenModel
    recommends
        is_punct_char(c),
{
    if c == '+' {
        TokenModel::Plus
    } else if c == '-' {
        TokenModel::Minus
    } else if c == '/' {
        TokenModel::Slash
    } else if c == '*' {
        TokenModel::Asterisk
    } else if c == '(' {
        TokenModel::Lparen
    } else if c == ')' {
        TokenModel::Rparen
    } else if c == '{' {
        TokenModel::Lbrace
    } else if c == '}' {
        TokenModel::Rbrace
    } else if c == '[' {
        TokenModel::Lbracket
    } else if c == ']' {
        TokenModel::Rbracket
    } else if c == ',' {
        TokenModel::Comma
    } else if c == ';' {
        TokenModel::Semicolon
    } else {
        TokenModel::Colon
    }
}

/// Characters that may start a one- or two-character operator.
pub open spec fn is_op_start(c: char) -> bool {
    c == '=' || c == '!' || c == '<' || c == '>'
}

/// The token emitted when an operator character stands alone.
pub open spec fn one_char_op_token(c: char) -> TokenModel
    recommends
        is_op_start(c),
{
    if c == '=' {
        TokenModel::Assign
    } else if c == '!' {
        TokenModel::Bang
    } else if c == '<' {
        TokenModel::LessThan
    } else {
        TokenModel::GreaterThan
    }
}

/// The token emitted when an operator character is followed by `=`.
pub open spec fn two_char_op_token(c: char) -> TokenModel
    recommends
        is_op_start(c),
{
    if c == '=' {
        TokenModel::Equal
    } else if c == '!' {
        TokenModel::NotEqual
    } else if c == '<' {
        TokenModel::LessThanEqual
    } else {
        TokenModel::GreaterThanEqual
    }
}

} // verus!
