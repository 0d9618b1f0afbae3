use monkey_lexer::lexer::{is_digit, is_letter, Lexer};
use monkey_lexer::token::Token;

#[test]
fn test_is_letter() {
    assert_eq!(true, is_letter(b'a'));
    assert_eq!(false, is_letter(b'1'));
    assert_eq!(false, is_letter(b'!'));
}

#[test]
fn test_is_digit() {
    assert_eq!(true, is_digit(b'0'));
    assert_eq!(true, is_digit(b'5'));
    assert_eq!(false, is_digit(b'#'));
    assert_eq!(false, is_digit(b'!'));
}

#[test]
fn test_next_token() {
    let input = r#"let five = 5;
let ten = 10;

let add = fn(x, y) {
  x + y;
};

let result = add(five, ten);
!-/*5;
5 < 10 > 5;

if (5 < 10) {
  return true;
} else {
  return false;
}

10 == 10;
10 != 9;
10 <= 10;
10 >= 10;
"foobar";
"foo bar";

[1, 2];


{"foo": "bar"};
"#;

    let tests = vec![
        Token::Let,
        Token::Ident(String::from("five")),
        Token::Assign,
        Token::Int(5),
        Token::Semicolon,
        Token::Let,
        Token::Ident(String::from("ten")),
        Token::Assign,
        Token::Int(10),
        Token::Semicolon,
        Token::Blank,
        Token::Let,
        Token::Ident(String::from("add")),
        Token::Assign,
        Token::Func,
        Token::Lparen,
        Token::Ident(String::from("x")),
        Token::Comma,
        Token::Ident(String::from("y")),
        Token::Rparen,
        Token::Lbrace,
        Token::Ident(String::from("x")),
        Token::Plus,
        Token::Ident(String::from("y")),
        Token::Semicolon,
        Token::Rbrace,
        Token::Semicolon,
        Token::Blank,
        Token::Let,
        Token::Ident(String::from("result")),
        Token::Assign,
        Token::Ident(String::from("add")),
        Token::Lparen,
        Token::Ident(String::from("five")),
        Token::Comma,
        Token::Ident(String::from("ten")),
        Token::Rparen,
        Token::Semicolon,
        Token::Bang,
        Token::Minus,
        Token::Slash,
        Token::Asterisk,
        Token::Int(5),
        Token::Semicolon,
        Token::Int(5),
        Token::LessThan,
        Token::Int(10),
        Token::GreaterThan,
        Token::Int(5),
        Token::Semicolon,
        Token::Blank,
        Token::If,
        Token::Lparen,
        Token::Int(5),
        Token::LessThan,
        Token::Int(10),
        Token::Rparen,
        Token::Lbrace,
        Token::Return,
        Token::Bool(true),
        Token::Semicolon,
        Token::Rbrace,
        Token::Else,
        Token::Lbrace,
        Token::Return,
        Token::Bool(false),
        Token::Semicolon,
        Token::Rbrace,
        Token::Blank,
        Token::Int(10),
        Token::Equal,
        Token::Int(10),
        Token::Semicolon,
        Token::Int(10),
        Token::NotEqual,
        Token::Int(9),
        Token::Semicolon,
        Token::Int(10),
        Token::LessThanEqual,
        Token::Int(10),
        Token::Semicolon,
        Token::Int(10),
        Token::GreaterThanEqual,
        Token::Int(10),
        Token::Semicolon,
        Token::String(String::from("foobar")),
        Token::Semicolon,
        Token::String(String::from("foo bar")),
        Token::Semicolon,
        Token::Blank,
        Token::Lbracket,
        Token::Int(1),
        Token::Comma,
        Token::Int(2),
        Token::Rbracket,
        Token::Semicolon,
        Token::Blank,
        Token::Blank,
        Token::Lbrace,
        Token::String(String::from("foo")),
        Token::Colon,
        Token::String(String::from("bar")),
        Token::Rbrace,
        Token::Semicolon,
        Token::Eof,
    ];

    let mut lexer = Lexer::new(input);

    for expect in tests {
        let tok = lexer.next_token();

        assert_eq!(expect, tok);
    }
}
