use monkey_lexer::lexer::Lexer;
use monkey_lexer::token::Token;

fn scan_all(input: &str) -> Vec<Token> {
    let mut lexer = Lexer::new(input);
    let mut toks = Vec::new();
    loop {
        let tok = lexer.next_token();
        let done = tok == Token::Eof;
        toks.push(tok);
        if done {
            break;
        }
    }
    toks
}

#[test]
fn single_char_punctuation() {
    let cases = vec![
        ("+", Token::Plus),
        ("-", Token::Minus),
        ("/", Token::Slash),
        ("*", Token::Asterisk),
        ("(", Token::Lparen),
        (")", Token::Rparen),
        ("{", Token::Lbrace),
        ("}", Token::Rbrace),
        ("[", Token::Lbracket),
        ("]", Token::Rbracket),
        (",", Token::Comma),
        (";", Token::Semicolon),
        (":", Token::Colon),
    ];
    for (input, expect) in cases {
        assert_eq!(scan_all(input), vec![expect, Token::Eof]);
    }
}

#[test]
fn one_and_two_char_operators() {
    assert_eq!(scan_all("="), vec![Token::Assign, Token::Eof]);
    assert_eq!(scan_all("!"), vec![Token::Bang, Token::Eof]);
    assert_eq!(scan_all("<"), vec![Token::LessThan, Token::Eof]);
    assert_eq!(scan_all(">"), vec![Token::GreaterThan, Token::Eof]);
    assert_eq!(scan_all("=="), vec![Token::Equal, Token::Eof]);
    assert_eq!(scan_all("!="), vec![Token::NotEqual, Token::Eof]);
    assert_eq!(scan_all("<="), vec![Token::LessThanEqual, Token::Eof]);
    assert_eq!(scan_all(">="), vec![Token::GreaterThanEqual, Token::Eof]);
    // The second character must be `=` itself, and adjacent.
    assert_eq!(scan_all("=!"), vec![Token::Assign, Token::Bang, Token::Eof]);
    assert_eq!(
        scan_all("< ="),
        vec![Token::LessThan, Token::Assign, Token::Eof]
    );
}

#[test]
fn keywords_and_identifiers() {
    assert_eq!(scan_all("fn"), vec![Token::Func, Token::Eof]);
    assert_eq!(scan_all("let"), vec![Token::Let, Token::Eof]);
    assert_eq!(scan_all("true"), vec![Token::Bool(true), Token::Eof]);
    assert_eq!(scan_all("false"), vec![Token::Bool(false), Token::Eof]);
    assert_eq!(scan_all("if"), vec![Token::If, Token::Eof]);
    assert_eq!(scan_all("else"), vec![Token::Else, Token::Eof]);
    assert_eq!(scan_all("return"), vec![Token::Return, Token::Eof]);
    // Near misses keep their literal spelling.
    for other in ["fns", "Fn", "lets", "tru", "truex", "returns", "_", "x_y"] {
        assert_eq!(
            scan_all(other),
            vec![Token::Ident(String::from(other)), Token::Eof]
        );
    }
}

#[test]
fn blank_line_and_lone_newline() {
    // Two adjacent newlines yield exactly one Blank token.
    assert_eq!(scan_all("\n\n"), vec![Token::Blank, Token::Eof]);
    assert_eq!(
        scan_all("a\n\nb"),
        vec![
            Token::Ident(String::from("a")),
            Token::Blank,
            Token::Ident(String::from("b")),
            Token::Eof
        ]
    );
    // A single newline yields no token by itself.
    assert_eq!(
        scan_all("a\nb"),
        vec![
            Token::Ident(String::from("a")),
            Token::Ident(String::from("b")),
            Token::Eof
        ]
    );
    assert_eq!(scan_all("\n"), vec![Token::Eof]);
    // The trigger is exactly two adjacent newlines: a space between
    // them makes each a lone newline.
    assert_eq!(
        scan_all("a\n \nb"),
        vec![
            Token::Ident(String::from("a")),
            Token::Ident(String::from("b")),
            Token::Eof
        ]
    );
}

#[test]
fn non_ascii_scans_per_code_point() {
    // Scanning is code-point-oriented: an unrecognized character is one
    // Illegal token, whatever its encoded width.
    assert_eq!(
        scan_all("\u{e9};"),
        vec![Token::Illegal, Token::Semicolon, Token::Eof]
    );
}

#[test]
fn eof_is_terminal_and_repeats() {
    let mut lexer = Lexer::new("x");
    assert_eq!(lexer.next_token(), Token::Ident(String::from("x")));
    assert_eq!(lexer.next_token(), Token::Eof);
    assert_eq!(lexer.next_token(), Token::Eof);
    assert_eq!(lexer.next_token(), Token::Eof);
}

#[test]
fn empty_and_whitespace_only_input() {
    assert_eq!(scan_all(""), vec![Token::Eof]);
    assert_eq!(scan_all("  \t \t"), vec![Token::Eof]);
}

#[test]
fn string_round_trip() {
    assert_eq!(
        scan_all("\"foobar\";"),
        vec![
            Token::String(String::from("foobar")),
            Token::Semicolon,
            Token::Eof
        ]
    );
}

#[test]
fn let_and_function_scenario() {
    let input = "let five = 5;\nlet add = fn(x, y) { x + y; };\n";
    let expected = vec![
        Token::Let,
        Token::Ident(String::from("five")),
        Token::Assign,
        Token::Int(5),
        Token::Semicolon,
        Token::Let,
        Token::Ident(String::from("add")),
        Token::Assign,
        Token::Func,
        Token::Lparen,
        Token::Ident(String::from("x")),
        Token::Comma,
        Token::Ident(String::from("y")),
        Token::Rparen,
        Token::Lbrace,
        Token::Ident(String::from("x")),
        Token::Plus,
        Token::Ident(String::from("y")),
        Token::Semicolon,
        Token::Rbrace,
        Token::Semicolon,
        Token::Eof,
    ];
    assert_eq!(scan_all(input), expected);
}

#[test]
fn unterminated_string_yields_partial_text() {
    assert_eq!(
        scan_all("\"abc"),
        vec![Token::String(String::from("abc")), Token::Eof]
    );
    assert_eq!(scan_all("\""), vec![Token::String(String::new()), Token::Eof]);
}

#[test]
fn numbers_and_overflow() {
    assert_eq!(scan_all("0"), vec![Token::Int(0), Token::Eof]);
    assert_eq!(scan_all("00042"), vec![Token::Int(42), Token::Eof]);
    assert_eq!(
        scan_all("9223372036854775807"),
        vec![Token::Int(i64::MAX), Token::Eof]
    );
    // A run too large for i64 surfaces in-band, not as a crash.
    assert_eq!(
        scan_all("9223372036854775808;"),
        vec![Token::Illegal, Token::Semicolon, Token::Eof]
    );
    assert_eq!(
        scan_all("99999999999999999999999"),
        vec![Token::Illegal, Token::Eof]
    );
}

#[test]
fn unrecognized_characters_are_illegal() {
    assert_eq!(scan_all("@"), vec![Token::Illegal, Token::Eof]);
    assert_eq!(
        scan_all("#;"),
        vec![Token::Illegal, Token::Semicolon, Token::Eof]
    );
}
