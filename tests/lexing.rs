use tinylang::{tokenize, LexError, Lexer, Token};

fn chars(s: &str) -> Vec<char> {
    s.chars().collect()
}

fn lex(s: &str) -> Vec<Token> {
    tokenize(chars(s)).unwrap()
}

fn raw_tokens(s: &str) -> Vec<Result<Token, LexError>> {
    let mut lexer = Lexer::new(chars(s));
    let mut out = Vec::new();
    loop {
        let t = lexer.get_token();
        let done = t == Ok(Token::EOF);
        out.push(t);
        if done {
            return out;
        }
    }
}

fn number(text: &str) -> Token {
    Token::Number(text.to_string())
}

#[test]
fn single_punctuation_characters() {
    let table = vec![
        (':', Token::Colon),
        (';', Token::Semicolon),
        ('(', Token::OpenParen),
        (')', Token::CloseParen),
        ('[', Token::OpenBracket),
        (']', Token::CloseBracket),
        ('{', Token::OpenBrace),
        ('}', Token::CloseBrace),
        ('.', Token::Dot),
        (',', Token::Comma),
        ('+', Token::Plus),
        ('-', Token::Minus),
        ('*', Token::Times),
        ('/', Token::Divide),
        ('=', Token::Assignment),
        ('!', Token::Not),
        ('<', Token::LessThan),
        ('>', Token::GreaterThan),
    ];
    for (c, tok) in table {
        let mut lexer = Lexer::new(vec![c]);
        assert_eq!(lexer.get_token(), Ok(tok));
        assert_eq!(lexer.get_token(), Ok(Token::EOF));
    }
}

#[test]
fn two_character_operators() {
    assert_eq!(lex("=="), vec![Token::Equals, Token::EOF]);
    assert_eq!(lex("!="), vec![Token::NotEquals, Token::EOF]);
    assert_eq!(lex("<="), vec![Token::LessEqual, Token::EOF]);
    assert_eq!(lex(">="), vec![Token::GreaterEqual, Token::EOF]);
    assert_eq!(lex("= ="), vec![Token::Assignment, Token::Assignment, Token::EOF]);
    assert_eq!(lex("!x"), vec![Token::Not, Token::Identifier("x".to_string()), Token::EOF]);
}

#[test]
fn keyword_and_identifier_boundary() {
    assert_eq!(lex("iffy"), vec![Token::Identifier("iffy".to_string()), Token::EOF]);
    assert_eq!(lex("if"), vec![Token::If, Token::EOF]);
}

#[test]
fn all_keywords() {
    assert_eq!(
        lex("true false if for print"),
        vec![Token::True, Token::False, Token::If, Token::For, Token::Print, Token::EOF]
    );
    assert_eq!(lex("If"), vec![Token::Identifier("If".to_string()), Token::EOF]);
    assert_eq!(lex("x1y2"), vec![Token::Identifier("x1y2".to_string()), Token::EOF]);
}

#[test]
fn whitespace_insensitivity() {
    let expected = vec![number("1"), Token::Plus, number("2"), Token::EOF];
    assert_eq!(lex("1   +    2"), expected);
    assert_eq!(lex("1+2"), expected);
}

#[test]
fn comment_skipping() {
    assert_eq!(lex("1 # comment\n2"), vec![number("1"), number("2"), Token::EOF]);
    assert_eq!(
        raw_tokens("1 # comment\n2"),
        vec![Ok(number("1")), Ok(Token::Comment), Ok(number("2")), Ok(Token::EOF)]
    );
}

#[test]
fn comment_running_to_end_of_input() {
    assert_eq!(raw_tokens("x # no line end"), vec![
        Ok(Token::Identifier("x".to_string())),
        Ok(Token::Comment),
        Ok(Token::EOF),
    ]);
    assert_eq!(lex("#\r+"), vec![Token::Plus, Token::EOF]);
}

#[test]
fn number_parsing() {
    let toks = lex("3.14");
    assert_eq!(toks, vec![number("3.14"), Token::EOF]);
    match &toks[0] {
        Token::Number(text) => assert_eq!(text.parse::<f64>().unwrap(), 3.14),
        other => panic!("expected a number, got {:?}", other),
    }
    let toks = lex("42");
    match &toks[0] {
        Token::Number(text) => assert_eq!(text.parse::<f64>().unwrap(), 42.0),
        other => panic!("expected a number, got {:?}", other),
    }
    assert_eq!(lex("7."), vec![number("7."), Token::EOF]);
}

#[test]
fn malformed_numbers() {
    assert_eq!(tokenize(chars("1.2.3")), Err(LexError::InvalidNumber));
    assert_eq!(tokenize(chars("x = 1..")), Err(LexError::InvalidNumber));
    // a numeric character that is not an ASCII digit
    assert_eq!(tokenize(chars("\u{b2}")), Err(LexError::InvalidNumber));
    let mut lexer = Lexer::new(chars("1..2 3"));
    assert_eq!(lexer.get_token(), Err(LexError::InvalidNumber));
    assert_eq!(lexer.get_token(), Ok(number("3")));
}

#[test]
fn non_ascii_characters() {
    assert_eq!(lex("\u{e9}t\u{e9}"), vec![Token::Identifier("\u{e9}t\u{e9}".to_string()), Token::EOF]);
    assert_eq!(lex("\u{a0}1\u{3000}"), vec![number("1"), Token::EOF]);
    assert_eq!(lex("\u{e9}\u{b2}"), vec![Token::Identifier("\u{e9}\u{b2}".to_string()), Token::EOF]);
}

#[test]
fn unknown_characters() {
    assert_eq!(lex("@ $"), vec![Token::Unknown, Token::Unknown, Token::EOF]);
}

#[test]
fn empty_and_blank_input() {
    assert_eq!(lex(""), vec![Token::EOF]);
    assert_eq!(lex(" \t\n\r\u{b}\u{c}"), vec![Token::EOF]);
    let mut lexer = Lexer::new(Vec::new());
    assert_eq!(lexer.get_token(), Ok(Token::EOF));
    assert_eq!(lexer.get_token(), Ok(Token::EOF));
}

#[test]
fn statement_tokens() {
    assert_eq!(
        lex("for i = 0 : 10 { x = i; }"),
        vec![
            Token::For,
            Token::Identifier("i".to_string()),
            Token::Assignment,
            number("0"),
            Token::Colon,
            number("10"),
            Token::OpenBrace,
            Token::Identifier("x".to_string()),
            Token::Assignment,
            Token::Identifier("i".to_string()),
            Token::Semicolon,
            Token::CloseBrace,
            Token::EOF,
        ]
    );
}
