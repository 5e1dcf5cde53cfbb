use tinylang::{tokenize, Expression, ParseError, Parser, Token};

fn parser_for(src: &str) -> Parser {
    Parser::new(tokenize(src.chars().collect()).unwrap())
}

fn parse_one(src: &str) -> Result<Expression, ParseError> {
    parser_for(src).parse()
}

fn num(text: &str) -> Box<Expression> {
    Box::new(Expression::Number(text.to_string()))
}

fn var(name: &str) -> Box<Expression> {
    Box::new(Expression::Variable(name.to_string()))
}

fn bin(l: Box<Expression>, op: Token, r: Box<Expression>) -> Box<Expression> {
    Box::new(Expression::Binary(l, op, r))
}

#[test]
fn precedence() {
    assert_eq!(
        parse_one("1 + 2 * 3;"),
        Ok(*bin(num("1"), Token::Plus, bin(num("2"), Token::Times, num("3"))))
    );
}

#[test]
fn left_associativity() {
    assert_eq!(
        parse_one("1 - 2 - 3;"),
        Ok(*bin(bin(num("1"), Token::Minus, num("2")), Token::Minus, num("3")))
    );
}

#[test]
fn grouping_overrides_precedence() {
    let group = Box::new(Expression::Grouping(bin(num("1"), Token::Plus, num("2"))));
    assert_eq!(parse_one("(1 + 2) * 3;"), Ok(*bin(group, Token::Times, num("3"))));
}

#[test]
fn if_statement() {
    assert_eq!(
        parse_one("if x < 5 { y = 1; }"),
        Ok(Expression::If(
            bin(var("x"), Token::LessThan, num("5")),
            bin(var("y"), Token::Assignment, num("1")),
        ))
    );
}

#[test]
fn for_statement() {
    assert_eq!(
        parse_one("for i = 0 : 10 { x = i; }"),
        Ok(Expression::For(
            "i".to_string(),
            num("0"),
            num("10"),
            bin(var("x"), Token::Assignment, var("i")),
        ))
    );
}

#[test]
fn malformed_input_fails() {
    assert_eq!(parse_one("if x { y = 1;"), Err(ParseError::UnexpectedEnd));
    assert_eq!(parse_one("1 +;"), Err(ParseError::InvalidPrimary));
    assert_eq!(parse_one("1 +"), Err(ParseError::UnexpectedEnd));
}

#[test]
fn completion_predicate() {
    let mut p = parser_for("x = 1; y = 2;");
    assert!(!p.finished());
    assert_eq!(p.parse(), Ok(*bin(var("x"), Token::Assignment, num("1"))));
    assert!(!p.finished());
    assert_eq!(p.parse(), Ok(*bin(var("y"), Token::Assignment, num("2"))));
    assert!(p.finished());
    assert!(p.finished());
    assert_eq!(p.parse(), Err(ParseError::UnexpectedEnd));
    assert!(p.finished());
}

#[test]
fn empty_program_is_finished() {
    let p = parser_for("");
    assert!(p.finished());
    assert!(Parser::new(Vec::new()).finished());
}

#[test]
fn error_keeps_cursor() {
    let mut p = parser_for("x y;");
    assert_eq!(p.parse(), Err(ParseError::MissingSemicolon));
    assert!(!p.finished());
    assert_eq!(p.parse(), Err(ParseError::MissingSemicolon));
}

#[test]
fn each_structural_error() {
    assert_eq!(parse_one("if x y = 1; }"), Err(ParseError::MissingOpenBrace));
    assert_eq!(parse_one("if x { y = 1; z"), Err(ParseError::MissingCloseBrace));
    assert_eq!(parse_one("for 1 = 0 : 1 { x; }"), Err(ParseError::MissingLoopVariable));
    assert_eq!(parse_one("for i 0 : 1 { x; }"), Err(ParseError::MissingAssignment));
    assert_eq!(parse_one("for i = 0 10 { x; }"), Err(ParseError::MissingColon));
    assert_eq!(parse_one("for i = 0 : 10 x; }"), Err(ParseError::MissingOpenBrace));
    assert_eq!(parse_one("for i = 0 : 10 { x; "), Err(ParseError::UnexpectedEnd));
    assert_eq!(parse_one("x = 1 y"), Err(ParseError::MissingSemicolon));
    assert_eq!(parse_one("(1 + 2;"), Err(ParseError::MissingCloseParen));
    assert_eq!(parse_one("* 2;"), Err(ParseError::InvalidPrimary));
    assert_eq!(parse_one("for"), Err(ParseError::UnexpectedEnd));
}

#[test]
fn assignment_does_not_chain() {
    assert_eq!(parse_one("a = b = c;"), Err(ParseError::MissingSemicolon));
    assert_eq!(
        parse_one("a = b == c;"),
        Ok(*bin(var("a"), Token::Assignment, bin(var("b"), Token::Equals, var("c"))))
    );
}

#[test]
fn unary_operators() {
    assert_eq!(
        parse_one("-!x;"),
        Ok(Expression::Unary(Token::Minus, Box::new(Expression::Unary(Token::Not, var("x")))))
    );
    assert_eq!(
        parse_one("-a * b;"),
        Ok(*bin(Box::new(Expression::Unary(Token::Minus, var("a"))), Token::Times, var("b")))
    );
}

#[test]
fn comparison_and_equality_levels() {
    assert_eq!(
        parse_one("a == b < c != d;"),
        Ok(*bin(
            bin(var("a"), Token::Equals, bin(var("b"), Token::LessThan, var("c"))),
            Token::NotEquals,
            var("d"),
        ))
    );
    assert_eq!(
        parse_one("a >= b <= c / d;"),
        Ok(*bin(
            bin(var("a"), Token::GreaterEqual, var("b")),
            Token::LessEqual,
            bin(var("c"), Token::Divide, var("d")),
        ))
    );
}

#[test]
fn literals() {
    assert_eq!(parse_one("true;"), Ok(Expression::Boolean(true)));
    assert_eq!(parse_one("false;"), Ok(Expression::Boolean(false)));
    assert_eq!(parse_one("2.5;"), Ok(*num("2.5")));
}

#[test]
fn nested_statements() {
    assert_eq!(
        parse_one("for i = 1 : n { if i > 2 { s = s + i; } }"),
        Ok(Expression::For(
            "i".to_string(),
            num("1"),
            var("n"),
            Box::new(Expression::If(
                bin(var("i"), Token::GreaterThan, num("2")),
                bin(var("s"), Token::Assignment, bin(var("s"), Token::Plus, var("i"))),
            )),
        ))
    );
}
