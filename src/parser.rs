//! The parser: recursive descent over a token sequence, one statement per
//! call, with one grammar level per operator precedence.
//!
//! Each `spec_*` function states what parsing from a position yields: the
//! tree and the position just past it, or the error. The executable
//! functions are proved to compute exactly that.
use vstd::prelude::*;

use crate::token::Token;

verus! {

/// A syntax tree node. Statements and expressions share one type; a number
/// keeps the literal text of its token.
#[derive(Debug, PartialEq)]
pub enum Expression {
    Number(String),
    Variable(String),
    Boolean(bool),
    Binary(Box<Expression>, Token, Box<Expression>),
    Unary(Token, Box<Expression>),
    Grouping(Box<Expression>),
    For(String, Box<Expression>, Box<Expression>, Box<Expression>),
    If(Box<Expression>, Box<Expression>),
}

/// Why a statement could not be parsed.
#[derive(Clone, Copy, Debug, PartialEq, Eq)]
pub enum ParseError {
    /// The end of the input came where something else was required.
    UnexpectedEnd,
    MissingOpenBrace,
    MissingCloseBrace,
    MissingLoopVariable,
    MissingAssignment,
    MissingColon,
    MissingSemicolon,
    MissingCloseParen,
    /// The token cannot begin an operand.
    InvalidPrimary,
}

/// A parse outcome: the tree and the position just past it, or an error.
pub type Parsed = Result<(Expression, int), ParseError>;

/// The token at `p`; positions outside the sequence read as end of input.
pub open spec fn tok_at(t: Seq<Token>, p: int) -> Token {
    if 0 <= p < t.len() {
        t[p]
    } else {
        Token::EOF
    }
}

/// The error reported when the token at `p` is not the one required:
/// `UnexpectedEnd` at the end of the input, `e` elsewhere.
pub open spec fn fail_at(t: Seq<Token>, p: int, e: ParseError) -> ParseError {
    if tok_at(t, p) == Token::EOF {
        ParseError::UnexpectedEnd
    } else {
        e
    }
}

/// A parse that started at `p` and stopped at `q` consumed at least one
/// token and stayed within the sequence.
pub open spec fn advances(t: Seq<Token>, p: int, q: int) -> bool {
    p < q <= t.len()
}

/// The operators of binary level `lvl`: 1 equality, 2 comparison, 3 terms,
/// 4 (and above) factors.
pub open spec fn level_op(lvl: nat, tok: Token) -> bool {
    if lvl == 1 {
        tok == Token::Equals || tok == Token::NotEquals
    } else if lvl == 2 {
        tok == Token::LessThan || tok == Token::GreaterThan || tok == Token::LessEqual
            || tok == Token::GreaterEqual
    } else if lvl == 3 {
        tok == Token::Plus || tok == Token::Minus
    } else {
        tok == Token::Times || tok == Token::Divide
    }
}

/// Prefix operators.
pub open spec fn unary_op(tok: Token) -> bool {
    tok == Token::Not || tok == Token::Minus
}

/// Ordering of the grammar levels for termination: a level calls only
/// lower-ranked levels at the same position.
pub open spec fn rank(lvl: nat) -> int {
    if lvl < 4 {
        18 - 3 * lvl
    } else {
        6
    }
}

pub open spec fn spec_expression(t: Seq<Token>, p: int) -> Parsed
    decreases t.len() - p, 30int,
{
    spec_assignment(t, p)
}

/// An equality-level expression, optionally followed by one `=` and a
/// second equality-level expression (assignment does not chain).
pub open spec fn spec_assignment(t: Seq<Token>, p: int) -> Parsed
    decreases t.len() - p, 29int,
{
    match spec_binary(t, p, 1) {
        Err(e) => Err(e),
        Ok((l, q)) => if tok_at(t, q) != Token::Assignment {
            Ok((l, q))
        } else if !advances(t, p, q) {
            Err(ParseError::UnexpectedEnd)
        } else {
            match spec_binary(t, q + 1, 1) {
                Err(e) => Err(e),
                Ok((r, q2)) => Ok((Expression::Binary(Box::new(l), Token::Assignment, Box::new(r)), q2)),
            }
        },
    }
}

/// A left-associative chain of operands of level `lvl` joined by its operators.
pub open spec fn spec_binary(t: Seq<Token>, p: int, lvl: nat) -> Parsed
    decreases t.len() - p, rank(lvl),
{
    match spec_operand(t, p, lvl) {
        Err(e) => Err(e),
        Ok((l, q)) => if advances(t, p, q) {
            spec_fold(t, q, lvl, l)
        } else {
            Err(ParseError::UnexpectedEnd)
        },
    }
}

/// Continues a chain of level `lvl` at `q`, with `acc` the tree so far.
pub open spec fn spec_fold(t: Seq<Token>, q: int, lvl: nat, acc: Expression) -> Parsed
    decreases t.len() - q, 0int,
{
    if level_op(lvl, tok_at(t, q)) && 0 <= q < t.len() {
        match spec_operand(t, q + 1, lvl) {
            Err(e) => Err(e),
            Ok((r, q2)) => if advances(t, q, q2) {
                spec_fold(t, q2, lvl, Expression::Binary(Box::new(acc), t[q], Box::new(r)))
            } else {
                Err(ParseError::UnexpectedEnd)
            },
        }
    } else {
        Ok((acc, q))
    }
}

/// An operand of level `lvl`: an expression of the next level up.
pub open spec fn spec_operand(t: Seq<Token>, p: int, lvl: nat) -> Parsed
    decreases t.len() - p, rank(lvl) - 1,
{
    if lvl < 4 {
        spec_binary(t, p, lvl + 1)
    } else {
        spec_unary(t, p)
    }
}

pub open spec fn spec_unary(t: Seq<Token>, p: int) -> Parsed
    decreases t.len() - p, 2int,
{
    if unary_op(tok_at(t, p)) && 0 <= p < t.len() {
        match spec_unary(t, p + 1) {
            Err(e) => Err(e),
            Ok((e, q)) => Ok((Expression::Unary(t[p], Box::new(e)), q)),
        }
    } else {
        spec_primary(t, p)
    }
}

pub open spec fn spec_primary(t: Seq<Token>, p: int) -> Parsed
    decreases t.len() - p, 1int,
{
    match tok_at(t, p) {
        Token::False => Ok((Expression::Boolean(false), p + 1)),
        Token::True => Ok((Expression::Boolean(true), p + 1)),
        Token::Number(v) => Ok((Expression::Number(v), p + 1)),
        Token::Identifier(v) => Ok((Expression::Variable(v), p + 1)),
        Token::OpenParen => match spec_expression(t, p + 1) {
            Err(e) => Err(e),
            Ok((e, q)) => if tok_at(t, q) == Token::CloseParen {
                Ok((Expression::Grouping(Box::new(e)), q + 1))
            } else {
                Err(fail_at(t, q, ParseError::MissingCloseParen))
            },
        },
        Token::EOF => Err(ParseError::UnexpectedEnd),
        _ => Err(ParseError::InvalidPrimary),
    }
}

pub open spec fn spec_statement(t: Seq<Token>, p: int) -> Parsed
    decreases t.len() - p, 40int,
{
    if tok_at(t, p) == Token::If {
        spec_if(t, p)
    } else if tok_at(t, p) == Token::For {
        spec_for(t, p)
    } else {
        spec_expression_statement(t, p)
    }
}

/// `if` (at `p`), a condition, `{`, one statement, `}`.
pub open spec fn spec_if(t: Seq<Token>, p: int) -> Parsed
    decreases t.len() - p, 39int,
{
    if !(0 <= p < t.len()) {
        Err(ParseError::UnexpectedEnd)
    } else {
        match spec_expression(t, p + 1) {
            Err(e) => Err(e),
            Ok((cond, q)) => if tok_at(t, q) != Token::OpenBrace {
                Err(fail_at(t, q, ParseError::MissingOpenBrace))
            } else if !advances(t, p, q) {
                Err(ParseError::UnexpectedEnd)
            } else {
                match spec_statement(t, q + 1) {
                    Err(e) => Err(e),
                    Ok((body, q2)) => if tok_at(t, q2) != Token::CloseBrace {
                        Err(fail_at(t, q2, ParseError::MissingCloseBrace))
                    } else {
                        Ok((Expression::If(Box::new(cond), Box::new(body)), q2 + 1))
                    },
                }
            },
        }
    }
}

/// `for` (at `p`), an identifier, `=`, a start expression, `:`, an end
/// expression, `{`, one statement, `}`.
pub open spec fn spec_for(t: Seq<Token>, p: int) -> Parsed
    decreases t.len() - p, 39int,
{
    if !(0 <= p < t.len()) {
        Err(ParseError::UnexpectedEnd)
    } else {
        match tok_at(t, p + 1) {
            Token::Identifier(name) => if tok_at(t, p + 2) != Token::Assignment {
                Err(fail_at(t, p + 2, ParseError::MissingAssignment))
            } else {
                match spec_expression(t, p + 3) {
                    Err(e) => Err(e),
                    Ok((start, q1)) => if tok_at(t, q1) != Token::Colon {
                        Err(fail_at(t, q1, ParseError::MissingColon))
                    } else if !advances(t, p, q1) {
                        Err(ParseError::UnexpectedEnd)
                    } else {
                        match spec_expression(t, q1 + 1) {
                            Err(e) => Err(e),
                            Ok((end, q2)) => if tok_at(t, q2) != Token::OpenBrace {
                                Err(fail_at(t, q2, ParseError::MissingOpenBrace))
                            } else if !advances(t, p, q2) {
                                Err(ParseError::UnexpectedEnd)
                            } else {
                                match spec_statement(t, q2 + 1) {
                                    Err(e) => Err(e),
                                    Ok((body, q3)) => if tok_at(t, q3) != Token::CloseBrace {
                                        Err(fail_at(t, q3, ParseError::MissingCloseBrace))
                                    } else {
                                        Ok(
                                            (
                                                Expression::For(
                                                    name,
                                                    Box::new(start),
                                                    Box::new(end),
                                                    Box::new(body),
                                                ),
                                                q3 + 1,
                                            ),
                                        )
                                    },
                                }
                            },
                        }
                    },
                }
            },
            _ => Err(fail_at(t, p + 1, ParseError::MissingLoopVariable)),
        }
    }
}

/// An expression followed by `;`.
pub open spec fn spec_expression_statement(t: Seq<Token>, p: int) -> Parsed
    decreases t.len() - p, 38int,
{
    match spec_expression(t, p) {
        Err(e) => Err(e),
        Ok((e, q)) => if tok_at(t, q) == Token::Semicolon {
            Ok((e, q + 1))
        } else {
            Err(fail_at(t, q, ParseError::MissingSemicolon))
        },
    }
}

} // verus!

verus! {

/// The outcome of an executable parse, read with integer positions.
pub open spec fn lift(r: Result<(Expression, usize), ParseError>) -> Parsed {
    match r {
        Ok((e, q)) => Ok((e, q as int)),
        Err(e) => Err(e),
    }
}

/// A successful parse from `p` consumed at least one token.
pub open spec fn progress(t: Seq<Token>, p: int, r: Result<(Expression, usize), ParseError>) -> bool {
    match r {
        Ok((_, q)) => advances(t, p, q as int),
        Err(_) => true,
    }
}

fn fail(toks: &Vec<Token>, p: usize, e: ParseError) -> (r: ParseError)
    ensures
        r == fail_at(toks@, p as int, e),
{
    if p >= toks.len() || matches!(toks[p], Token::EOF) {
        ParseError::UnexpectedEnd
    } else {
        e
    }
}

fn is_at(toks: &Vec<Token>, p: usize, want: Token) -> (r: bool)
    requires
        !(want is Identifier),
        !(want is Number),
    ensures
        r == (tok_at(toks@, p as int) == want),
{
    if p >= toks.len() {
        return matches!(want, Token::EOF);
    }
    let t = &toks[p];
    match want {
        Token::EOF => matches!(t, Token::EOF),
        Token::True => matches!(t, Token::True),
        Token::False => matches!(t, Token::False),
        Token::If => matches!(t, Token::If),
        Token::For => matches!(t, Token::For),
        Token::Print => matches!(t, Token::Print),
        Token::Comment => matches!(t, Token::Comment),
        Token::Dot => matches!(t, Token::Dot),
        Token::Comma => matches!(t, Token::Comma),
        Token::Colon => matches!(t, Token::Colon),
        Token::Semicolon => matches!(t, Token::Semicolon),
        Token::OpenParen => matches!(t, Token::OpenParen),
        Token::CloseParen => matches!(t, Token::CloseParen),
        Token::OpenBracket => matches!(t, Token::OpenBracket),
        Token::CloseBracket => matches!(t, Token::CloseBracket),
        Token::OpenBrace => matches!(t, Token::OpenBrace),
        Token::CloseBrace => matches!(t, Token::CloseBrace),
        Token::Plus => matches!(t, Token::Plus),
        Token::Minus => matches!(t, Token::Minus),
        Token::Times => matches!(t, Token::Times),
        Token::Divide => matches!(t, Token::Divide),
        Token::Assignment => matches!(t, Token::Assignment),
        Token::Equals => matches!(t, Token::Equals),
        Token::NotEquals => matches!(t, Token::NotEquals),
        Token::Not => matches!(t, Token::Not),
        Token::LessThan => matches!(t, Token::LessThan),
        Token::GreaterThan => matches!(t, Token::GreaterThan),
        Token::LessEqual => matches!(t, Token::LessEqual),
        Token::GreaterEqual => matches!(t, Token::GreaterEqual),
        Token::Unknown => matches!(t, Token::Unknown),
        _ => false,
    }
}

/// Whether the token at `p` is an operator of binary level `lvl`, and a
/// copy of it when it is.
fn level_op_at(toks: &Vec<Token>, p: usize, lvl: u8) -> (r: Option<Token>)
    ensures
        match r {
            Some(op) => level_op(lvl as nat, tok_at(toks@, p as int)) && p < toks@.len() && op
                == toks@[p as int],
            None => !level_op(lvl as nat, tok_at(toks@, p as int)),
        },
{
    if p >= toks.len() {
        return None;
    }
    match &toks[p] {
        Token::Equals if lvl == 1 => Some(Token::Equals),
        Token::NotEquals if lvl == 1 => Some(Token::NotEquals),
        Token::LessThan if lvl == 2 => Some(Token::LessThan),
        Token::GreaterThan if lvl == 2 => Some(Token::GreaterThan),
        Token::LessEqual if lvl == 2 => Some(Token::LessEqual),
        Token::GreaterEqual if lvl == 2 => Some(Token::GreaterEqual),
        Token::Plus if lvl == 3 => Some(Token::Plus),
        Token::Minus if lvl == 3 => Some(Token::Minus),
        Token::Times if lvl != 1 && lvl != 2 && lvl != 3 => Some(Token::Times),
        Token::Divide if lvl != 1 && lvl != 2 && lvl != 3 => Some(Token::Divide),
        _ => None,
    }
}

fn parse_expression(toks: &Vec<Token>, pos: usize) -> (r: Result<(Expression, usize), ParseError>)
    requires
        toks@.len() <= usize::MAX,
        pos <= toks@.len(),
    ensures
        lift(r) == spec_expression(toks@, pos as int),
        progress(toks@, pos as int, r),
    decreases toks@.len() - pos, 30int,
{
    parse_assignment(toks, pos)
}

fn parse_assignment(toks: &Vec<Token>, pos: usize) -> (r: Result<(Expression, usize), ParseError>)
    requires
        toks@.len() <= usize::MAX,
        pos <= toks@.len(),
    ensures
        lift(r) == spec_assignment(toks@, pos as int),
        progress(toks@, pos as int, r),
    decreases toks@.len() - pos, 29int,
{
    let (left, q) = match parse_equality(toks, pos) {
        Ok(x) => x,
        Err(e) => return Err(e),
    };
    if !is_at(toks, q, Token::Assignment) {
        return Ok((left, q));
    }
    let (right, q2) = match parse_equality(toks, q + 1) {
        Ok(x) => x,
        Err(e) => return Err(e),
    };
    Ok((Expression::Binary(Box::new(left), Token::Assignment, Box::new(right)), q2))
}

fn parse_equality(toks: &Vec<Token>, pos: usize) -> (r: Result<(Expression, usize), ParseError>)
    requires
        toks@.len() <= usize::MAX,
        pos <= toks@.len(),
    ensures
        lift(r) == spec_binary(toks@, pos as int, 1),
        progress(toks@, pos as int, r),
    decreases toks@.len() - pos, rank(1) + 1,
{
    parse_binary(toks, pos, 1)
}

/// A chain of operands of level `lvl` joined by that level's operators,
/// folded to the left.
fn parse_binary(toks: &Vec<Token>, pos: usize, lvl: u8) -> (r: Result<(Expression, usize), ParseError>)
    requires
        toks@.len() <= usize::MAX,
        pos <= toks@.len(),
        1 <= lvl <= 4,
    ensures
        lift(r) == spec_binary(toks@, pos as int, lvl as nat),
        progress(toks@, pos as int, r),
    decreases toks@.len() - pos, rank(lvl as nat),
{
    let (mut acc, mut q) = match parse_operand(toks, pos, lvl) {
        Ok(x) => x,
        Err(e) => return Err(e),
    };
    while q < toks.len()
        invariant
            1 <= lvl <= 4,
            pos < q <= toks@.len(),
            spec_binary(toks@, pos as int, lvl as nat) == spec_fold(toks@, q as int, lvl as nat, acc),
        ensures
            pos < q <= toks@.len(),
            spec_binary(toks@, pos as int, lvl as nat) == Ok::<(Expression, int), ParseError>((acc, q as int)),
        decreases toks@.len() - q,
    {
        let op = match level_op_at(toks, q, lvl) {
            Some(op) => op,
            None => {
                assert(spec_fold(toks@, q as int, lvl as nat, acc) == Ok::<(Expression, int), ParseError>((acc, q as int)));
                break;
            },
        };
        let (right, q2) = match parse_operand(toks, q + 1, lvl) {
            Ok(x) => x,
            Err(e) => return Err(e),
        };
        acc = Expression::Binary(Box::new(acc), op, Box::new(right));
        q = q2;
    }
    Ok((acc, q))
}

fn parse_operand(toks: &Vec<Token>, pos: usize, lvl: u8) -> (r: Result<(Expression, usize), ParseError>)
    requires
        toks@.len() <= usize::MAX,
        pos <= toks@.len(),
        1 <= lvl <= 4,
    ensures
        lift(r) == spec_operand(toks@, pos as int, lvl as nat),
        progress(toks@, pos as int, r),
    decreases toks@.len() - pos, rank(lvl as nat) - 1,
{
    if lvl == 1 {
        parse_comparison(toks, pos)
    } else if lvl == 2 {
        parse_term(toks, pos)
    } else if lvl == 3 {
        parse_factor(toks, pos)
    } else {
        parse_unary(toks, pos)
    }
}

fn parse_comparison(toks: &Vec<Token>, pos: usize) -> (r: Result<(Expression, usize), ParseError>)
    requires
        toks@.len() <= usize::MAX,
        pos <= toks@.len(),
    ensures
        lift(r) == spec_binary(toks@, pos as int, 2),
        progress(toks@, pos as int, r),
    decreases toks@.len() - pos, rank(2) + 1,
{
    parse_binary(toks, pos, 2)
}

fn parse_term(toks: &Vec<Token>, pos: usize) -> (r: Result<(Expression, usize), ParseError>)
    requires
        toks@.len() <= usize::MAX,
        pos <= toks@.len(),
    ensures
        lift(r) == spec_binary(toks@, pos as int, 3),
        progress(toks@, pos as int, r),
    decreases toks@.len() - pos, rank(3) + 1,
{
    parse_binary(toks, pos, 3)
}

fn parse_factor(toks: &Vec<Token>, pos: usize) -> (r: Result<(Expression, usize), ParseError>)
    requires
        toks@.len() <= usize::MAX,
        pos <= toks@.len(),
    ensures
        lift(r) == spec_binary(toks@, pos as int, 4),
        progress(toks@, pos as int, r),
    decreases toks@.len() - pos, rank(4) + 1,
{
    parse_binary(toks, pos, 4)
}

fn parse_unary(toks: &Vec<Token>, pos: usize) -> (r: Result<(Expression, usize), ParseError>)
    requires
        toks@.len() <= usize::MAX,
        pos <= toks@.len(),
    ensures
        lift(r) == spec_unary(toks@, pos as int),
        progress(toks@, pos as int, r),
    decreases toks@.len() - pos, 2int,
{
    if pos < toks.len() {
        let op = match &toks[pos] {
            Token::Not => Some(Token::Not),
            Token::Minus => Some(Token::Minus),
            _ => None,
        };
        if let Some(op) = op {
            let (operand, q) = match parse_unary(toks, pos + 1) {
                Ok(x) => x,
                Err(e) => return Err(e),
            };
            return Ok((Expression::Unary(op, Box::new(operand)), q));
        }
    }
    parse_primary(toks, pos)
}

fn parse_primary(toks: &Vec<Token>, pos: usize) -> (r: Result<(Expression, usize), ParseError>)
    requires
        toks@.len() <= usize::MAX,
        pos <= toks@.len(),
    ensures
        lift(r) == spec_primary(toks@, pos as int),
        progress(toks@, pos as int, r),
    decreases toks@.len() - pos, 1int,
{
    if pos >= toks.len() {
        return Err(ParseError::UnexpectedEnd);
    }
    match &toks[pos] {
        Token::False => Ok((Expression::Boolean(false), pos + 1)),
        Token::True => Ok((Expression::Boolean(true), pos + 1)),
        Token::Number(v) => Ok((Expression::Number(v.clone()), pos + 1)),
        Token::Identifier(v) => Ok((Expression::Variable(v.clone()), pos + 1)),
        Token::OpenParen => {
            let (inner, q) = match parse_expression(toks, pos + 1) {
                Ok(x) => x,
                Err(e) => return Err(e),
            };
            if is_at(toks, q, Token::CloseParen) {
                Ok((Expression::Grouping(Box::new(inner)), q + 1))
            } else {
                Err(fail(toks, q, ParseError::MissingCloseParen))
            }
        },
        Token::EOF => Err(ParseError::UnexpectedEnd),
        _ => Err(ParseError::InvalidPrimary),
    }
}

fn parse_statement(toks: &Vec<Token>, pos: usize) -> (r: Result<(Expression, usize), ParseError>)
    requires
        toks@.len() <= usize::MAX,
        pos <= toks@.len(),
    ensures
        lift(r) == spec_statement(toks@, pos as int),
        progress(toks@, pos as int, r),
    decreases toks@.len() - pos, 40int,
{
    if is_at(toks, pos, Token::If) {
        parse_if(toks, pos)
    } else if is_at(toks, pos, Token::For) {
        parse_for(toks, pos)
    } else {
        parse_expression_statement(toks, pos)
    }
}

fn parse_if(toks: &Vec<Token>, pos: usize) -> (r: Result<(Expression, usize), ParseError>)
    requires
        toks@.len() <= usize::MAX,
        pos < toks@.len(),
    ensures
        lift(r) == spec_if(toks@, pos as int),
        progress(toks@, pos as int, r),
    decreases toks@.len() - pos, 39int,
{
    let (cond, q) = match parse_expression(toks, pos + 1) {
        Ok(x) => x,
        Err(e) => return Err(e),
    };
    if !is_at(toks, q, Token::OpenBrace) {
        return Err(fail(toks, q, ParseError::MissingOpenBrace));
    }
    let (body, q2) = match parse_statement(toks, q + 1) {
        Ok(x) => x,
        Err(e) => return Err(e),
    };
    if !is_at(toks, q2, Token::CloseBrace) {
        return Err(fail(toks, q2, ParseError::MissingCloseBrace));
    }
    Ok((Expression::If(Box::new(cond), Box::new(body)), q2 + 1))
}

fn parse_for(toks: &Vec<Token>, pos: usize) -> (r: Result<(Expression, usize), ParseError>)
    requires
        toks@.len() <= usize::MAX,
        pos < toks@.len(),
    ensures
        lift(r) == spec_for(toks@, pos as int),
        progress(toks@, pos as int, r),
    decreases toks@.len() - pos, 39int,
{
    let name = if pos + 1 < toks.len() {
        match &toks[pos + 1] {
            Token::Identifier(v) => v.clone(),
            _ => return Err(fail(toks, pos + 1, ParseError::MissingLoopVariable)),
        }
    } else {
        return Err(ParseError::UnexpectedEnd);
    };
    if !is_at(toks, pos + 2, Token::Assignment) {
        return Err(fail(toks, pos + 2, ParseError::MissingAssignment));
    }
    let (start, q1) = match parse_expression(toks, pos + 3) {
        Ok(x) => x,
        Err(e) => return Err(e),
    };
    if !is_at(toks, q1, Token::Colon) {
        return Err(fail(toks, q1, ParseError::MissingColon));
    }
    let (end, q2) = match parse_expression(toks, q1 + 1) {
        Ok(x) => x,
        Err(e) => return Err(e),
    };
    if !is_at(toks, q2, Token::OpenBrace) {
        return Err(fail(toks, q2, ParseError::MissingOpenBrace));
    }
    let (body, q3) = match parse_statement(toks, q2 + 1) {
        Ok(x) => x,
        Err(e) => return Err(e),
    };
    if !is_at(toks, q3, Token::CloseBrace) {
        return Err(fail(toks, q3, ParseError::MissingCloseBrace));
    }
    Ok((Expression::For(name, Box::new(start), Box::new(end), Box::new(body)), q3 + 1))
}

fn parse_expression_statement(toks: &Vec<Token>, pos: usize) -> (r: Result<(Expression, usize), ParseError>)
    requires
        toks@.len() <= usize::MAX,
        pos <= toks@.len(),
    ensures
        lift(r) == spec_expression_statement(toks@, pos as int),
        progress(toks@, pos as int, r),
    decreases toks@.len() - pos, 38int,
{
    let (expr, q) = match parse_expression(toks, pos) {
        Ok(x) => x,
        Err(e) => return Err(e),
    };
    if is_at(toks, q, Token::Semicolon) {
        Ok((expr, q + 1))
    } else {
        Err(fail(toks, q, ParseError::MissingSemicolon))
    }
}

} // verus!

verus! {

/// A cursor over a token sequence (comments removed, end-of-input last)
/// producing one statement per call.
pub struct Parser {
    input: Vec<Token>,
    idx: usize,
}

impl Parser {
    /// The tokens being parsed.
    pub closed spec fn tokens(&self) -> Seq<Token> {
        self.input@
    }

    /// Position of the next unread token.
    pub closed spec fn cursor(&self) -> int {
        self.idx as int
    }

    pub open spec fn wf(&self) -> bool {
        0 <= self.cursor() <= self.tokens().len()
    }

    pub fn new(input: Vec<Token>) -> (r: Parser)
        ensures
            r.tokens() == input@,
            r.cursor() == 0,
            r.wf(),
    {
        Parser { input, idx: 0 }
    }

    /// Parses one statement at the cursor: an `if`, a `for`, or an
    /// expression followed by `;`. On success the cursor moves just past
    /// the statement; on error it stays where it was.
    pub fn parse(&mut self) -> (r: Result<Expression, ParseError>)
        requires
            old(self).wf(),
        ensures
            final(self).wf(),
            final(self).tokens() == old(self).tokens(),
            match spec_statement(old(self).tokens(), old(self).cursor()) {
                Ok((e, q)) => r == Ok::<Expression, ParseError>(e) && final(self).cursor() == q,
                Err(err) => r == Err::<Expression, ParseError>(err) && final(self).cursor()
                    == old(self).cursor(),
            },
    {
        // the vector's length fits in a usize
        let _ = self.input.len();
        match parse_statement(&self.input, self.idx) {
            Ok((e, q)) => {
                self.idx = q;
                Ok(e)
            },
            Err(err) => Err(err),
        }
    }

    /// Whether the token under the cursor is the end of the input.
    pub fn finished(&self) -> (r: bool)
        ensures
            r == (tok_at(self.tokens(), self.cursor()) == Token::EOF),
    {
        is_at(&self.input, self.idx, Token::EOF)
    }
}

/// Once the cursor stands at the end of the input, parsing a statement
/// fails with `UnexpectedEnd`, so the cursor does not move and the parser
/// stays finished however often it is asked.
pub proof fn lemma_finished_stays(t: Seq<Token>, p: int)
    requires
        tok_at(t, p) == Token::EOF,
    ensures
        spec_statement(t, p) == Err::<(Expression, int), ParseError>(ParseError::UnexpectedEnd),
{
    let end = Err::<(Expression, int), ParseError>(ParseError::UnexpectedEnd);
    assert(spec_primary(t, p) == end);
    assert(spec_unary(t, p) == end);
    assert(spec_operand(t, p, 4) == end);
    assert(spec_binary(t, p, 4) == end);
    assert(spec_operand(t, p, 3) == end);
    assert(spec_binary(t, p, 3) == end);
    assert(spec_operand(t, p, 2) == end);
    assert(spec_binary(t, p, 2) == end);
    assert(spec_operand(t, p, 1) == end);
    assert(spec_binary(t, p, 1) == end);
    assert(spec_assignment(t, p) == end);
    assert(spec_expression(t, p) == end);
    assert(spec_expression_statement(t, p) == end);
}

} // verus!
