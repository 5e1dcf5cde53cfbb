use vstd::prelude::*;

verus! {

/// A lexical token. Numbers carry the literal text that was scanned
/// (digits with at most one `.`), which reads as a decimal value.
#[derive(Clone, Debug, PartialEq)]
pub enum Token {
    EOF,
    True,
    False,
    If,
    For,
    Print,
    Comment,
    Dot,
    Comma,
    Colon,
    Semicolon,
    OpenParen,
    CloseParen,
    OpenBracket,
    CloseBracket,
    OpenBrace,
    CloseBrace,
    Plus,
    Minus,
    Times,
    Divide,
    Assignment,
    Equals,
    NotEquals,
    Not,
    LessThan,
    GreaterThan,
    LessEqual,
    GreaterEqual,
    Identifier(String),
    Number(String),
    Unknown,
}

} // verus!
