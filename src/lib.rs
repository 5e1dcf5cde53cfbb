//! Front end of a small expression/statement language: a lexer turning
//! characters into tokens and a recursive-descent parser turning tokens into
//! syntax trees, both with verified contracts.
pub mod chars;
pub mod lexer;
pub mod parser;
pub mod token;

pub use lexer::{tokenize, LexError, Lexer};
pub use parser::{Expression, ParseError, Parser};
pub use token::Token;
