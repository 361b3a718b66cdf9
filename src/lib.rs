//! A lexer for a small general-purpose language: it turns a byte buffer into
//! an ordered stream of classified tokens, each with its exact source span.

pub mod keyword;
pub mod operator;
pub mod token;
pub mod grammar;
pub mod cursor;
pub mod scanner;
pub mod tokenizer;
pub mod laws;

pub use keyword::Keyword;
pub use operator::Operator;
pub use token::{ErrorKind, Span, Token, TokenKind};
pub use tokenizer::Tokenizer;
