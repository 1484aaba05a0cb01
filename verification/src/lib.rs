//! Lexical-analysis front end for a small interpreted language.
//!
//! The scanner turns raw source bytes into a stream of classified tokens,
//! reporting each lexical fault as a recoverable, precisely localized error
//! value and then continuing past it.

pub mod error;
pub mod laws;
pub mod scanner;
pub mod token;

pub use error::LexError;
pub use scanner::Lexer;
pub use token::Token;
pub use token::TokenKind;
