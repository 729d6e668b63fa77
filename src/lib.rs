//! A lexer for a small C-like language, with every scanning rule proved
//! against a mathematical model of the token stream.

pub mod chars;
pub mod token;
pub mod model;
pub mod lexer;
pub mod laws;

pub use lexer::{Lexer, Location};
pub use token::{LexerError, Token};
