//! Lexical scanner for a small C-like scripting language.
//!
//! The scanner turns a source text into a flat sequence of classified
//! tokens: punctuation, one- and two-character operators, quoted string
//! literals, numeric literals, identifiers and keywords, ending in a
//! single terminal [`Token::Eof`].

pub mod lexer;
pub mod scan;
pub mod token;

pub use lexer::is_skip;
pub use lexer::lex;
pub use lexer::Lexer;
pub use token::Token;
pub use token::TokenV;
