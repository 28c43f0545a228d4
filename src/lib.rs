//! Front end of a small expression-oriented scripting language: a lexer that
//! turns source text into tokens, and a precedence-climbing parser that turns
//! tokens into a syntax tree, with diagnostics anchored to character offsets.
pub mod chars;
pub mod token;
pub mod reader_state;
pub mod scan;
pub mod reader;
pub mod operator;
pub mod lexer;
pub mod lexer_laws;
pub mod error;
pub mod span;
pub mod ast;
pub mod grammar;
pub mod parser;
pub mod from_token;
