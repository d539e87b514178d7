//! A textual front end for a small C-family expression language: a lexer
//! that turns source text into tokens, and a recursive-descent Pratt parser
//! that turns the token stream into an abstract syntax tree together with a
//! list of diagnostics.

pub mod token;
pub mod lexer;
pub mod errors;
pub mod ast;
pub mod parser;
