//! A small interpreter for a call-only scripting language: a lexer that turns
//! source text into located tokens, a parser that turns tokens into call
//! statements, and an interpreter that turns statements into the effects a
//! host must perform. Fatal errors come back as values, and `diagnostic`
//! renders them for the user.

pub mod ast;
pub mod diagnostic;
pub mod interpreter;
pub mod lexer;
pub mod parser;
pub mod text;
pub mod tokens;
