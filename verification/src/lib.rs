//! Lexical front end of a small statically typed language: source text in,
//! classified and positioned tokens out.

pub mod error;
pub mod expressions;
pub mod grammar;
pub mod keyword;
pub mod laws;
pub mod lexer;
pub mod parser;
pub mod position;
pub mod program;
pub mod report;
pub mod statements;
pub mod text;
pub mod token;
pub mod token_type;
