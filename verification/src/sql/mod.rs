//! SQL text tools: lexer, parser, syntax tree, formatter and schema visitor.
pub mod token;
pub mod lexer;
pub mod ast;
pub mod grammar;
pub mod parser;
pub mod format;
pub mod visitor;
pub mod laws;
