//! A small interpreted expression language: lexer, Pratt parser and
//! tree-walking evaluator, each stated against a mathematical model.

pub mod ast;
pub mod charclass;
pub mod decimal;
pub mod display;
pub mod environment;
pub mod error;
pub mod evaluator;
pub mod lexer;
pub mod object;
pub mod parser;
pub mod scopes;
pub mod scoping;
pub mod semantics;
pub mod text;
pub mod token;
