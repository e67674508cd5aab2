//! A small imperative scripting language: a tokenizer, a recursive-descent
//! parser that checks declarations while it parses, and a tree-walking
//! evaluator. Every stage returns a typed result, and every function is
//! verified against a mathematical model of what it computes.

pub mod errors;
pub mod grammar;
pub mod interpreter;
pub mod laws;
pub mod lexer;
pub mod parser;
pub mod scope;
pub mod semantics;
pub mod syntax;
pub mod text;
