//! Front end of a small dynamically typed expression language: a scanner that
//! turns source text into located tokens, a precedence-climbing parser that
//! builds an expression tree, and a tree-walking evaluator.

pub mod number;
mod text;
pub mod tokenizer;
pub mod parser;
pub mod interpreter;
