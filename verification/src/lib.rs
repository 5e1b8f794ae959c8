//! A small expression-and-statement language front end and evaluator:
//! a tokenizer turns source text into tokens, a recursive-descent parser
//! builds an abstract syntax tree, and a tree-walking evaluator executes
//! it against a stack of lexical scopes.

pub mod ast;
pub mod cursor;
pub mod decimal;
pub mod error;
pub mod interpreter;
pub mod lexer;
pub mod parser;
pub mod program;
pub mod scope;
pub mod span;
pub mod text;
pub mod token;
pub mod value;

pub use span::Span;
