//! Runtime core of the iku scripting language: a tokenizer with automatic
//! statement termination, a stack of lexical scopes, and a tree-walking
//! evaluator whose only effect is printing through an injected context.

pub mod ast;
pub mod interpreter;
pub mod laws;
pub mod lexer;
pub mod matcher;
pub mod scopes;
pub mod semantics;
pub mod text;
