//! A compiler frontend and backend for a minimal S-expression language:
//! a lexer and parser that build a syntax tree, a static type checker for a
//! small fixed type system, and a code generator that emits equivalent
//! source text in a lower-level imperative target language.

pub mod ast;
pub mod codegen;
pub mod laws;
pub mod numerals;
pub mod parser;
pub mod typechecker;
pub mod types;
