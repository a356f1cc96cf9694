//! Front end of a small expression-oriented scripting language: a grammar
//! that turns source bytes into a syntax tree, the lowering of `for` loops
//! into primitive nodes, and the arithmetic rules over runtime values.
pub mod ast;
pub mod error;
pub mod arith;
pub mod equality;
pub mod text;
pub mod lexer;
pub mod expr;
pub mod desugar;
pub mod stmt;
pub mod laws;
