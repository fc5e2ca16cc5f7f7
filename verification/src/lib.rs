//! Reverse-mode automatic differentiation as a source-to-source compiler.
//!
//! A restricted, expression-oriented function is lowered into an SSA-style
//! intermediate representation, analyzed for constancy, and translated into
//! the text of a new function that computes the original result together
//! with machinery for reverse-mode (adjoint) derivatives. A dual-number
//! runtime executes such functions: a context owns an index-based arena of
//! (primal, adjoint) slots and an ordered tape replayed in reverse.

pub mod error;
pub mod ir;
pub mod lex;
pub mod ast;
pub mod syntax;
pub mod parse;
pub mod codegen;
pub mod text;
pub mod runtime;
pub mod cpp_runtime;
