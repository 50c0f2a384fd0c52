//! A small Lisp-family interpreter: source text is read into a
//! symbolic-expression tree and evaluated against a lexically scoped
//! environment that carries a shared value stack for argument passing.

pub mod ast;
pub mod error;
pub mod evaluator;
pub mod laws;
pub mod num;
pub mod reader;
pub mod render;
pub mod round_trip;
pub mod run;
pub mod semantics;
pub mod std_lib;
