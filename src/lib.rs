//! A small Lisp: a parser from text to atoms, a compiler that turns a
//! closure's parameters into indexed upvalue slots, and an evaluator that
//! hands raw parameters to builtins and closures.
pub mod atom;
pub mod parser;
pub mod closure;
pub mod semantics;
pub mod vm;
pub mod primitives;
pub mod laws;
