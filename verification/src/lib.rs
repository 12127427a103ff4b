//! Evaluation of infix arithmetic expressions at a point.
//!
//! The library parses an expression over numeric literals, named variables
//! and built-in functions into a syntax tree, binds variables to values in a
//! context, and drives the evaluation of the tree.  All numeric values are
//! IEEE-754 binary64 numbers carried as their 64-bit patterns (`u64`); the
//! arithmetic itself is supplied by the caller through the [`eval::FloatOps`]
//! trait, since floating-point operations cannot appear in verified code.
//! Each implementation's operations are modeled by the trait's spec members,
//! and the evaluator returns exactly the fold of that model over the tree.
//!
//! Documented policies:
//! - `log` denotes the base-10 logarithm; `ln` the natural logarithm.
//! - unary minus binds less tightly than `^`: `-x^2` parses as `-(x^2)`.
//! - caller bindings shadow the built-in constants of the same name.
//! - identifiers start with an ASCII letter and continue with ASCII letters,
//!   digits or underscores.

pub mod ast;
pub mod token;
pub mod parser;
pub mod context;
pub mod eval;
