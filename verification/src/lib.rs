//! A small language for entity-component-system simulations.
//!
//! [`ast`] is the syntax tree, [`parser`] reads it from program text, and
//! [`eval`] holds the runtime values, the registry of shapes and the
//! evaluator. Lists and structs are aggregates in a store and values name
//! them by handle, so that every copy of such a value names the same
//! aggregate.

pub mod ast;
pub mod eval;
pub mod parser;
