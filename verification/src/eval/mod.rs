//! The evaluator: runtime values, the definition registry and the rules
//! that reduce an expression to a value.
//!
//! [`semantics`] says what an expression means, as a function from the
//! state before to the state after and the result; [`expressions`]
//! evaluates, and each of its functions returns what the meaning gives.
//! [`laws`] holds what follows for every state and expression.

pub mod context;
pub mod entries;
pub mod error;
pub mod expressions;
pub mod laws;
pub mod load;
pub mod operators;
pub mod render;
pub mod semantics;
pub mod store;
pub mod value;
