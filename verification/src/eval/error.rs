//! Evaluation failures.

use vstd::prelude::*;

verus! {

/// Why an evaluation failed. Every failure is handed to the caller; none is
/// retried or swallowed.
#[derive(Clone, Copy, Debug, PartialEq, Eq, Structural)]
pub enum EvalError {
    /// An identifier or shape is not registered.
    UndefinedName,
    /// A path descends through, or a shape name resolves to, something that
    /// is not a struct.
    NotAStruct,
    /// A field name is absent from a struct value or from a shape.
    UnknownField,
    /// A struct initializer names a field twice.
    FieldAlreadyInitialized,
    /// A struct initializer gives another number of fields than the shape
    /// declares.
    FieldCountMismatch,
    /// An assignment targets an identifier bound to a whole struct.
    CannotReassignStruct,
    /// An assigned value's type differs from the type of the field's value.
    TypeMismatch,
    /// The condition of a ternary is not a boolean.
    NonBooleanCondition,
    /// A builtin is called with the wrong number of arguments.
    ArityMismatch,
    /// An operator has no meaning for its operands.
    InvalidOperator,
    /// A builtin that has no evaluation rule is called.
    UnsupportedBuiltIn,
}

} // verus!
