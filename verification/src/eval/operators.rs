//! What the operators compute.

use crate::ast::expressions::{BinOp, UnOp};
use crate::eval::entries::same_text;
use crate::eval::error::EvalError;
use crate::eval::value::{Value, Var};
use vstd::prelude::*;
use vstd::string::StringExecFns;

verus! {

/// An integer as a value, where it fits in 64 bits; `InvalidOperator` where
/// it does not.
pub open spec fn int_result(i: int) -> Result<Value, EvalError> {
    if i64::MIN <= i <= i64::MAX {
        Ok(Value::Int(i as i64))
    } else {
        Err(EvalError::InvalidOperator)
    }
}

/// The quotient of a division that rounds towards zero. `y` is not zero.
pub open spec fn quotient(x: int, y: int) -> int {
    if x >= 0 && y > 0 {
        x / y
    } else if x < 0 && y < 0 {
        (-x) / (-y)
    } else if x < 0 {
        -((-x) / y)
    } else {
        -(x / (-y))
    }
}

/// The remainder of a division that rounds towards zero: it has the sign of
/// `x`. `y` is not zero.
pub open spec fn remainder(x: int, y: int) -> int {
    let divisor = if y < 0 {
        -y
    } else {
        y
    };
    if x >= 0 {
        x % divisor
    } else {
        -((-x) % divisor)
    }
}

/// A binary operator on two integers.
///
/// Arithmetic is exact: a result outside 64 bits, a division by zero and a
/// shift by less than 0 or more than 63 have no value. `And` and `Or` are
/// for booleans only.
pub open spec fn int_op(op: BinOp, x: i64, y: i64) -> Result<Value, EvalError> {
    match op {
        BinOp::Add => int_result(x + y),
        BinOp::Sub => int_result(x - y),
        BinOp::Mul => int_result(x * y),
        BinOp::Div => if y == 0 {
            Err(EvalError::InvalidOperator)
        } else {
            int_result(quotient(x as int, y as int))
        },
        BinOp::Mod => if y == 0 || (x == i64::MIN && y == -1) {
            Err(EvalError::InvalidOperator)
        } else {
            int_result(remainder(x as int, y as int))
        },
        BinOp::Xor => Ok(Value::Int(x ^ y)),
        BinOp::BitAnd => Ok(Value::Int(x & y)),
        BinOp::BitOr => Ok(Value::Int(x | y)),
        BinOp::Shl => if 0 <= y < 64 {
            Ok(Value::Int(x << (y as u32)))
        } else {
            Err(EvalError::InvalidOperator)
        },
        BinOp::Shr => if 0 <= y < 64 {
            Ok(Value::Int(x >> (y as u32)))
        } else {
            Err(EvalError::InvalidOperator)
        },
        BinOp::Leq => Ok(Value::Bool(x <= y)),
        BinOp::Geq => Ok(Value::Bool(x >= y)),
        BinOp::Lt => Ok(Value::Bool(x < y)),
        BinOp::Gt => Ok(Value::Bool(x > y)),
        BinOp::Eq => Ok(Value::Bool(x == y)),
        BinOp::Neq => Ok(Value::Bool(x != y)),
        BinOp::And | BinOp::Or => Err(EvalError::InvalidOperator),
    }
}

/// A binary operator on two booleans: the logical operators and equality.
pub open spec fn bool_op(op: BinOp, x: bool, y: bool) -> Result<Value, EvalError> {
    match op {
        BinOp::And | BinOp::BitAnd => Ok(Value::Bool(x && y)),
        BinOp::Or | BinOp::BitOr => Ok(Value::Bool(x || y)),
        BinOp::Xor | BinOp::Neq => Ok(Value::Bool(x != y)),
        BinOp::Eq => Ok(Value::Bool(x == y)),
        _ => Err(EvalError::InvalidOperator),
    }
}

/// A binary operator on two characters: the comparisons, by code point.
pub open spec fn char_op(op: BinOp, x: char, y: char) -> Result<Value, EvalError> {
    match op {
        BinOp::Leq => Ok(Value::Bool(x as u32 <= y as u32)),
        BinOp::Geq => Ok(Value::Bool(x as u32 >= y as u32)),
        BinOp::Lt => Ok(Value::Bool((x as u32) < (y as u32))),
        BinOp::Gt => Ok(Value::Bool(x as u32 > y as u32)),
        BinOp::Eq => Ok(Value::Bool(x == y)),
        BinOp::Neq => Ok(Value::Bool(x != y)),
        _ => Err(EvalError::InvalidOperator),
    }
}

/// A binary operator on two strings: `Add` joins them, `Eq` and `Neq`
/// compare them.
pub open spec fn text_op(op: BinOp, x: Seq<char>, y: Seq<char>) -> Result<Value, EvalError> {
    match op {
        BinOp::Add => Ok(Value::Text(x + y)),
        BinOp::Eq => Ok(Value::Bool(x == y)),
        BinOp::Neq => Ok(Value::Bool(x != y)),
        _ => Err(EvalError::InvalidOperator),
    }
}

/// A binary operator on two values. Operands of two different types, and
/// operands that are void, floats or aggregates, have no operator.
pub open spec fn bin_op(op: BinOp, a: Value, b: Value) -> Result<Value, EvalError> {
    match (a, b) {
        (Value::Int(x), Value::Int(y)) => int_op(op, x, y),
        (Value::Bool(x), Value::Bool(y)) => bool_op(op, x, y),
        (Value::Char(x), Value::Char(y)) => char_op(op, x, y),
        (Value::Text(x), Value::Text(y)) => text_op(op, x, y),
        _ => Err(EvalError::InvalidOperator),
    }
}

/// A unary operator on a value: `Pos`, `Neg` and `BitNot` on an integer,
/// `Not` on a boolean.
pub open spec fn un_op(op: UnOp, a: Value) -> Result<Value, EvalError> {
    match (op, a) {
        (UnOp::Pos, Value::Int(x)) => Ok(Value::Int(x)),
        (UnOp::Neg, Value::Int(x)) => int_result(-x),
        (UnOp::BitNot, Value::Int(x)) => Ok(Value::Int(!x)),
        (UnOp::Not, Value::Bool(x)) => Ok(Value::Bool(!x)),
        _ => Err(EvalError::InvalidOperator),
    }
}

/// The model of a result that holds a runtime value.
pub open spec fn result_view(r: Result<Var, EvalError>) -> Result<Value, EvalError> {
    match r {
        Ok(v) => Ok(v@),
        Err(e) => Err(e),
    }
}

fn checked(r: Option<i64>) -> (out: Result<Var, EvalError>)
    ensures
        result_view(out) == match r {
            Some(i) => Ok::<Value, EvalError>(Value::Int(i)),
            None => Err(EvalError::InvalidOperator),
        },
{
    match r {
        Some(i) => Ok(Var::Int(i)),
        None => Err(EvalError::InvalidOperator),
    }
}

fn apply_int(op: BinOp, x: i64, y: i64) -> (out: Result<Var, EvalError>)
    ensures
        result_view(out) == int_op(op, x, y),
{
    match op {
        BinOp::Add => checked(x.checked_add(y)),
        BinOp::Sub => checked(x.checked_sub(y)),
        BinOp::Mul => checked(x.checked_mul(y)),
        BinOp::Div => checked(x.checked_div(y)),
        BinOp::Mod => checked(x.checked_rem(y)),
        BinOp::Xor => Ok(Var::Int(x ^ y)),
        BinOp::BitAnd => Ok(Var::Int(x & y)),
        BinOp::BitOr => Ok(Var::Int(x | y)),
        BinOp::Shl => {
            if 0 <= y && y < 64 {
                Ok(Var::Int(x.wrapping_shl(y as u32)))
            } else {
                Err(EvalError::InvalidOperator)
            }
        },
        BinOp::Shr => {
            if 0 <= y && y < 64 {
                Ok(Var::Int(x.wrapping_shr(y as u32)))
            } else {
                Err(EvalError::InvalidOperator)
            }
        },
        BinOp::Leq => Ok(Var::Bool(x <= y)),
        BinOp::Geq => Ok(Var::Bool(x >= y)),
        BinOp::Lt => Ok(Var::Bool(x < y)),
        BinOp::Gt => Ok(Var::Bool(x > y)),
        BinOp::Eq => Ok(Var::Bool(x == y)),
        BinOp::Neq => Ok(Var::Bool(x != y)),
        BinOp::And => Err(EvalError::InvalidOperator),
        BinOp::Or => Err(EvalError::InvalidOperator),
    }
}

fn apply_bool(op: BinOp, x: bool, y: bool) -> (out: Result<Var, EvalError>)
    ensures
        result_view(out) == bool_op(op, x, y),
{
    match op {
        BinOp::And => Ok(Var::Bool(x && y)),
        BinOp::BitAnd => Ok(Var::Bool(x && y)),
        BinOp::Or => Ok(Var::Bool(x || y)),
        BinOp::BitOr => Ok(Var::Bool(x || y)),
        BinOp::Xor => Ok(Var::Bool(x != y)),
        BinOp::Neq => Ok(Var::Bool(x != y)),
        BinOp::Eq => Ok(Var::Bool(x == y)),
        _ => Err(EvalError::InvalidOperator),
    }
}

fn apply_char(op: BinOp, x: char, y: char) -> (out: Result<Var, EvalError>)
    ensures
        result_view(out) == char_op(op, x, y),
{
    match op {
        BinOp::Leq => Ok(Var::Bool(x as u32 <= y as u32)),
        BinOp::Geq => Ok(Var::Bool(x as u32 >= y as u32)),
        BinOp::Lt => Ok(Var::Bool((x as u32) < (y as u32))),
        BinOp::Gt => Ok(Var::Bool(x as u32 > y as u32)),
        BinOp::Eq => Ok(Var::Bool(x == y)),
        BinOp::Neq => Ok(Var::Bool(x != y)),
        _ => Err(EvalError::InvalidOperator),
    }
}

fn apply_text(op: BinOp, x: &String, y: &String) -> (out: Result<Var, EvalError>)
    ensures
        result_view(out) == text_op(op, x@, y@),
{
    match op {
        BinOp::Add => Ok(Var::String(x.clone().concat(y.as_str()))),
        BinOp::Eq => Ok(Var::Bool(same_text(x.as_str(), y.as_str()))),
        BinOp::Neq => Ok(Var::Bool(!same_text(x.as_str(), y.as_str()))),
        _ => Err(EvalError::InvalidOperator),
    }
}

/// Applies a binary operator to two values.
pub fn apply_bin(op: BinOp, a: &Var, b: &Var) -> (out: Result<Var, EvalError>)
    ensures
        result_view(out) == bin_op(op, a@, b@),
{
    match (a, b) {
        (Var::Int(x), Var::Int(y)) => apply_int(op, *x, *y),
        (Var::Bool(x), Var::Bool(y)) => apply_bool(op, *x, *y),
        (Var::Char(x), Var::Char(y)) => apply_char(op, *x, *y),
        (Var::String(x), Var::String(y)) => apply_text(op, x, y),
        _ => Err(EvalError::InvalidOperator),
    }
}

/// Applies a unary operator to a value.
pub fn apply_un(op: UnOp, a: &Var) -> (out: Result<Var, EvalError>)
    ensures
        result_view(out) == un_op(op, a@),
{
    match (op, a) {
        (UnOp::Pos, Var::Int(x)) => Ok(Var::Int(*x)),
        (UnOp::Neg, Var::Int(x)) => checked(0i64.checked_sub(*x)),
        (UnOp::BitNot, Var::Int(x)) => Ok(Var::Int(!*x)),
        (UnOp::Not, Var::Bool(x)) => Ok(Var::Bool(!*x)),
        _ => Err(EvalError::InvalidOperator),
    }
}

} // verus!
