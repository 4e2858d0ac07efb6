use ecs_lang::ast::expressions::{BinOp, UnOp};
use ecs_lang::eval::error::EvalError;
use ecs_lang::eval::operators::{apply_bin, apply_un};
use ecs_lang::eval::value::Var;

fn ints(op: BinOp, a: i64, b: i64) -> Result<Var, EvalError> {
    apply_bin(op, &Var::Int(a), &Var::Int(b))
}

fn bools(op: BinOp, a: bool, b: bool) -> Result<Var, EvalError> {
    apply_bin(op, &Var::Bool(a), &Var::Bool(b))
}

#[test]
fn integer_arithmetic_is_exact() {
    assert_eq!(ints(BinOp::Add, 2, 3), Ok(Var::Int(5)));
    assert_eq!(ints(BinOp::Sub, 2, 3), Ok(Var::Int(-1)));
    assert_eq!(ints(BinOp::Mul, -4, 6), Ok(Var::Int(-24)));
    assert_eq!(ints(BinOp::Div, 7, 2), Ok(Var::Int(3)));
    assert_eq!(ints(BinOp::Mod, 7, 2), Ok(Var::Int(1)));
}

#[test]
fn division_rounds_towards_zero() {
    assert_eq!(ints(BinOp::Div, -7, 2), Ok(Var::Int(-3)));
    assert_eq!(ints(BinOp::Div, 7, -2), Ok(Var::Int(-3)));
    assert_eq!(ints(BinOp::Div, -7, -2), Ok(Var::Int(3)));
    assert_eq!(ints(BinOp::Mod, -7, 2), Ok(Var::Int(-1)));
    assert_eq!(ints(BinOp::Mod, 7, -2), Ok(Var::Int(1)));
    assert_eq!(ints(BinOp::Mod, -7, -2), Ok(Var::Int(-1)));
}

#[test]
fn a_result_outside_64_bits_has_no_value() {
    assert_eq!(ints(BinOp::Add, i64::MAX, 1), Err(EvalError::InvalidOperator));
    assert_eq!(ints(BinOp::Sub, i64::MIN, 1), Err(EvalError::InvalidOperator));
    assert_eq!(ints(BinOp::Mul, i64::MAX, 2), Err(EvalError::InvalidOperator));
    assert_eq!(ints(BinOp::Div, i64::MIN, -1), Err(EvalError::InvalidOperator));
    assert_eq!(ints(BinOp::Mod, i64::MIN, -1), Err(EvalError::InvalidOperator));
    assert_eq!(apply_un(UnOp::Neg, &Var::Int(i64::MIN)), Err(EvalError::InvalidOperator));
    assert_eq!(ints(BinOp::Add, i64::MAX, 0), Ok(Var::Int(i64::MAX)));
}

#[test]
fn division_by_zero_has_no_value() {
    assert_eq!(ints(BinOp::Div, 1, 0), Err(EvalError::InvalidOperator));
    assert_eq!(ints(BinOp::Mod, 1, 0), Err(EvalError::InvalidOperator));
}

#[test]
fn integer_bit_operators() {
    assert_eq!(ints(BinOp::BitAnd, 0b1100, 0b1010), Ok(Var::Int(0b1000)));
    assert_eq!(ints(BinOp::BitOr, 0b1100, 0b1010), Ok(Var::Int(0b1110)));
    assert_eq!(ints(BinOp::Xor, 0b1100, 0b1010), Ok(Var::Int(0b0110)));
    assert_eq!(ints(BinOp::Shl, 3, 4), Ok(Var::Int(48)));
    assert_eq!(ints(BinOp::Shr, -16, 2), Ok(Var::Int(-4)));
    assert_eq!(ints(BinOp::Shl, 1, 63), Ok(Var::Int(i64::MIN)));
    assert_eq!(apply_un(UnOp::BitNot, &Var::Int(0)), Ok(Var::Int(-1)));
}

#[test]
fn a_shift_outside_the_width_has_no_value() {
    assert_eq!(ints(BinOp::Shl, 1, 64), Err(EvalError::InvalidOperator));
    assert_eq!(ints(BinOp::Shl, 1, -1), Err(EvalError::InvalidOperator));
    assert_eq!(ints(BinOp::Shr, 1, 64), Err(EvalError::InvalidOperator));
    assert_eq!(ints(BinOp::Shr, 1, -1), Err(EvalError::InvalidOperator));
}

#[test]
fn integer_comparisons() {
    assert_eq!(ints(BinOp::Lt, 1, 2), Ok(Var::Bool(true)));
    assert_eq!(ints(BinOp::Leq, 2, 2), Ok(Var::Bool(true)));
    assert_eq!(ints(BinOp::Gt, 1, 2), Ok(Var::Bool(false)));
    assert_eq!(ints(BinOp::Geq, 1, 2), Ok(Var::Bool(false)));
    assert_eq!(ints(BinOp::Eq, 3, 3), Ok(Var::Bool(true)));
    assert_eq!(ints(BinOp::Neq, 3, 3), Ok(Var::Bool(false)));
}

#[test]
fn logical_operators_are_for_booleans() {
    assert_eq!(bools(BinOp::And, true, false), Ok(Var::Bool(false)));
    assert_eq!(bools(BinOp::Or, true, false), Ok(Var::Bool(true)));
    assert_eq!(bools(BinOp::Xor, true, true), Ok(Var::Bool(false)));
    assert_eq!(bools(BinOp::BitAnd, true, true), Ok(Var::Bool(true)));
    assert_eq!(bools(BinOp::BitOr, false, false), Ok(Var::Bool(false)));
    assert_eq!(bools(BinOp::Eq, false, false), Ok(Var::Bool(true)));
    assert_eq!(bools(BinOp::Neq, false, true), Ok(Var::Bool(true)));
    assert_eq!(bools(BinOp::Add, true, true), Err(EvalError::InvalidOperator));
    assert_eq!(bools(BinOp::Lt, true, true), Err(EvalError::InvalidOperator));
    assert_eq!(ints(BinOp::And, 1, 1), Err(EvalError::InvalidOperator));
    assert_eq!(ints(BinOp::Or, 1, 1), Err(EvalError::InvalidOperator));
}

#[test]
fn characters_compare_by_code_point() {
    let a = Var::Char('a');
    let b = Var::Char('b');
    assert_eq!(apply_bin(BinOp::Lt, &a, &b), Ok(Var::Bool(true)));
    assert_eq!(apply_bin(BinOp::Geq, &a, &b), Ok(Var::Bool(false)));
    assert_eq!(apply_bin(BinOp::Eq, &a, &a), Ok(Var::Bool(true)));
    assert_eq!(apply_bin(BinOp::Neq, &a, &b), Ok(Var::Bool(true)));
    assert_eq!(apply_bin(BinOp::Add, &a, &b), Err(EvalError::InvalidOperator));
}

#[test]
fn strings_join_and_compare() {
    let a = Var::String("ab".to_string());
    let b = Var::String("cd".to_string());
    assert_eq!(apply_bin(BinOp::Add, &a, &b), Ok(Var::String("abcd".to_string())));
    assert_eq!(apply_bin(BinOp::Eq, &a, &b), Ok(Var::Bool(false)));
    assert_eq!(apply_bin(BinOp::Eq, &a, &a), Ok(Var::Bool(true)));
    assert_eq!(apply_bin(BinOp::Neq, &a, &b), Ok(Var::Bool(true)));
    assert_eq!(apply_bin(BinOp::Sub, &a, &b), Err(EvalError::InvalidOperator));
}

#[test]
fn operands_of_two_types_have_no_operator() {
    assert_eq!(
        apply_bin(BinOp::Add, &Var::Int(1), &Var::Bool(true)),
        Err(EvalError::InvalidOperator)
    );
    assert_eq!(
        apply_bin(BinOp::Eq, &Var::Int(1), &Var::Char('1')),
        Err(EvalError::InvalidOperator)
    );
}

#[test]
fn floats_void_and_aggregates_have_no_operator() {
    let x = Var::Float("1.5".to_string());
    assert_eq!(apply_bin(BinOp::Add, &x, &x), Err(EvalError::InvalidOperator));
    assert_eq!(apply_bin(BinOp::Eq, &Var::Void, &Var::Void), Err(EvalError::InvalidOperator));
    assert_eq!(apply_bin(BinOp::Eq, &Var::List(0), &Var::List(0)), Err(EvalError::InvalidOperator));
    assert_eq!(apply_un(UnOp::Neg, &x), Err(EvalError::InvalidOperator));
}

#[test]
fn unary_operators() {
    assert_eq!(apply_un(UnOp::Pos, &Var::Int(4)), Ok(Var::Int(4)));
    assert_eq!(apply_un(UnOp::Neg, &Var::Int(4)), Ok(Var::Int(-4)));
    assert_eq!(apply_un(UnOp::Not, &Var::Bool(true)), Ok(Var::Bool(false)));
    assert_eq!(apply_un(UnOp::BitNot, &Var::Int(5)), Ok(Var::Int(-6)));
    assert_eq!(apply_un(UnOp::Not, &Var::Int(1)), Err(EvalError::InvalidOperator));
    assert_eq!(apply_un(UnOp::Neg, &Var::Bool(true)), Err(EvalError::InvalidOperator));
    assert_eq!(apply_un(UnOp::Pos, &Var::Bool(true)), Err(EvalError::InvalidOperator));
}
