//! What an expression means: the state and the result that evaluating it
//! gives, as a function of the state before.

use crate::ast::expressions::{
    lvalue_path, Assign, Atom, BinExpr, BuiltIn, Call, Expr, ListInit, StructInit, Ternary, UnExpr,
};
use crate::eval::context::{assign_path, read_path, Outcome, State};
use crate::eval::entries::find;
use crate::eval::error::EvalError;
use crate::eval::operators::{bin_op, un_op};
use crate::eval::render::display;
use crate::eval::value::{ObjectView, StructView, Value};
use vstd::prelude::*;

verus! {

/// A state and the values that a run of evaluations in it gave.
pub struct Gathered<T> {
    pub state: State,
    pub result: Result<Seq<T>, EvalError>,
}

/// The value of an atom.
pub open spec fn atom_value(atom: Atom) -> Value {
    match atom {
        Atom::Void => Value::Void,
        Atom::Bool(b) => Value::Bool(b),
        Atom::Int(i) => Value::Int(i),
        Atom::Float(text) => Value::Float(text@),
        Atom::Char(c) => Value::Char(c),
        Atom::String(text) => Value::Text(text@),
    }
}

/// The meaning of an expression.
pub open spec fn eval(s: State, expr: Expr) -> Outcome
    decreases expr,
{
    match expr {
        Expr::Atom(atom) => Outcome { state: s, result: Ok(atom_value(atom)) },
        Expr::LValue(lvalue) => Outcome { state: s, result: read_path(s, lvalue_path(lvalue)) },
        Expr::StructInit(init) => struct_init(s, init),
        Expr::ListInit(init) => list_init(s, init),
        Expr::Call(call) => builtin_call(s, *call),
        Expr::BinExpr(bin) => binary(s, *bin),
        Expr::UnExpr(un) => unary(s, *un),
        Expr::Assign(assign) => assignment(s, *assign),
        Expr::Ternary(tern) => ternary(s, *tern),
    }
}

/// A ternary: the condition, then the one branch that it selects. The other
/// branch is not evaluated.
pub open spec fn ternary(s: State, tern: Ternary) -> Outcome
    decreases tern,
{
    let cond = eval(s, tern.cond);
    match cond.result {
        Ok(Value::Bool(true)) => eval(cond.state, tern.branch1),
        Ok(Value::Bool(false)) => eval(cond.state, tern.branch2),
        Ok(_) => Outcome { state: cond.state, result: Err(EvalError::NonBooleanCondition) },
        Err(e) => Outcome { state: cond.state, result: Err(e) },
    }
}

/// An assignment: the right-hand side, then the assignment of its value at
/// the path.
pub open spec fn assignment(s: State, assign: Assign) -> Outcome
    decreases assign,
{
    let rhs = eval(s, assign.expr);
    match rhs.result {
        Ok(value) => assign_path(rhs.state, lvalue_path(assign.lvalue), value),
        Err(e) => Outcome { state: rhs.state, result: Err(e) },
    }
}

/// A binary expression: the left operand, the right operand, then the
/// operator.
pub open spec fn binary(s: State, bin: BinExpr) -> Outcome
    decreases bin,
{
    let left = eval(s, bin.left);
    match left.result {
        Ok(a) => {
            let right = eval(left.state, bin.right);
            match right.result {
                Ok(b) => Outcome { state: right.state, result: bin_op(bin.op, a, b) },
                Err(e) => Outcome { state: right.state, result: Err(e) },
            }
        },
        Err(e) => Outcome { state: left.state, result: Err(e) },
    }
}

/// A unary expression: the operand, then the operator.
pub open spec fn unary(s: State, un: UnExpr) -> Outcome
    decreases un,
{
    let operand = eval(s, un.expr);
    match operand.result {
        Ok(a) => Outcome { state: operand.state, result: un_op(un.op, a) },
        Err(e) => Outcome { state: operand.state, result: Err(e) },
    }
}

/// A call of a builtin. `Print` takes one argument, adds its textual form
/// to the output and gives `Void`. The other builtins have no rule.
pub open spec fn builtin_call(s: State, call: Call) -> Outcome
    decreases call,
{
    match call.builtin {
        BuiltIn::Print => if call.args@.len() != 1 {
            Outcome { state: s, result: Err(EvalError::ArityMismatch) }
        } else {
            let arg = eval(s, call.args@[0]);
            match arg.result {
                Ok(value) => Outcome {
                    state: State {
                        output: arg.state.output.push(display(arg.state.heap, value)),
                        ..arg.state
                    },
                    result: Ok(Value::Void),
                },
                Err(e) => Outcome { state: arg.state, result: Err(e) },
            }
        },
        _ => Outcome { state: s, result: Err(EvalError::UnsupportedBuiltIn) },
    }
}

/// The elements from index `from` on, evaluated in order and added to
/// `done`; the first failure ends the run.
pub open spec fn eval_items(s: State, exprs: Seq<Expr>, from: int, done: Seq<Value>) -> Gathered<
    Value,
>
    decreases exprs, exprs.len() - from,
{
    if from < 0 || from >= exprs.len() {
        Gathered { state: s, result: Ok(done) }
    } else {
        let item = eval(s, exprs[from]);
        match item.result {
            Ok(value) => eval_items(item.state, exprs, from + 1, done.push(value)),
            Err(e) => Gathered { state: item.state, result: Err(e) },
        }
    }
}

/// A list initialization: the elements in order, then a new list that holds
/// them.
pub open spec fn list_init(s: State, init: ListInit) -> Outcome
    decreases init,
{
    let items = eval_items(s, init.exprs@, 0, Seq::empty());
    match items.result {
        Ok(values) => Outcome {
            state: State { heap: items.state.heap.push(ObjectView::List(values)), ..items.state },
            result: Ok(Value::List(items.state.heap.len())),
        },
        Err(e) => Outcome { state: items.state, result: Err(e) },
    }
}

/// The fields from index `from` on, in order, added to `done`. A name that
/// the shape does not declare fails before its expression is evaluated; a
/// name that `done` already holds fails after it.
pub open spec fn eval_fields<T>(
    s: State,
    shape: Seq<(Seq<char>, T)>,
    fields: Seq<(String, Expr)>,
    from: int,
    done: Seq<(Seq<char>, Value)>,
) -> Gathered<(Seq<char>, Value)>
    decreases fields, fields.len() - from,
{
    if from < 0 || from >= fields.len() {
        Gathered { state: s, result: Ok(done) }
    } else {
        let name = fields[from].0@;
        if find(shape, name) is None {
            Gathered { state: s, result: Err(EvalError::UnknownField) }
        } else {
            let field = eval(s, fields[from].1);
            match field.result {
                Ok(value) => if find(done, name) is Some {
                    Gathered { state: field.state, result: Err(EvalError::FieldAlreadyInitialized) }
                } else {
                    eval_fields(field.state, shape, fields, from + 1, done.push((name, value)))
                },
                Err(e) => Gathered { state: field.state, result: Err(e) },
            }
        }
    }
}

/// A struct initialization: the shape is looked up, the fields are
/// evaluated in order, their number is held against the shape's, and a new
/// struct that holds them is made.
pub open spec fn struct_init(s: State, init: StructInit) -> Outcome
    decreases init,
{
    match find(s.defs, init.name@) {
        None => Outcome { state: s, result: Err(EvalError::UndefinedName) },
        Some(d) => {
            let shape = s.defs[d].1.fields();
            let fields = eval_fields(s, shape, init.fields@, 0, Seq::empty());
            match fields.result {
                Ok(values) => if values.len() != shape.len() {
                    Outcome { state: fields.state, result: Err(EvalError::FieldCountMismatch) }
                } else {
                    Outcome {
                        state: State {
                            heap: fields.state.heap.push(
                                ObjectView::Struct(
                                    StructView { name: s.defs[d].0, fields: values },
                                ),
                            ),
                            ..fields.state
                        },
                        result: Ok(Value::Struct(fields.state.heap.len())),
                    }
                },
                Err(e) => Outcome { state: fields.state, result: Err(e) },
            }
        },
    }
}

} // verus!
