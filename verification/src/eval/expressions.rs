//! The evaluation of expressions.

use crate::ast::expressions::{
    lvalue_path, Assign, Atom, BinExpr, BuiltIn, Call, Expr, LValue, ListInit, StructInit,
    Ternary, UnExpr,
};
use crate::eval::context::{lemma_valid_extends, read_path, Context};
use crate::eval::entries::{distinct_keys, find, lemma_find_from, lookup};
use crate::eval::error::EvalError;
use crate::eval::operators::{apply_bin, apply_un, result_view};
use crate::eval::semantics::{
    assignment, atom_value, binary, builtin_call, eval, eval_fields, eval_items, list_init,
    struct_init, ternary, unary,
};
use crate::eval::store::{extends, valid_value};
use crate::eval::value::{ObjectView, Value, Var};
use vstd::prelude::*;

verus! {

/// A store that extends one that extends another extends that other.
pub proof fn lemma_extends_trans(a: Seq<ObjectView>, b: Seq<ObjectView>, c: Seq<ObjectView>)
    requires
        extends(a, b),
        extends(b, c),
    ensures
        extends(a, c),
{
    assert forall|h: int| 0 <= h < a.len() implies match #[trigger] a[h] {
        ObjectView::List(_) => c[h] is List,
        ObjectView::Struct(s) => c[h] matches ObjectView::Struct(t) && t.name == s.name,
    } by {
        assert(b[h] == b[h]);
    }
}

/// Evaluates an expression.
pub fn eval_expr(ctx: &mut Context, expr: &Expr) -> (out: Result<Var, EvalError>)
    requires
        old(ctx)@.wf(),
    ensures
        final(ctx)@.wf(),
        final(ctx)@ == eval(old(ctx)@, *expr).state,
        result_view(out) == eval(old(ctx)@, *expr).result,
        final(ctx)@.defs == old(ctx)@.defs,
        extends(old(ctx)@.heap, final(ctx)@.heap),
        out matches Ok(v) ==> valid_value(final(ctx)@.heap, v@),
    decreases expr,
{
    match expr {
        Expr::Ternary(tern) => eval_ternary(ctx, tern),
        Expr::Assign(assign) => eval_assign(ctx, assign),
        Expr::Atom(atom) => eval_atom(ctx, atom),
        Expr::LValue(lvalue) => eval_lvalue(ctx, lvalue),
        Expr::ListInit(init) => eval_list_init(ctx, init),
        Expr::StructInit(init) => eval_struct_init(ctx, init),
        Expr::Call(call) => eval_call(ctx, call),
        Expr::BinExpr(bin) => eval_bin_expr(ctx, bin),
        Expr::UnExpr(un) => eval_un_expr(ctx, un),
    }
}

/// Evaluates a ternary expression.
pub fn eval_ternary(ctx: &mut Context, tern: &Ternary) -> (out: Result<Var, EvalError>)
    requires
        old(ctx)@.wf(),
    ensures
        final(ctx)@.wf(),
        final(ctx)@ == ternary(old(ctx)@, *tern).state,
        result_view(out) == ternary(old(ctx)@, *tern).result,
        final(ctx)@.defs == old(ctx)@.defs,
        extends(old(ctx)@.heap, final(ctx)@.heap),
        out matches Ok(v) ==> valid_value(final(ctx)@.heap, v@),
    decreases tern,
{
    let ghost start = ctx@;
    match eval_expr(ctx, &tern.cond) {
        Ok(Var::Bool(true)) => {
            let ghost middle = ctx@;
            let out = eval_expr(ctx, &tern.branch1);
            proof {
                lemma_extends_trans(start.heap, middle.heap, ctx@.heap);
            }
            out
        },
        Ok(Var::Bool(false)) => {
            let ghost middle = ctx@;
            let out = eval_expr(ctx, &tern.branch2);
            proof {
                lemma_extends_trans(start.heap, middle.heap, ctx@.heap);
            }
            out
        },
        Ok(_) => Err(EvalError::NonBooleanCondition),
        Err(e) => Err(e),
    }
}

/// Evaluates an atom.
pub fn eval_atom(ctx: &Context, atom: &Atom) -> (out: Result<Var, EvalError>)
    ensures
        out matches Ok(v) && v@ == atom_value(*atom) && valid_value(ctx@.heap, v@),
{
    Ok(
        match atom {
            Atom::Void => Var::Void,
            Atom::Bool(b) => Var::Bool(*b),
            Atom::Int(i) => Var::Int(*i),
            Atom::Float(text) => Var::Float(text.clone()),
            Atom::Char(c) => Var::Char(*c),
            Atom::String(text) => Var::String(text.clone()),
        },
    )
}

/// Evaluates a left-value: the value at its path.
pub fn eval_lvalue(ctx: &Context, lvalue: &LValue) -> (out: Result<Var, EvalError>)
    ensures
        result_view(out) == read_path(ctx@, lvalue_path(*lvalue)),
        ctx@.wf() ==> (out matches Ok(v) ==> valid_value(ctx@.heap, v@)),
{
    match lvalue {
        LValue::Ident(name) => {
            let mut path: Vec<String> = Vec::new();
            path.push(name.clone());
            assert(path.deep_view() =~= seq![name@]);
            ctx.get_var(&path)
        },
        LValue::Access(path) => ctx.get_var(path),
    }
}

/// Evaluates an assignment.
pub fn eval_assign(ctx: &mut Context, assign: &Assign) -> (out: Result<Var, EvalError>)
    requires
        old(ctx)@.wf(),
    ensures
        final(ctx)@.wf(),
        final(ctx)@ == assignment(old(ctx)@, *assign).state,
        result_view(out) == assignment(old(ctx)@, *assign).result,
        final(ctx)@.defs == old(ctx)@.defs,
        extends(old(ctx)@.heap, final(ctx)@.heap),
        out matches Ok(v) ==> valid_value(final(ctx)@.heap, v@),
    decreases assign,
{
    let ghost start = ctx@;
    let value = match eval_expr(ctx, &assign.expr) {
        Ok(value) => value,
        Err(e) => {
            return Err(e);
        },
    };
    let ghost middle = ctx@;
    let out = match &assign.lvalue {
        LValue::Ident(name) => {
            let mut path: Vec<String> = Vec::new();
            path.push(name.clone());
            assert(path.deep_view() =~= seq![name@]);
            ctx.assign(&path, value)
        },
        LValue::Access(path) => ctx.assign(path, value),
    };
    proof {
        lemma_extends_trans(start.heap, middle.heap, ctx@.heap);
    }
    out
}

/// Evaluates a binary expression.
pub fn eval_bin_expr(ctx: &mut Context, bin: &BinExpr) -> (out: Result<Var, EvalError>)
    requires
        old(ctx)@.wf(),
    ensures
        final(ctx)@.wf(),
        final(ctx)@ == binary(old(ctx)@, *bin).state,
        result_view(out) == binary(old(ctx)@, *bin).result,
        final(ctx)@.defs == old(ctx)@.defs,
        extends(old(ctx)@.heap, final(ctx)@.heap),
        out matches Ok(v) ==> valid_value(final(ctx)@.heap, v@),
    decreases bin,
{
    let ghost start = ctx@;
    let left = match eval_expr(ctx, &bin.left) {
        Ok(left) => left,
        Err(e) => {
            return Err(e);
        },
    };
    let ghost middle = ctx@;
    let right = match eval_expr(ctx, &bin.right) {
        Ok(right) => right,
        Err(e) => {
            proof {
                lemma_extends_trans(start.heap, middle.heap, ctx@.heap);
            }
            return Err(e);
        },
    };
    proof {
        lemma_extends_trans(start.heap, middle.heap, ctx@.heap);
    }
    apply_bin(bin.op, &left, &right)
}

/// Evaluates a unary expression.
pub fn eval_un_expr(ctx: &mut Context, un: &UnExpr) -> (out: Result<Var, EvalError>)
    requires
        old(ctx)@.wf(),
    ensures
        final(ctx)@.wf(),
        final(ctx)@ == unary(old(ctx)@, *un).state,
        result_view(out) == unary(old(ctx)@, *un).result,
        final(ctx)@.defs == old(ctx)@.defs,
        extends(old(ctx)@.heap, final(ctx)@.heap),
        out matches Ok(v) ==> valid_value(final(ctx)@.heap, v@),
    decreases un,
{
    match eval_expr(ctx, &un.expr) {
        Ok(operand) => apply_un(un.op, &operand),
        Err(e) => Err(e),
    }
}

/// Evaluates a call of a builtin.
pub fn eval_call(ctx: &mut Context, call: &Call) -> (out: Result<Var, EvalError>)
    requires
        old(ctx)@.wf(),
    ensures
        final(ctx)@.wf(),
        final(ctx)@ == builtin_call(old(ctx)@, *call).state,
        result_view(out) == builtin_call(old(ctx)@, *call).result,
        final(ctx)@.defs == old(ctx)@.defs,
        extends(old(ctx)@.heap, final(ctx)@.heap),
        out matches Ok(v) ==> valid_value(final(ctx)@.heap, v@),
    decreases call,
{
    match call.builtin {
        BuiltIn::Print => {
            if call.args.len() != 1 {
                return Err(EvalError::ArityMismatch);
            }
            match eval_expr(ctx, &call.args[0]) {
                Ok(value) => {
                    ctx.print(&value);
                    Ok(Var::Void)
                },
                Err(e) => Err(e),
            }
        },
        _ => Err(EvalError::UnsupportedBuiltIn),
    }
}

/// Evaluates a list initialization.
pub fn eval_list_init(ctx: &mut Context, init: &ListInit) -> (out: Result<Var, EvalError>)
    requires
        old(ctx)@.wf(),
    ensures
        final(ctx)@.wf(),
        final(ctx)@ == list_init(old(ctx)@, *init).state,
        result_view(out) == list_init(old(ctx)@, *init).result,
        final(ctx)@.defs == old(ctx)@.defs,
        extends(old(ctx)@.heap, final(ctx)@.heap),
        out matches Ok(v) ==> valid_value(final(ctx)@.heap, v@),
    decreases init,
{
    let ghost start = ctx@;
    let mut items: Vec<Var> = Vec::new();
    let mut i: usize = 0;
    assert(items.deep_view() =~= Seq::<Value>::empty());
    while i < init.exprs.len()
        invariant
            i <= init.exprs.len(),
            ctx@.wf(),
            ctx@.defs == start.defs,
            start == old(ctx)@,
            extends(start.heap, ctx@.heap),
            forall|k: int|
                0 <= k < items.len() ==> valid_value(ctx@.heap, #[trigger] items.deep_view()[k]),
            eval_items(ctx@, init.exprs@, i as int, items.deep_view()) == eval_items(
                start,
                init.exprs@,
                0,
                Seq::empty(),
            ),
        decreases init.exprs.len() - i,
    {
        let ghost before = ctx@;
        let ghost done = items.deep_view();
        match eval_expr(ctx, &init.exprs[i]) {
            Ok(value) => {
                proof {
                    lemma_extends_trans(start.heap, before.heap, ctx@.heap);
                    assert forall|k: int| 0 <= k < done.len() implies valid_value(
                        ctx@.heap,
                        #[trigger] done[k],
                    ) by {
                        lemma_valid_extends(before.heap, ctx@.heap, done[k]);
                    }
                }
                items.push(value);
                assert(items.deep_view() =~= done.push(value@));
            },
            Err(e) => {
                proof {
                    lemma_extends_trans(start.heap, before.heap, ctx@.heap);
                }
                return Err(e);
            },
        }
        i += 1;
    }
    let ghost middle = ctx@;
    let list = ctx.new_list(items);
    proof {
        lemma_extends_trans(start.heap, middle.heap, ctx@.heap);
    }
    Ok(list)
}

/// Evaluates a struct initialization.
pub fn eval_struct_init(ctx: &mut Context, init: &StructInit) -> (out: Result<Var, EvalError>)
    requires
        old(ctx)@.wf(),
    ensures
        final(ctx)@.wf(),
        final(ctx)@ == struct_init(old(ctx)@, *init).state,
        result_view(out) == struct_init(old(ctx)@, *init).result,
        final(ctx)@.defs == old(ctx)@.defs,
        extends(old(ctx)@.heap, final(ctx)@.heap),
        out matches Ok(v) ==> valid_value(final(ctx)@.heap, v@),
    decreases init,
{
    let ghost start = ctx@;
    let def = match ctx.def_index(init.name.as_str()) {
        Some(def) => def,
        None => {
            return Err(EvalError::UndefinedName);
        },
    };
    let ghost shape = start.defs[def as int].1.fields();
    let mut fields: Vec<(String, Var)> = Vec::new();
    let mut i: usize = 0;
    assert(fields.deep_view() =~= Seq::<(Seq<char>, Value)>::empty());
    while i < init.fields.len()
        invariant
            i <= init.fields.len(),
            ctx@.wf(),
            ctx@.defs == start.defs,
            start == old(ctx)@,
            def < start.defs.len(),
            find(start.defs, init.name@) == Some(def as int),
            shape == start.defs[def as int].1.fields(),
            extends(start.heap, ctx@.heap),
            distinct_keys(fields.deep_view()),
            forall|k: int|
                0 <= k < fields.len() ==> valid_value(
                    ctx@.heap,
                    (#[trigger] fields.deep_view()[k]).1,
                ) && find(shape, fields.deep_view()[k].0) is Some,
            eval_fields(ctx@, shape, init.fields@, i as int, fields.deep_view()) == eval_fields(
                start,
                shape,
                init.fields@,
                0,
                Seq::empty(),
            ),
        decreases init.fields.len() - i,
    {
        let ghost before = ctx@;
        let ghost done = fields.deep_view();
        let name = &init.fields[i].0;
        if !ctx.declares(def, name.as_str()) {
            return Err(EvalError::UnknownField);
        }
        match eval_expr(ctx, &init.fields[i].1) {
            Ok(value) => {
                proof {
                    lemma_extends_trans(start.heap, before.heap, ctx@.heap);
                    assert forall|k: int| 0 <= k < done.len() implies valid_value(
                        ctx@.heap,
                        (#[trigger] done[k]).1,
                    ) by {
                        lemma_valid_extends(before.heap, ctx@.heap, done[k].1);
                    }
                    lemma_find_from(done, name@, 0);
                }
                if lookup(&fields, name.as_str()).is_some() {
                    return Err(EvalError::FieldAlreadyInitialized);
                }
                fields.push((name.clone(), value));
                assert(fields.deep_view() =~= done.push((name@, value@)));
            },
            Err(e) => {
                proof {
                    lemma_extends_trans(start.heap, before.heap, ctx@.heap);
                }
                return Err(e);
            },
        }
        i += 1;
    }
    if ctx.field_count(def) != fields.len() {
        return Err(EvalError::FieldCountMismatch);
    }
    let ghost middle = ctx@;
    let value = ctx.new_struct(def, fields);
    proof {
        lemma_extends_trans(start.heap, middle.heap, ctx@.heap);
    }
    Ok(value)
}

/// Evaluates the expressions of a body in order, each in the state that
/// the one before it left. The first failure ends the run; what was
/// evaluated before it stays done.
pub fn eval_body(ctx: &mut Context, code: &Vec<Expr>) -> (out: Result<(), EvalError>)
    requires
        old(ctx)@.wf(),
    ensures
        final(ctx)@.wf(),
        final(ctx)@ == eval_items(old(ctx)@, code@, 0, Seq::empty()).state,
        match out {
            Ok(_) => eval_items(old(ctx)@, code@, 0, Seq::empty()).result is Ok,
            Err(e) => eval_items(old(ctx)@, code@, 0, Seq::empty()).result == Err::<
                Seq<Value>,
                EvalError,
            >(e),
        },
        final(ctx)@.defs == old(ctx)@.defs,
        extends(old(ctx)@.heap, final(ctx)@.heap),
{
    let ghost start = ctx@;
    let ghost mut done: Seq<Value> = Seq::empty();
    let mut i: usize = 0;
    while i < code.len()
        invariant
            i <= code.len(),
            ctx@.wf(),
            ctx@.defs == start.defs,
            start == old(ctx)@,
            extends(start.heap, ctx@.heap),
            eval_items(ctx@, code@, i as int, done) == eval_items(start, code@, 0, Seq::empty()),
        decreases code.len() - i,
    {
        let ghost before = ctx@;
        let out = eval_expr(ctx, &code[i]);
        proof {
            lemma_extends_trans(start.heap, before.heap, ctx@.heap);
        }
        match out {
            Ok(value) => {
                proof {
                    done = done.push(value@);
                }
            },
            Err(e) => {
                return Err(e);
            },
        }
        i += 1;
    }
    Ok(())
}

} // verus!
