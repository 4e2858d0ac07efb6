//! What holds of every evaluation.

use crate::ast::expressions::{lvalue_path, Assign, Atom, Expr, LValue, StructInit, Ternary};
use crate::eval::context::{
    assign_path, bind, conforms, descend, lemma_field_valid, lemma_push_wf, lemma_valid_extends,
    lemma_with_field_wf, read_path, Outcome, State,
};
use crate::eval::expressions::lemma_extends_trans;
use crate::eval::entries::{
    distinct_keys, find, lemma_find_from, lemma_find_push, lemma_find_update,
};
use crate::eval::error::EvalError;
use crate::eval::render::{display, int_text};
use crate::eval::semantics::{
    assignment, atom_value, eval, eval_fields, eval_items, struct_init,
};
use crate::eval::store::{closed_heap, extends, field_of, type_of, valid_value};
use crate::eval::value::{ObjectView, StructView, Value};
use vstd::prelude::*;

verus! {

/// Every field expression from index `from` on evaluates without failure,
/// each in the state that the one before it left.
pub open spec fn fields_evaluate(s: State, fields: Seq<(String, Expr)>, from: int) -> bool
    decreases fields.len() - from,
{
    if from < 0 || from >= fields.len() {
        true
    } else {
        eval(s, fields[from].1).result is Ok && fields_evaluate(
            eval(s, fields[from].1).state,
            fields,
            from + 1,
        )
    }
}

/// The initializer names each declared field once and nothing else: every
/// name is declared, no name is given twice, and there are as many names as
/// declared fields.
pub open spec fn names_match<T>(fields: Seq<(String, Expr)>, shape: Seq<(Seq<char>, T)>) -> bool {
    &&& fields.len() == shape.len()
    &&& forall|i: int| 0 <= i < fields.len() ==> find(shape, (#[trigger] fields[i]).0@) is Some
    &&& forall|i: int, j: int|
        0 <= i < j < fields.len() ==> (#[trigger] fields[i]).0@ != (#[trigger] fields[j]).0@
}

proof fn lemma_fields<T>(
    s: State,
    shape: Seq<(Seq<char>, T)>,
    fields: Seq<(String, Expr)>,
    from: int,
    done: Seq<(Seq<char>, Value)>,
)
    requires
        0 <= from <= fields.len(),
        done.len() == from,
        forall|k: int| 0 <= k < from ==> (#[trigger] done[k]).0 == fields[k].0@,
        forall|k: int| 0 <= k < from ==> find(shape, (#[trigger] fields[k]).0@) is Some,
        forall|i: int, j: int|
            0 <= i < j < from ==> (#[trigger] fields[i]).0@ != (#[trigger] fields[j]).0@,
    ensures
        eval_fields(s, shape, fields, from, done).result matches Ok(values) ==> {
            &&& values.len() == fields.len()
            &&& forall|i: int|
                0 <= i < fields.len() ==> find(shape, (#[trigger] fields[i]).0@) is Some
            &&& forall|i: int, j: int|
                0 <= i < j < fields.len() ==> (#[trigger] fields[i]).0@ != (
                #[trigger] fields[j]).0@
        },
        fields_evaluate(s, fields, from) && (forall|i: int|
            0 <= i < fields.len() ==> find(shape, (#[trigger] fields[i]).0@) is Some) && (forall|
            i: int,
            j: int,
        |
            0 <= i < j < fields.len() ==> (#[trigger] fields[i]).0@ != (#[trigger] fields[j]).0@)
            ==> eval_fields(s, shape, fields, from, done).result is Ok,
    decreases fields.len() - from,
{
    if from < fields.len() {
        let name = fields[from].0@;
        lemma_find_from(done, name, 0);
        if find(shape, name) is Some {
            let field = eval(s, fields[from].1);
            if let Ok(value) = field.result {
                if find(done, name) is None {
                    let next = done.push((name, value));
                    assert forall|i: int, j: int| 0 <= i < j < from + 1 implies (
                    #[trigger] fields[i]).0@ != (#[trigger] fields[j]).0@ by {
                        if j == from {
                            assert(done[i].0 == fields[i].0@);
                        }
                    }
                    lemma_fields(field.state, shape, fields, from + 1, next);
                } else {
                    let m = find(done, name)->Some_0;
                    assert(done[m].0 == fields[m].0@);
                }
            }
        }
    }
}

/// An initializer that matches a shape leaves no declared field out: with
/// no name given twice, every name declared and as many names as declared
/// fields, each declared field is named.
pub proof fn lemma_matching_names_cover_the_shape<T>(
    fields: Seq<(String, Expr)>,
    shape: Seq<(Seq<char>, T)>,
)
    requires
        names_match(fields, shape),
        distinct_keys(shape),
    ensures
        forall|j: int|
            0 <= j < shape.len() ==> exists|i: int|
                0 <= i < fields.len() && (#[trigger] fields[i]).0@ == (#[trigger] shape[j]).0,
{
    let given = Seq::new(fields.len(), |i: int| fields[i].0@);
    let declared = Seq::new(shape.len(), |j: int| shape[j].0);
    assert(given.no_duplicates()) by {
        assert forall|i: int, j: int|
            0 <= i < given.len() && 0 <= j < given.len() && i != j implies given[i] != given[j] by {
            if i < j {
                assert(fields[i].0@ != fields[j].0@);
            } else {
                assert(fields[j].0@ != fields[i].0@);
            }
        }
    }
    assert(declared.no_duplicates()) by {
        assert forall|i: int, j: int|
            0 <= i < declared.len() && 0 <= j < declared.len() && i != j implies declared[i]
            != declared[j] by {
            if i < j {
                assert(shape[i].0 != shape[j].0);
            } else {
                assert(shape[j].0 != shape[i].0);
            }
        }
    }
    given.unique_seq_to_set();
    declared.unique_seq_to_set();
    vstd::seq_lib::seq_to_set_is_finite(given);
    vstd::seq_lib::seq_to_set_is_finite(declared);
    assert(given.to_set().subset_of(declared.to_set())) by {
        assert forall|name: Seq<char>| given.to_set().contains(name) implies declared.to_set().contains(
            name,
        ) by {
            let i = choose|i: int| 0 <= i < given.len() && given[i] == name;
            assert(find(shape, fields[i].0@) is Some);
            lemma_find_from(shape, name, 0);
            let j = find(shape, name)->Some_0;
            assert(declared[j] == name);
        }
    }
    vstd::set_lib::lemma_subset_equality(given.to_set(), declared.to_set());
    assert forall|j: int| 0 <= j < shape.len() implies exists|i: int|
        0 <= i < fields.len() && (#[trigger] fields[i]).0@ == (#[trigger] shape[j]).0 by {
        assert(declared[j] == shape[j].0);
        assert(declared.to_set().contains(shape[j].0));
        assert(given.to_set().contains(shape[j].0));
        let i = choose|i: int| 0 <= i < given.len() && given[i] == shape[j].0;
        assert(fields[i].0@ == shape[j].0);
    }
}

/// A struct initialization whose field expressions all evaluate succeeds if
/// and only if the initializer names each declared field of the shape once
/// and nothing else. Whether or not they all evaluate, it succeeds only if
/// it does so.
pub proof fn law_struct_init_takes_exactly_the_declared_fields(s: State, init: StructInit)
    requires
        find(s.defs, init.name@) is Some,
    ensures
        struct_init(s, init).result is Ok ==> names_match(
            init.fields@,
            s.defs[find(s.defs, init.name@)->Some_0].1.fields(),
        ),
        fields_evaluate(s, init.fields@, 0) ==> (struct_init(s, init).result is Ok <==> names_match(
            init.fields@,
            s.defs[find(s.defs, init.name@)->Some_0].1.fields(),
        )),
{
    let d = find(s.defs, init.name@)->Some_0;
    lemma_fields(s, s.defs[d].1.fields(), init.fields@, 0, Seq::empty());
}

/// A name is bound to the struct under `handle`.
pub open spec fn bound_to_struct(vars: Seq<(Seq<char>, Value)>, name: Seq<char>, handle: nat) -> bool {
    find(vars, name) matches Some(i) && vars[i].1 == Value::Struct(handle)
}

/// An assignment, whatever its path and value, leaves a name that is bound
/// to a struct bound to that struct.
pub proof fn lemma_assign_keeps_struct_bindings(
    s: State,
    path: Seq<Seq<char>>,
    value: Value,
    name: Seq<char>,
    handle: nat,
)
    requires
        bound_to_struct(s.vars, name, handle),
    ensures
        bound_to_struct(assign_path(s, path, value).state.vars, name, handle),
{
    lemma_find_from(s.vars, name, 0);
    if path.len() == 1 {
        lemma_find_from(s.vars, path[0], 0);
        match find(s.vars, path[0]) {
            Some(i) => {
                lemma_find_update(s.vars, i, value, name);
            },
            None => {
                lemma_find_push(s.vars, (path[0], value), name);
            },
        }
    }
}

/// Evaluating an expression leaves a name that is bound to a struct bound
/// to that struct.
pub proof fn lemma_eval_keeps_struct_bindings(s: State, expr: Expr, name: Seq<char>, handle: nat)
    requires
        bound_to_struct(s.vars, name, handle),
    ensures
        bound_to_struct(eval(s, expr).state.vars, name, handle),
    decreases expr,
{
    match expr {
        Expr::Atom(_) => {},
        Expr::LValue(_) => {},
        Expr::StructInit(init) => {
            if let Some(d) = find(s.defs, init.name@) {
                lemma_fields_keep_struct_bindings(
                    s,
                    s.defs[d].1.fields(),
                    init.fields@,
                    0,
                    Seq::empty(),
                    name,
                    handle,
                );
            }
        },
        Expr::ListInit(init) => {
            lemma_items_keep_struct_bindings(s, init.exprs@, 0, Seq::empty(), name, handle);
        },
        Expr::Call(call) => {
            if call.args@.len() == 1 {
                lemma_eval_keeps_struct_bindings(s, call.args@[0], name, handle);
            }
        },
        Expr::BinExpr(bin) => {
            lemma_eval_keeps_struct_bindings(s, bin.left, name, handle);
            lemma_eval_keeps_struct_bindings(eval(s, bin.left).state, bin.right, name, handle);
        },
        Expr::UnExpr(un) => {
            lemma_eval_keeps_struct_bindings(s, un.expr, name, handle);
        },
        Expr::Assign(assign) => {
            lemma_eval_keeps_struct_bindings(s, assign.expr, name, handle);
            let rhs = eval(s, assign.expr);
            if let Ok(value) = rhs.result {
                lemma_assign_keeps_struct_bindings(
                    rhs.state,
                    lvalue_path(assign.lvalue),
                    value,
                    name,
                    handle,
                );
            }
        },
        Expr::Ternary(tern) => {
            lemma_eval_keeps_struct_bindings(s, tern.cond, name, handle);
            let cond = eval(s, tern.cond);
            lemma_eval_keeps_struct_bindings(cond.state, tern.branch1, name, handle);
            lemma_eval_keeps_struct_bindings(cond.state, tern.branch2, name, handle);
        },
    }
}

proof fn lemma_items_keep_struct_bindings(
    s: State,
    exprs: Seq<Expr>,
    from: int,
    done: Seq<Value>,
    name: Seq<char>,
    handle: nat,
)
    requires
        bound_to_struct(s.vars, name, handle),
    ensures
        bound_to_struct(eval_items(s, exprs, from, done).state.vars, name, handle),
    decreases exprs, exprs.len() - from,
{
    if 0 <= from < exprs.len() {
        lemma_eval_keeps_struct_bindings(s, exprs[from], name, handle);
        let item = eval(s, exprs[from]);
        if let Ok(value) = item.result {
            lemma_items_keep_struct_bindings(
                item.state,
                exprs,
                from + 1,
                done.push(value),
                name,
                handle,
            );
        }
    }
}

proof fn lemma_fields_keep_struct_bindings<T>(
    s: State,
    shape: Seq<(Seq<char>, T)>,
    fields: Seq<(String, Expr)>,
    from: int,
    done: Seq<(Seq<char>, Value)>,
    name: Seq<char>,
    handle: nat,
)
    requires
        bound_to_struct(s.vars, name, handle),
    ensures
        bound_to_struct(eval_fields(s, shape, fields, from, done).state.vars, name, handle),
    decreases fields, fields.len() - from,
{
    if 0 <= from < fields.len() {
        if find(shape, fields[from].0@) is Some {
            lemma_eval_keeps_struct_bindings(s, fields[from].1, name, handle);
            let field = eval(s, fields[from].1);
            if let Ok(value) = field.result {
                if find(done, fields[from].0@) is None {
                    lemma_fields_keep_struct_bindings(
                        field.state,
                        shape,
                        fields,
                        from + 1,
                        done.push((fields[from].0@, value)),
                        name,
                        handle,
                    );
                }
            }
        }
    }
}

/// Assigning to an identifier that is bound to a whole struct always fails:
/// with the failure of the right-hand side if that fails, and with
/// `CannotReassignStruct` otherwise, whatever the value. The binding stays.
pub proof fn law_struct_binding_is_never_reassigned(
    s: State,
    name: String,
    rhs: Expr,
    handle: nat,
)
    requires
        bound_to_struct(s.vars, name@, handle),
    ensures
        ({
            let assign = Assign { lvalue: LValue::Ident(name), expr: rhs };
            let out = assignment(s, assign);
            &&& out.state == eval(s, rhs).state
            &&& out.result == match eval(s, rhs).result {
                Ok(_) => Err::<Value, EvalError>(EvalError::CannotReassignStruct),
                Err(e) => Err(e),
            }
            &&& bound_to_struct(out.state.vars, name@, handle)
        }),
{
    lemma_eval_keeps_struct_bindings(s, rhs, name@, handle);
}

/// A value assigned to a field of a struct is read back through every name
/// that is bound to that struct; the struct keeps its shape name, its number
/// of fields and each field's name; and every other aggregate stays as it
/// was. The assignment succeeds exactly when the value reports the type of
/// the value that the field held.
pub proof fn law_field_assignment_is_seen_through_aliases(
    s: State,
    path: Seq<Seq<char>>,
    value: Value,
    alias: Seq<char>,
    handle: nat,
)
    requires
        s.wf(),
        path.len() >= 2,
        find(s.vars, path[0]) matches Some(i) && descend(
            s.heap,
            s.vars[i].1,
            path,
            1,
            path.len() - 1,
        ) == Ok::<Value, EvalError>(Value::Struct(handle)),
        field_of(s.heap, Value::Struct(handle), path.last()) is Ok,
        bound_to_struct(s.vars, alias, handle),
    ensures
        ({
            let out = assign_path(s, path, value);
            let held = field_of(s.heap, Value::Struct(handle), path.last())->Ok_0;
            let before = s.heap[handle as int]->Struct_0;
            let after = out.state.heap[handle as int]->Struct_0;
            &&& out.result is Ok <==> type_of(s.heap, held) == type_of(s.heap, value)
            &&& out.result is Ok ==> {
                &&& out.result == Ok::<Value, EvalError>(value)
                &&& read_path(out.state, seq![alias, path.last()]) == Ok::<Value, EvalError>(value)
                &&& out.state.heap[handle as int] is Struct
                &&& after.name == before.name
                &&& after.fields.len() == before.fields.len()
                &&& forall|k: int|
                    0 <= k < before.fields.len() ==> (#[trigger] after.fields[k]).0
                        == before.fields[k].0
                &&& out.state.heap.len() == s.heap.len()
                &&& forall|h: int|
                    0 <= h < s.heap.len() && h != handle ==> #[trigger] out.state.heap[h]
                        == s.heap[h]
            }
            &&& out.result is Err ==> out.state == s
        }),
{
    let out = assign_path(s, path, value);
    let fields = s.heap[handle as int]->Struct_0.fields;
    lemma_find_from(fields, path.last(), 0);
    if out.result is Ok {
        let index = find(fields, path.last())->Some_0;
        let after = out.state.heap[handle as int]->Struct_0;
        lemma_find_update(fields, index, value, path.last());
        let names = seq![alias, path.last()];
        assert(names.len() == 2);
        assert(names[0] == alias);
        assert(names[1] == path.last());
        let j = find(s.vars, alias)->Some_0;
        assert(descend(out.state.heap, Value::Struct(handle), names, 2, 2) == Ok::<
            Value,
            EvalError,
        >(Value::Struct(handle)));
        assert(field_of(out.state.heap, Value::Struct(handle), path.last()) == Ok::<
            Value,
            EvalError,
        >(value));
        assert(descend(out.state.heap, value, names, 2, 2) == Ok::<Value, EvalError>(value));
        assert(descend(out.state.heap, s.vars[j].1, names, 1, 2) == Ok::<Value, EvalError>(value));
    }
}

/// A ternary is the evaluation of its condition followed by that of the
/// branch that the condition selects, and of nothing else: neither the
/// state nor the output holds any effect of the other branch.
pub proof fn law_ternary_evaluates_one_branch(s: State, tern: Ternary)
    ensures
        ({
            let cond = eval(s, tern.cond);
            eval(s, Expr::Ternary(Box::new(tern))) == match cond.result {
                Ok(Value::Bool(true)) => eval(cond.state, tern.branch1),
                Ok(Value::Bool(false)) => eval(cond.state, tern.branch2),
                Ok(_) => Outcome { state: cond.state, result: Err(EvalError::NonBooleanCondition) },
                Err(e) => Outcome { state: cond.state, result: Err(e) },
            }
        }),
{
}

/// How a primitive literal is spelled, a character and a string without
/// their quotes.
pub open spec fn atom_text(atom: Atom) -> Seq<char> {
    match atom {
        Atom::Void => "void"@,
        Atom::Bool(b) => if b {
            "true"@
        } else {
            "false"@
        },
        Atom::Int(i) => int_text(i as int),
        Atom::Float(text) => text@,
        Atom::Char(c) => seq![c],
        Atom::String(text) => text@,
    }
}

/// Evaluating an atom changes nothing and gives a value whose textual form
/// is the literal's spelling.
pub proof fn law_atom_prints_as_written(s: State, atom: Atom)
    ensures
        eval(s, Expr::Atom(atom)) == (Outcome { state: s, result: Ok(atom_value(atom)) }),
        display(s.heap, atom_value(atom)) == atom_text(atom),
{
}

/// A state is kept: the result is well formed, has the shapes of the one
/// before, and its store extends the store of the one before.
pub open spec fn kept(before: State, after: State) -> bool {
    &&& after.wf()
    &&& after.defs == before.defs
    &&& extends(before.heap, after.heap)
}

/// Following a path down from a valid value in a closed store leads to a
/// valid value.
pub proof fn lemma_descend_is_valid(
    heap: Seq<ObjectView>,
    current: Value,
    path: Seq<Seq<char>>,
    from: int,
    to: int,
)
    requires
        closed_heap(heap),
        valid_value(heap, current),
    ensures
        descend(heap, current, path, from, to) matches Ok(v) ==> valid_value(heap, v),
    decreases to - from,
{
    if !(from >= to || from < 0 || from >= path.len()) {
        if let Ok(next) = field_of(heap, current, path[from]) {
            lemma_field_valid(heap, current, path[from]);
            lemma_descend_is_valid(heap, next, path, from + 1, to);
        }
    }
}

/// Binding a name to a valid value keeps the state well formed.
pub proof fn lemma_bind_keeps_the_state(s: State, name: Seq<char>, value: Value)
    requires
        s.wf(),
        valid_value(s.heap, value),
    ensures
        kept(s, State { vars: bind(s.vars, name, value), ..s }),
{
    lemma_find_from(s.vars, name, 0);
    let vars = bind(s.vars, name, value);
    assert forall|i: int, j: int| 0 <= i < j < vars.len() implies (#[trigger] vars[i]).0 != (
    #[trigger] vars[j]).0 by {
        if find(s.vars, name) is Some {
            assert(vars[i].0 == s.vars[i].0);
            assert(vars[j].0 == s.vars[j].0);
        } else {
            if j < s.vars.len() {
                assert(vars[i] == s.vars[i]);
                assert(vars[j] == s.vars[j]);
            } else {
                assert(vars[i] == s.vars[i]);
            }
        }
    }
    assert forall|i: int| 0 <= i < vars.len() implies valid_value(s.heap, (#[trigger] vars[i]).1) by {
        if let Some(k) = find(s.vars, name) {
            if i != k {
                assert(vars[i] == s.vars[i]);
            }
        } else {
            if i < s.vars.len() {
                assert(vars[i] == s.vars[i]);
            }
        }
    }
}

/// Assigning a valid value at a path keeps the state, and what it returns
/// is valid.
pub proof fn lemma_assign_keeps_the_state(s: State, path: Seq<Seq<char>>, value: Value)
    requires
        s.wf(),
        valid_value(s.heap, value),
    ensures
        kept(s, assign_path(s, path, value).state),
        assign_path(s, path, value).result matches Ok(v) ==> valid_value(
            assign_path(s, path, value).state.heap,
            v,
        ),
{
    let out = assign_path(s, path, value);
    if path.len() == 1 {
        lemma_bind_keeps_the_state(s, path[0], value);
    } else if path.len() > 1 {
        lemma_find_from(s.vars, path[0], 0);
        if let Some(i) = find(s.vars, path[0]) {
            assert(valid_value(s.heap, s.vars[i].1));
            lemma_descend_is_valid(s.heap, s.vars[i].1, path, 1, path.len() - 1);
            if let Ok(target) = descend(s.heap, s.vars[i].1, path, 1, path.len() - 1) {
                if let Ok(held) = field_of(s.heap, target, path.last()) {
                    lemma_field_valid(s.heap, target, path.last());
                    if type_of(s.heap, held) == type_of(s.heap, value) {
                        let handle = target->Struct_0 as int;
                        let index = find(s.heap[handle]->Struct_0.fields, path.last())->Some_0;
                        lemma_with_field_wf(s, handle, index, value);
                        lemma_valid_extends(s.heap, out.state.heap, value);
                    }
                }
            }
        }
    }
}

/// Every evaluation keeps the state well formed: no shape, field or
/// binding is named twice, every value names an aggregate of its own kind,
/// and every struct has exactly the fields of its shape. It registers and
/// changes no shape, it keeps every aggregate under its handle and of its
/// kind, and the value it gives is valid in the state it leaves.
pub proof fn law_evaluation_keeps_the_state_well_formed(s: State, expr: Expr)
    requires
        s.wf(),
    ensures
        kept(s, eval(s, expr).state),
        eval(s, expr).result matches Ok(v) ==> valid_value(eval(s, expr).state.heap, v),
    decreases expr,
{
    match expr {
        Expr::Atom(atom) => {},
        Expr::LValue(lvalue) => {
            let path = lvalue_path(lvalue);
            if path.len() > 0 {
                lemma_find_from(s.vars, path[0], 0);
                if let Some(i) = find(s.vars, path[0]) {
                    assert(valid_value(s.heap, s.vars[i].1));
                    lemma_descend_is_valid(s.heap, s.vars[i].1, path, 1, path.len() as int);
                }
            }
        },
        Expr::StructInit(init) => {
            lemma_find_from(s.defs, init.name@, 0);
            if let Some(d) = find(s.defs, init.name@) {
                let shape = s.defs[d].1.fields();
                lemma_fields_keep_the_state(s, shape, init.fields@, 0, Seq::empty());
                let fields = eval_fields(s, shape, init.fields@, 0, Seq::empty());
                if let Ok(values) = fields.result {
                    if values.len() == shape.len() {
                        let object = ObjectView::Struct(
                            StructView { name: s.defs[d].0, fields: values },
                        );
                        assert(conforms(values, shape));
                        assert(find(fields.state.defs, s.defs[d].0) == Some(d));
                        lemma_push_wf(fields.state, object);
                        lemma_extends_trans(
                            s.heap,
                            fields.state.heap,
                            fields.state.heap.push(object),
                        );
                    }
                }
            }
        },
        Expr::ListInit(init) => {
            lemma_items_keep_the_state(s, init.exprs@, 0, Seq::empty());
            let items = eval_items(s, init.exprs@, 0, Seq::empty());
            if let Ok(values) = items.result {
                let object = ObjectView::List(values);
                lemma_push_wf(items.state, object);
                lemma_extends_trans(s.heap, items.state.heap, items.state.heap.push(object));
            }
        },
        Expr::Call(call) => {
            if call.args@.len() == 1 {
                law_evaluation_keeps_the_state_well_formed(s, call.args@[0]);
            }
        },
        Expr::BinExpr(bin) => {
            law_evaluation_keeps_the_state_well_formed(s, bin.left);
            let left = eval(s, bin.left);
            if left.result is Ok {
                law_evaluation_keeps_the_state_well_formed(left.state, bin.right);
                let right = eval(left.state, bin.right);
                lemma_extends_trans(s.heap, left.state.heap, right.state.heap);
            }
        },
        Expr::UnExpr(un) => {
            law_evaluation_keeps_the_state_well_formed(s, un.expr);
        },
        Expr::Assign(assign) => {
            law_evaluation_keeps_the_state_well_formed(s, assign.expr);
            let rhs = eval(s, assign.expr);
            if let Ok(value) = rhs.result {
                lemma_assign_keeps_the_state(rhs.state, lvalue_path(assign.lvalue), value);
                lemma_extends_trans(
                    s.heap,
                    rhs.state.heap,
                    assign_path(rhs.state, lvalue_path(assign.lvalue), value).state.heap,
                );
            }
        },
        Expr::Ternary(tern) => {
            law_evaluation_keeps_the_state_well_formed(s, tern.cond);
            let cond = eval(s, tern.cond);
            match cond.result {
                Ok(Value::Bool(true)) => {
                    law_evaluation_keeps_the_state_well_formed(cond.state, tern.branch1);
                    lemma_extends_trans(
                        s.heap,
                        cond.state.heap,
                        eval(cond.state, tern.branch1).state.heap,
                    );
                },
                Ok(Value::Bool(false)) => {
                    law_evaluation_keeps_the_state_well_formed(cond.state, tern.branch2);
                    lemma_extends_trans(
                        s.heap,
                        cond.state.heap,
                        eval(cond.state, tern.branch2).state.heap,
                    );
                },
                _ => {},
            }
        },
    }
}

proof fn lemma_items_keep_the_state(s: State, exprs: Seq<Expr>, from: int, done: Seq<Value>)
    requires
        s.wf(),
        forall|k: int| 0 <= k < done.len() ==> valid_value(s.heap, #[trigger] done[k]),
    ensures
        kept(s, eval_items(s, exprs, from, done).state),
        eval_items(s, exprs, from, done).result matches Ok(values) ==> forall|k: int|
            0 <= k < values.len() ==> valid_value(
                eval_items(s, exprs, from, done).state.heap,
                #[trigger] values[k],
            ),
    decreases exprs, exprs.len() - from,
{
    if 0 <= from < exprs.len() {
        law_evaluation_keeps_the_state_well_formed(s, exprs[from]);
        let item = eval(s, exprs[from]);
        if let Ok(value) = item.result {
            let next = done.push(value);
            assert forall|k: int| 0 <= k < next.len() implies valid_value(
                item.state.heap,
                #[trigger] next[k],
            ) by {
                if k < done.len() {
                    lemma_valid_extends(s.heap, item.state.heap, done[k]);
                }
            }
            lemma_items_keep_the_state(item.state, exprs, from + 1, next);
            lemma_extends_trans(
                s.heap,
                item.state.heap,
                eval_items(item.state, exprs, from + 1, next).state.heap,
            );
        }
    }
}

proof fn lemma_fields_keep_the_state<T>(
    s: State,
    shape: Seq<(Seq<char>, T)>,
    fields: Seq<(String, Expr)>,
    from: int,
    done: Seq<(Seq<char>, Value)>,
)
    requires
        s.wf(),
        distinct_keys(done),
        forall|k: int|
            0 <= k < done.len() ==> valid_value(s.heap, (#[trigger] done[k]).1) && find(
                shape,
                done[k].0,
            ) is Some,
    ensures
        kept(s, eval_fields(s, shape, fields, from, done).state),
        eval_fields(s, shape, fields, from, done).result matches Ok(values) ==> {
            &&& distinct_keys(values)
            &&& forall|k: int|
                0 <= k < values.len() ==> valid_value(
                    eval_fields(s, shape, fields, from, done).state.heap,
                    (#[trigger] values[k]).1,
                ) && find(shape, values[k].0) is Some
        },
    decreases fields, fields.len() - from,
{
    if 0 <= from < fields.len() {
        let name = fields[from].0@;
        if find(shape, name) is Some {
            law_evaluation_keeps_the_state_well_formed(s, fields[from].1);
            let field = eval(s, fields[from].1);
            if let Ok(value) = field.result {
                if find(done, name) is None {
                    let next = done.push((name, value));
                    lemma_find_from(done, name, 0);
                    assert forall|k: int| 0 <= k < next.len() implies valid_value(
                        field.state.heap,
                        (#[trigger] next[k]).1,
                    ) && find(shape, next[k].0) is Some by {
                        if k < done.len() {
                            lemma_valid_extends(s.heap, field.state.heap, done[k].1);
                        }
                    }
                    assert forall|i: int, j: int| 0 <= i < j < next.len() implies (
                    #[trigger] next[i]).0 != (#[trigger] next[j]).0 by {
                        if j < done.len() {
                            assert(next[i] == done[i]);
                            assert(next[j] == done[j]);
                        } else {
                            assert(next[i] == done[i]);
                        }
                    }
                    lemma_fields_keep_the_state(field.state, shape, fields, from + 1, next);
                    lemma_extends_trans(
                        s.heap,
                        field.state.heap,
                        eval_fields(field.state, shape, fields, from + 1, next).state.heap,
                    );
                }
            }
        }
    }
}

} // verus!
