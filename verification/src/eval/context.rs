//! The definition registry and the program state.

use crate::ast::{StructDef, TypeView};
use crate::eval::error::EvalError;
use crate::eval::operators::result_view;
use crate::eval::render::{display, render_var};
use crate::eval::store::{
    closed_heap, closed_object, extends, field_of, type_of, valid_value, with_field, Store,
};
use crate::eval::entries::{
    distinct_keys, find, has_distinct_keys, lemma_entry_view, lemma_find_from, lemma_find_push,
    lookup,
};
use crate::eval::value::{ObjectView, StructView, Value, Var};
use vstd::prelude::*;

verus! {

/// A shape: the fields that values built from it must have.
#[derive(Debug, PartialEq)]
pub enum Def {
    Struct(StructDef),
    Component(StructDef),
    Resource(StructDef),
}

/// The mathematical model of a [`Def`].
pub enum DefView {
    Struct(Seq<(Seq<char>, TypeView)>),
    Component(Seq<(Seq<char>, TypeView)>),
    Resource(Seq<(Seq<char>, TypeView)>),
}

impl DefView {
    /// The declared fields, whatever the kind of shape.
    pub open spec fn fields(self) -> Seq<(Seq<char>, TypeView)> {
        match self {
            DefView::Struct(fields) => fields,
            DefView::Component(fields) => fields,
            DefView::Resource(fields) => fields,
        }
    }
}

impl DeepView for Def {
    type V = DefView;

    open spec fn deep_view(&self) -> DefView {
        match self {
            Def::Struct(def) => DefView::Struct(def.deep_view()),
            Def::Component(def) => DefView::Component(def.deep_view()),
            Def::Resource(def) => DefView::Resource(def.deep_view()),
        }
    }
}

impl Def {
    /// The declared fields, whatever the kind of shape.
    pub fn struct_def(&self) -> (def: &StructDef)
        ensures
            def.deep_view() == self.deep_view().fields(),
    {
        match self {
            Def::Struct(def) => def,
            Def::Component(def) => def,
            Def::Resource(def) => def,
        }
    }
}

/// The mathematical model of a [`Context`]: the registered shapes, the
/// bindings, the store of aggregates and the text printed so far.
pub struct State {
    pub defs: Seq<(Seq<char>, DefView)>,
    pub vars: Seq<(Seq<char>, Value)>,
    pub heap: Seq<ObjectView>,
    pub output: Seq<Seq<char>>,
}

/// The fields of a struct value are those of its shape: no name twice, as
/// many as declared, each of them declared.
pub open spec fn conforms(
    fields: Seq<(Seq<char>, Value)>,
    shape: Seq<(Seq<char>, TypeView)>,
) -> bool {
    &&& distinct_keys(fields)
    &&& fields.len() == shape.len()
    &&& forall|i: int| 0 <= i < fields.len() ==> find(shape, (#[trigger] fields[i]).0) is Some
}

/// A struct in the store has the fields of its registered shape.
pub open spec fn shaped_object(defs: Seq<(Seq<char>, DefView)>, object: ObjectView) -> bool {
    match object {
        ObjectView::List(_) => true,
        ObjectView::Struct(s) => find(defs, s.name) matches Some(d) && conforms(
            s.fields,
            defs[d].1.fields(),
        ),
    }
}

impl State {
    /// The state's invariant: no shape, field or binding is named twice;
    /// every value names an aggregate of its own kind; every struct has the
    /// fields of its registered shape.
    pub open spec fn wf(self) -> bool {
        &&& distinct_keys(self.defs)
        &&& forall|i: int|
            0 <= i < self.defs.len() ==> distinct_keys((#[trigger] self.defs[i]).1.fields())
        &&& distinct_keys(self.vars)
        &&& forall|i: int|
            0 <= i < self.vars.len() ==> valid_value(self.heap, (#[trigger] self.vars[i]).1)
        &&& closed_heap(self.heap)
        &&& forall|h: int|
            0 <= h < self.heap.len() ==> shaped_object(self.defs, #[trigger] self.heap[h])
    }
}

/// A state and what an evaluation in it gave.
pub struct Outcome {
    pub state: State,
    pub result: Result<Value, EvalError>,
}

/// Follows the segments `path[from..to]` down from `current`, each through
/// a field of a struct.
pub open spec fn descend(
    heap: Seq<ObjectView>,
    current: Value,
    path: Seq<Seq<char>>,
    from: int,
    to: int,
) -> Result<Value, EvalError>
    decreases to - from,
{
    if from >= to || from < 0 || from >= path.len() {
        Ok(current)
    } else {
        match field_of(heap, current, path[from]) {
            Ok(next) => descend(heap, next, path, from + 1, to),
            Err(e) => Err(e),
        }
    }
}

/// The bindings with `name` bound to `value`: in the place of the value that
/// the name was bound to, or at the end if it was not bound.
pub open spec fn bind(vars: Seq<(Seq<char>, Value)>, name: Seq<char>, value: Value) -> Seq<
    (Seq<char>, Value),
> {
    match find(vars, name) {
        Some(i) => vars.update(i, (name, value)),
        None => vars.push((name, value)),
    }
}

/// The value at a path: the binding that the first segment names, then a
/// field for each further segment.
pub open spec fn read_path(s: State, path: Seq<Seq<char>>) -> Result<Value, EvalError> {
    if path.len() == 0 {
        Err(EvalError::UndefinedName)
    } else {
        match find(s.vars, path[0]) {
            Some(i) => descend(s.heap, s.vars[i].1, path, 1, path.len() as int),
            None => Err(EvalError::UndefinedName),
        }
    }
}

/// Assigning `value` at a path.
///
/// A path of one segment binds that name, unless it is bound to a struct.
/// A longer path names a field of the struct that its prefix leads to; the
/// field takes `value` if the value it held reports the same type. A
/// failure leaves the state as it was.
pub open spec fn assign_path(s: State, path: Seq<Seq<char>>, value: Value) -> Outcome {
    if path.len() == 0 {
        Outcome { state: s, result: Err(EvalError::UndefinedName) }
    } else if path.len() == 1 {
        if find(s.vars, path[0]) matches Some(i) && s.vars[i].1 is Struct {
            Outcome { state: s, result: Err(EvalError::CannotReassignStruct) }
        } else {
            Outcome { state: State { vars: bind(s.vars, path[0], value), ..s }, result: Ok(value) }
        }
    } else {
        match find(s.vars, path[0]) {
            None => Outcome { state: s, result: Err(EvalError::UndefinedName) },
            Some(i) => match descend(s.heap, s.vars[i].1, path, 1, path.len() - 1) {
                Err(e) => Outcome { state: s, result: Err(e) },
                Ok(target) => match field_of(s.heap, target, path.last()) {
                    Err(e) => Outcome { state: s, result: Err(e) },
                    Ok(held) => if type_of(s.heap, held) != type_of(s.heap, value) {
                        Outcome { state: s, result: Err(EvalError::TypeMismatch) }
                    } else {
                        let handle = target->Struct_0 as int;
                        let index = find(s.heap[handle]->Struct_0.fields, path.last())->Some_0;
                        Outcome {
                            state: State { heap: with_field(s.heap, handle, index, value), ..s },
                            result: Ok(value),
                        }
                    },
                },
            },
        }
    }
}

/// A valid value stays valid in a store that extends the one it was valid
/// in.
pub proof fn lemma_valid_extends(before: Seq<ObjectView>, after: Seq<ObjectView>, value: Value)
    requires
        extends(before, after),
        valid_value(before, value),
    ensures
        valid_value(after, value),
{
    match value {
        Value::List(handle) => {
            assert(before[handle as int] is List);
        },
        Value::Struct(handle) => {
            assert(before[handle as int] is Struct);
        },
        _ => {},
    }
}

/// The field of a valid struct in a closed store is a valid value.
pub proof fn lemma_field_valid(heap: Seq<ObjectView>, value: Value, name: Seq<char>)
    requires
        closed_heap(heap),
        valid_value(heap, value),
        field_of(heap, value, name) is Ok,
    ensures
        valid_value(heap, field_of(heap, value, name)->Ok_0),
        value is Struct,
        find(heap[value->Struct_0 as int]->Struct_0.fields, name) matches Some(i) && 0 <= i
            < heap[value->Struct_0 as int]->Struct_0.fields.len(),
{
    let handle = value->Struct_0 as int;
    let fields = heap[handle]->Struct_0.fields;
    lemma_find_from(fields, name, 0);
    assert(closed_object(heap, heap[handle]));
}

/// Replacing a field's value by a valid value keeps the invariant, and the
/// store extends the one before.
pub proof fn lemma_with_field_wf(s: State, handle: int, index: int, value: Value)
    requires
        s.wf(),
        0 <= handle < s.heap.len(),
        s.heap[handle] is Struct,
        0 <= index < s.heap[handle]->Struct_0.fields.len(),
        valid_value(s.heap, value),
    ensures
        (State { heap: with_field(s.heap, handle, index, value), ..s }).wf(),
        extends(s.heap, with_field(s.heap, handle, index, value)),
{
    let heap = with_field(s.heap, handle, index, value);
    let old_fields = s.heap[handle]->Struct_0.fields;
    let new_fields = heap[handle]->Struct_0.fields;
    assert(extends(s.heap, heap));
    assert forall|v: Value| valid_value(s.heap, v) implies valid_value(heap, v) by {
        lemma_valid_extends(s.heap, heap, v);
    }
    assert forall|h: int| 0 <= h < heap.len() implies closed_object(heap, #[trigger] heap[h]) by {
        assert(closed_object(s.heap, s.heap[h]));
        if h == handle {
            assert forall|i: int| 0 <= i < new_fields.len() implies valid_value(
                heap,
                (#[trigger] new_fields[i]).1,
            ) by {
                if i != index {
                    assert(new_fields[i] == old_fields[i]);
                }
            }
        }
    }
    assert forall|h: int| 0 <= h < heap.len() implies shaped_object(s.defs, #[trigger] heap[h]) by {
        assert(shaped_object(s.defs, s.heap[h]));
        if h == handle {
            let d = find(s.defs, s.heap[h]->Struct_0.name)->Some_0;
            let shape = s.defs[d].1.fields();
            assert forall|i: int| 0 <= i < new_fields.len() implies find(
                shape,
                (#[trigger] new_fields[i]).0,
            ) is Some by {
                assert(new_fields[i].0 == old_fields[i].0);
            }
            assert forall|i: int, j: int| 0 <= i < j < new_fields.len() implies (
            #[trigger] new_fields[i]).0 != (#[trigger] new_fields[j]).0 by {
                assert(new_fields[i].0 == old_fields[i].0);
                assert(new_fields[j].0 == old_fields[j].0);
            }
        }
    }
    assert forall|i: int| 0 <= i < s.vars.len() implies valid_value(
        heap,
        (#[trigger] s.vars[i]).1,
    ) by {}
}

/// A new aggregate that holds valid values, and has the fields of its shape
/// if it is a struct, keeps the invariant, and the store extends the one
/// before.
pub proof fn lemma_push_wf(s: State, object: ObjectView)
    requires
        s.wf(),
        closed_object(s.heap, object),
        shaped_object(s.defs, object),
    ensures
        (State { heap: s.heap.push(object), ..s }).wf(),
        extends(s.heap, s.heap.push(object)),
{
    let heap = s.heap.push(object);
    assert(extends(s.heap, heap));
    assert forall|v: Value| valid_value(s.heap, v) implies valid_value(heap, v) by {
        lemma_valid_extends(s.heap, heap, v);
    }
    assert forall|h: int| 0 <= h < heap.len() implies closed_object(heap, #[trigger] heap[h]) by {
        if h < s.heap.len() {
            assert(closed_object(s.heap, s.heap[h]));
        }
    }
    assert forall|h: int| 0 <= h < heap.len() implies shaped_object(s.defs, #[trigger] heap[h]) by {
        if h < s.heap.len() {
            assert(shaped_object(s.defs, s.heap[h]));
        }
    }
    assert forall|i: int| 0 <= i < s.vars.len() implies valid_value(
        heap,
        (#[trigger] s.vars[i]).1,
    ) by {}
}

/// The registry of shapes, the bindings, the store of aggregates and the
/// text printed so far. It is handed to every evaluation.
pub struct Context {
    pub(crate) defs: Vec<(String, Def)>,
    pub(crate) vars: Vec<(String, Var)>,
    pub(crate) store: Store,
    pub(crate) output: Vec<String>,
}

impl DeepView for Context {
    type V = State;

    closed spec fn deep_view(&self) -> State {
        State {
            defs: self.defs.deep_view(),
            vars: self.vars.deep_view(),
            heap: self.store@,
            output: self.output.deep_view(),
        }
    }
}

impl View for Context {
    type V = State;

    open spec fn view(&self) -> State {
        self.deep_view()
    }
}

impl Context {
    /// A context with no shape, no binding, an empty store and no output.
    pub fn new() -> (ctx: Context)
        ensures
            ctx@.wf(),
            ctx@.defs.len() == 0,
            ctx@.vars.len() == 0,
            ctx@.heap.len() == 0,
            ctx@.output.len() == 0,
    {
        Context { defs: Vec::new(), vars: Vec::new(), store: Store::new(), output: Vec::new() }
    }

    /// Registers a shape. Nothing is registered, and `false` returned, when
    /// the name is taken or the shape declares a field twice.
    pub fn add_def(&mut self, name: String, def: Def) -> (added: bool)
        requires
            old(self)@.wf(),
        ensures
            final(self)@.wf(),
            added == (find(old(self)@.defs, name@) is None && distinct_keys(
                def.deep_view().fields(),
            )),
            added ==> final(self)@ == (State {
                defs: old(self)@.defs.push((name@, def.deep_view())),
                ..old(self)@
            }),
            !added ==> final(self)@ == old(self)@,
    {
        if lookup(&self.defs, name.as_str()).is_some() {
            return false;
        }
        if !has_distinct_keys(&def.struct_def().fields) {
            return false;
        }
        proof {
            lemma_find_from(self@.defs, name@, 0);
        }
        let ghost before = self@;
        self.defs.push((name, def));
        proof {
            let after = self@;
            assert(after.defs =~= before.defs.push((name@, def.deep_view())));
            assert(after.vars =~= before.vars);
            assert(after.heap =~= before.heap);
            assert(after.output =~= before.output);
            assert forall|h: int| 0 <= h < after.heap.len() implies shaped_object(
                after.defs,
                #[trigger] after.heap[h],
            ) by {
                assert(shaped_object(before.defs, before.heap[h]));
                if let ObjectView::Struct(s) = after.heap[h] {
                    lemma_find_push(before.defs, (name@, def.deep_view()), s.name);
                    lemma_find_from(before.defs, s.name, 0);
                }
            }
        }
        true
    }

    /// Whether the fields are those of the shape: no name twice, as many as
    /// declared, each of them declared.
    fn fields_conform(fields: &Vec<(String, Var)>, shape: &StructDef) -> (ok: bool)
        ensures
            ok == conforms(fields.deep_view(), shape.deep_view()),
    {
        if !has_distinct_keys(fields) || fields.len() != shape.fields.len() {
            return false;
        }
        let mut i: usize = 0;
        while i < fields.len()
            invariant
                i <= fields.len(),
                forall|k: int|
                    0 <= k < i ==> find(shape.deep_view(), (#[trigger] fields.deep_view()[k]).0)
                        is Some,
            decreases fields.len() - i,
        {
            proof {
                lemma_entry_view(*fields, i as int);
            }
            if lookup(&shape.fields, fields[i].0.as_str()).is_none() {
                return false;
            }
            i += 1;
        }
        true
    }

    /// Whether every struct in the store has the fields of its registered
    /// shape.
    fn structs_are_shaped(&self) -> (ok: bool)
        ensures
            ok == (forall|h: int|
                0 <= h < self@.heap.len() ==> shaped_object(self@.defs, #[trigger] self@.heap[h])),
    {
        let mut h: usize = 0;
        while h < self.store.len()
            invariant
                h <= self@.heap.len(),
                forall|k: int|
                    0 <= k < h ==> shaped_object(self@.defs, #[trigger] self@.heap[k]),
            decreases self@.heap.len() - h,
        {
            if self.store.holds(&Var::Struct(h)) {
                let s = self.store.struct_at(h);
                let ok = match lookup(&self.defs, s.name.as_str()) {
                    Some(d) => {
                        proof {
                            lemma_entry_view(self.defs, d as int);
                        }
                        Self::fields_conform(&s.fields, self.defs[d].1.struct_def())
                    },
                    None => false,
                };
                if !ok {
                    assert(!shaped_object(self@.defs, self@.heap[h as int]));
                    return false;
                }
            }
            h += 1;
        }
        true
    }

    /// Whether no shape declares a field twice.
    fn shapes_are_distinct(&self) -> (ok: bool)
        ensures
            ok == (forall|i: int|
                0 <= i < self@.defs.len() ==> distinct_keys(
                    (#[trigger] self@.defs[i]).1.fields(),
                )),
    {
        let mut i: usize = 0;
        while i < self.defs.len()
            invariant
                i <= self.defs.len(),
                self.defs.len() == self@.defs.len(),
                forall|k: int|
                    0 <= k < i ==> distinct_keys((#[trigger] self@.defs[k]).1.fields()),
            decreases self.defs.len() - i,
        {
            proof {
                lemma_entry_view(self.defs, i as int);
            }
            if !has_distinct_keys(&self.defs[i].1.struct_def().fields) {
                return false;
            }
            i += 1;
        }
        true
    }

    /// Whether the context is well formed. A context that this library
    /// made and changed always is.
    pub fn is_well_formed(&self) -> (ok: bool)
        ensures
            ok == self@.wf(),
    {
        has_distinct_keys(&self.defs) && self.shapes_are_distinct() && has_distinct_keys(
            &self.vars,
        ) && self.store.holds_values(&self.vars) && self.store.is_closed()
            && self.structs_are_shaped()
    }

    /// Whether `value` names an aggregate of its own kind in this context's
    /// store; a primitive always does.
    pub fn holds(&self, value: &Var) -> (valid: bool)
        ensures
            valid == valid_value(self@.heap, value@),
    {
        self.store.holds(value)
    }

    /// The store of aggregates.
    pub fn store(&self) -> (store: &Store)
        ensures
            store@ == self@.heap,
    {
        &self.store
    }

    /// The text printed so far, oldest first.
    pub fn output(&self) -> (lines: &Vec<String>)
        ensures
            lines.deep_view() == self@.output,
    {
        &self.output
    }

    /// Hands out the text printed so far and starts anew with none.
    pub fn take_output(&mut self) -> (lines: Vec<String>)
        ensures
            lines.deep_view() == old(self)@.output,
            final(self)@ == (State { output: Seq::empty(), ..old(self)@ }),
    {
        let mut lines: Vec<String> = Vec::new();
        core::mem::swap(&mut self.output, &mut lines);
        assert(self.output.deep_view() =~= Seq::<Seq<char>>::empty());
        lines
    }

    /// The index of the shape registered under `name`.
    pub fn def_index(&self, name: &str) -> (found: Option<usize>)
        ensures
            found.is_some() == find(self@.defs, name@).is_some(),
            found matches Some(i) ==> i < self@.defs.len() && find(self@.defs, name@) == Some(
                i as int,
            ),
    {
        lookup(&self.defs, name)
    }

    /// Whether the shape at `def` declares a field `field`.
    pub fn declares(&self, def: usize, field: &str) -> (yes: bool)
        requires
            def < self@.defs.len(),
        ensures
            yes == find(self@.defs[def as int].1.fields(), field@).is_some(),
    {
        proof {
            lemma_entry_view(self.defs, def as int);
        }
        lookup(&self.defs[def].1.struct_def().fields, field).is_some()
    }

    /// The number of fields that the shape at `def` declares.
    pub fn field_count(&self, def: usize) -> (n: usize)
        requires
            def < self@.defs.len(),
        ensures
            n == self@.defs[def as int].1.fields().len(),
    {
        proof {
            lemma_entry_view(self.defs, def as int);
        }
        self.defs[def].1.struct_def().fields.len()
    }

    /// Follows the segments `path[from..to]` down from `start`.
    pub fn walk(&self, start: Var, path: &Vec<String>, from: usize, to: usize) -> (found: Result<
        Var,
        EvalError,
    >)
        requires
            from <= to <= path.len(),
        ensures
            result_view(found) == descend(
                self@.heap,
                start@,
                path.deep_view(),
                from as int,
                to as int,
            ),
            closed_heap(self@.heap) && valid_value(self@.heap, start@) ==> (found matches Ok(v)
                ==> valid_value(self@.heap, v@)),
    {
        let ghost heap = self@.heap;
        let ghost names = path.deep_view();
        let ghost first = start@;
        let mut current = start;
        let mut k = from;
        while k < to
            invariant
                from <= k <= to <= path.len(),
                heap == self@.heap,
                names == path.deep_view(),
                first == start@,
                descend(heap, current@, names, k as int, to as int) == descend(
                    heap,
                    first,
                    names,
                    from as int,
                    to as int,
                ),
                closed_heap(heap) && valid_value(heap, first) ==> valid_value(heap, current@),
            decreases to - k,
        {
            assert(names[k as int] == path[k as int]@);
            match self.store.field(&current, path[k].as_str()) {
                Ok(next) => {
                    proof {
                        if closed_heap(heap) && valid_value(heap, first) {
                            lemma_field_valid(heap, current@, names[k as int]);
                        }
                    }
                    current = next;
                },
                Err(e) => {
                    assert(names.len() == path.len());
                    assert(field_of(heap, current@, names[k as int]) == Err::<Value, EvalError>(e));
                    assert(descend(heap, current@, names, k as int, to as int) == Err::<
                        Value,
                        EvalError,
                    >(e));
                    return Err(e);
                },
            }
            k += 1;
        }
        Ok(current)
    }

    /// The value at a path: a copy, so that a list or a struct still names
    /// the aggregate that the path leads to.
    pub fn get_var(&self, path: &Vec<String>) -> (found: Result<Var, EvalError>)
        ensures
            result_view(found) == read_path(self@, path.deep_view()),
            self@.wf() ==> (found matches Ok(v) ==> valid_value(self@.heap, v@)),
    {
        if path.len() == 0 {
            return Err(EvalError::UndefinedName);
        }
        assert(path.deep_view()[0] == path[0]@);
        match lookup(&self.vars, path[0].as_str()) {
            Some(i) => {
                proof {
                    lemma_entry_view(self.vars, i as int);
                }
                self.walk(self.vars[i].1.clone(), path, 1, path.len())
            },
            None => Err(EvalError::UndefinedName),
        }
    }

    /// Binds `name` to `value`, whatever it was bound to.
    pub fn set_var(&mut self, name: &str, value: Var)
        requires
            old(self)@.wf(),
            valid_value(old(self)@.heap, value@),
        ensures
            final(self)@.wf(),
            final(self)@ == (State {
                vars: bind(old(self)@.vars, name@, value@),
                ..old(self)@
            }),
    {
        let ghost before = self@;
        proof {
            lemma_find_from(before.vars, name@, 0);
        }
        match lookup(&self.vars, name) {
            Some(i) => {
                self.vars[i] = (name.to_owned(), value);
                assert(self.vars.deep_view() =~= before.vars.update(i as int, (name@, value@)));
            },
            None => {
                self.vars.push((name.to_owned(), value));
                assert(self.vars.deep_view() =~= before.vars.push((name@, value@)));
            },
        }
    }

    /// Assigns `value` at a path and returns it.
    pub fn assign(&mut self, path: &Vec<String>, value: Var) -> (out: Result<Var, EvalError>)
        requires
            old(self)@.wf(),
            valid_value(old(self)@.heap, value@),
        ensures
            final(self)@.wf(),
            extends(old(self)@.heap, final(self)@.heap),
            final(self)@ == assign_path(old(self)@, path.deep_view(), value@).state,
            result_view(out) == assign_path(old(self)@, path.deep_view(), value@).result,
            out matches Ok(v) ==> valid_value(final(self)@.heap, v@),
    {
        let ghost before = self@;
        let ghost names = path.deep_view();
        if path.len() == 0 {
            return Err(EvalError::UndefinedName);
        }
        assert(names[0] == path[0]@);
        let found = lookup(&self.vars, path[0].as_str());
        if path.len() == 1 {
            if let Some(i) = found {
                proof {
                    lemma_entry_view(self.vars, i as int);
                }
                if let Var::Struct(_) = &self.vars[i].1 {
                    return Err(EvalError::CannotReassignStruct);
                }
            }
            let copy = value.clone();
            self.set_var(path[0].as_str(), value);
            return Ok(copy);
        }
        let first = match found {
            Some(i) => {
                proof {
                    lemma_entry_view(self.vars, i as int);
                }
                self.vars[i].1.clone()
            },
            None => {
                return Err(EvalError::UndefinedName);
            },
        };
        let last = path.len() - 1;
        assert(names[last as int] == path[last as int]@);
        assert(names.last() == names[last as int]);
        let target = match self.walk(first, path, 1, last) {
            Ok(target) => target,
            Err(e) => {
                return Err(e);
            },
        };
        let held = match self.store.field(&target, path[last].as_str()) {
            Ok(held) => held,
            Err(e) => {
                return Err(e);
            },
        };
        if !self.store.same_type(&held, &value) {
            return Err(EvalError::TypeMismatch);
        }
        proof {
            lemma_field_valid(before.heap, target@, names.last());
        }
        match target {
            Var::Struct(handle) => {
                let index = match lookup(&self.store.struct_at(handle).fields, path[last].as_str()) {
                    Some(index) => index,
                    None => vstd::pervasive::unreached(),
                };
                let copy = value.clone();
                proof {
                    lemma_with_field_wf(before, handle as int, index as int, value@);
                }
                self.store.set_field(handle, index, value);
                Ok(copy)
            },
            _ => vstd::pervasive::unreached(),
        }
    }

    /// Puts a new list that holds `items` into the store.
    pub fn new_list(&mut self, items: Vec<Var>) -> (list: Var)
        requires
            old(self)@.wf(),
            forall|i: int|
                0 <= i < items.len() ==> valid_value(
                    old(self)@.heap,
                    #[trigger] items.deep_view()[i],
                ),
        ensures
            final(self)@.wf(),
            extends(old(self)@.heap, final(self)@.heap),
            final(self)@ == (State {
                heap: old(self)@.heap.push(ObjectView::List(items.deep_view())),
                ..old(self)@
            }),
            list@ == Value::List(old(self)@.heap.len()),
            valid_value(final(self)@.heap, list@),
    {
        proof {
            lemma_push_wf(self@, ObjectView::List(items.deep_view()));
        }
        self.store.alloc_list(items)
    }

    /// Puts a new struct of the shape at `def` into the store.
    pub fn new_struct(&mut self, def: usize, fields: Vec<(String, Var)>) -> (value: Var)
        requires
            old(self)@.wf(),
            def < old(self)@.defs.len(),
            conforms(fields.deep_view(), old(self)@.defs[def as int].1.fields()),
            forall|i: int|
                0 <= i < fields.len() ==> valid_value(
                    old(self)@.heap,
                    (#[trigger] fields.deep_view()[i]).1,
                ),
        ensures
            final(self)@.wf(),
            extends(old(self)@.heap, final(self)@.heap),
            final(self)@ == (State {
                heap: old(self)@.heap.push(
                    ObjectView::Struct(
                        StructView {
                            name: old(self)@.defs[def as int].0,
                            fields: fields.deep_view(),
                        },
                    ),
                ),
                ..old(self)@
            }),
            value@ == Value::Struct(old(self)@.heap.len()),
            valid_value(final(self)@.heap, value@),
    {
        proof {
            lemma_entry_view(self.defs, def as int);
            lemma_find_from(self@.defs, self@.defs[def as int].0, 0);
            lemma_push_wf(
                self@,
                ObjectView::Struct(
                    StructView { name: self@.defs[def as int].0, fields: fields.deep_view() },
                ),
            );
        }
        let name = self.defs[def].0.clone();
        self.store.alloc_struct(name, fields)
    }

    /// Prints a value: its textual form is added to the output.
    pub fn print(&mut self, value: &Var)
        ensures
            final(self)@ == (State {
                output: old(self)@.output.push(display(old(self)@.heap, value@)),
                ..old(self)@
            }),
    {
        let text = render_var(&self.store, value);
        self.output.push(text);
        assert(self.output.deep_view() =~= old(self).output.deep_view().push(text@));
    }

    /// The shape registered under `name`.
    pub fn get_def(&self, name: &str) -> (def: Result<&Def, EvalError>)
        ensures
            match def {
                Ok(d) => find(self@.defs, name@) matches Some(i) && d.deep_view()
                    == self@.defs[i].1,
                Err(e) => e == EvalError::UndefinedName && find(
                    self@.defs,
                    name@,
                ) is None,
            },
    {
        match lookup(&self.defs, name) {
            Some(i) => {
                proof {
                    lemma_entry_view(self.defs, i as int);
                }
                Ok(&self.defs[i].1)
            },
            None => Err(EvalError::UndefinedName),
        }
    }
}

} // verus!
