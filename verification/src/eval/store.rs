//! The store of aggregates: lists and structs, named by handles.

use crate::eval::entries::{find, lemma_entry_view, lookup, same_text};
use crate::eval::error::EvalError;
use crate::eval::value::{Object, ObjectView, Struct, StructView, Value, Var};
use vstd::prelude::*;

verus! {

/// The type that a value reports: its variant and, for a struct, the name of
/// its shape.
#[derive(Clone, Debug, PartialEq)]
pub enum VarType {
    Void,
    Bool,
    Int,
    Float,
    Char,
    String,
    List,
    Struct(String),
}

/// The mathematical model of a [`VarType`].
pub enum VarTypeView {
    Void,
    Bool,
    Int,
    Float,
    Char,
    String,
    List,
    Struct(Seq<char>),
}

impl DeepView for VarType {
    type V = VarTypeView;

    open spec fn deep_view(&self) -> VarTypeView {
        match self {
            VarType::Void => VarTypeView::Void,
            VarType::Bool => VarTypeView::Bool,
            VarType::Int => VarTypeView::Int,
            VarType::Float => VarTypeView::Float,
            VarType::Char => VarTypeView::Char,
            VarType::String => VarTypeView::String,
            VarType::List => VarTypeView::List,
            VarType::Struct(name) => VarTypeView::Struct(name@),
        }
    }
}

/// A handle names an aggregate of its own kind in the store.
pub open spec fn valid_value(heap: Seq<ObjectView>, value: Value) -> bool {
    match value {
        Value::List(handle) => handle < heap.len() && heap[handle as int] is List,
        Value::Struct(handle) => handle < heap.len() && heap[handle as int] is Struct,
        _ => true,
    }
}

/// Every value held inside an aggregate is valid.
pub open spec fn closed_object(heap: Seq<ObjectView>, object: ObjectView) -> bool {
    match object {
        ObjectView::List(items) => forall|i: int|
            0 <= i < items.len() ==> valid_value(heap, #[trigger] items[i]),
        ObjectView::Struct(s) => forall|i: int|
            0 <= i < s.fields.len() ==> valid_value(heap, (#[trigger] s.fields[i]).1),
    }
}

/// Every value held inside any aggregate of the store is valid.
pub open spec fn closed_heap(heap: Seq<ObjectView>) -> bool {
    forall|h: int| 0 <= h < heap.len() ==> closed_object(heap, #[trigger] heap[h])
}

/// `after` keeps every aggregate of `before` under its handle, as a list
/// where it was a list and as a struct of the same shape name where it was
/// a struct.
pub open spec fn extends(before: Seq<ObjectView>, after: Seq<ObjectView>) -> bool {
    &&& before.len() <= after.len()
    &&& forall|h: int|
        0 <= h < before.len() ==> match #[trigger] before[h] {
            ObjectView::List(_) => after[h] is List,
            ObjectView::Struct(s) => after[h] matches ObjectView::Struct(t) && t.name == s.name,
        }
}

/// The type that a value reports.
pub open spec fn type_of(heap: Seq<ObjectView>, value: Value) -> VarTypeView {
    match value {
        Value::Void => VarTypeView::Void,
        Value::Bool(_) => VarTypeView::Bool,
        Value::Int(_) => VarTypeView::Int,
        Value::Float(_) => VarTypeView::Float,
        Value::Char(_) => VarTypeView::Char,
        Value::Text(_) => VarTypeView::String,
        Value::List(_) => VarTypeView::List,
        Value::Struct(handle) => if handle < heap.len() && heap[handle as int] is Struct {
            VarTypeView::Struct(heap[handle as int]->Struct_0.name)
        } else {
            VarTypeView::Struct(Seq::empty())
        },
    }
}

/// The value of the field `name` of `value`: `NotAStruct` unless `value` is
/// a struct, `UnknownField` unless the struct has the field.
pub open spec fn field_of(heap: Seq<ObjectView>, value: Value, name: Seq<char>) -> Result<
    Value,
    EvalError,
> {
    match value {
        Value::Struct(handle) => if handle < heap.len() && heap[handle as int] is Struct {
            let fields = heap[handle as int]->Struct_0.fields;
            match find(fields, name) {
                Some(i) => Ok(fields[i].1),
                None => Err(EvalError::UnknownField),
            }
        } else {
            Err(EvalError::NotAStruct)
        },
        _ => Err(EvalError::NotAStruct),
    }
}

/// The store with the field at `index` of the struct under `handle`
/// replaced by `value`: the field's name, the other fields and every other
/// aggregate stay.
pub open spec fn with_field(heap: Seq<ObjectView>, handle: int, index: int, value: Value) -> Seq<
    ObjectView,
> {
    let s = heap[handle]->Struct_0;
    heap.update(
        handle,
        ObjectView::Struct(
            StructView { name: s.name, fields: s.fields.update(index, (s.fields[index].0, value)) },
        ),
    )
}

/// The store of aggregates.
pub struct Store {
    pub(crate) objects: Vec<Object>,
}

impl DeepView for Store {
    type V = Seq<ObjectView>;

    closed spec fn deep_view(&self) -> Seq<ObjectView> {
        self.objects.deep_view()
    }
}

impl View for Store {
    type V = Seq<ObjectView>;

    open spec fn view(&self) -> Seq<ObjectView> {
        self.deep_view()
    }
}

impl Store {
    /// An empty store.
    pub fn new() -> (store: Store)
        ensures
            store@.len() == 0,
    {
        Store { objects: Vec::new() }
    }

    /// The number of aggregates in the store.
    pub fn len(&self) -> (n: usize)
        ensures
            n == self@.len(),
    {
        self.objects.len()
    }

    /// Whether `value` names an aggregate of its own kind in this store;
    /// a primitive always does.
    pub fn holds(&self, value: &Var) -> (valid: bool)
        ensures
            valid == valid_value(self@, value@),
    {
        match value {
            Var::List(handle) => {
                if *handle < self.objects.len() {
                    match &self.objects[*handle] {
                        Object::List(_) => true,
                        Object::Struct(_) => false,
                    }
                } else {
                    false
                }
            },
            Var::Struct(handle) => {
                if *handle < self.objects.len() {
                    match &self.objects[*handle] {
                        Object::List(_) => false,
                        Object::Struct(_) => true,
                    }
                } else {
                    false
                }
            },
            _ => true,
        }
    }

    /// Whether every item names an aggregate of its own kind in this store.
    pub fn holds_all(&self, items: &Vec<Var>) -> (ok: bool)
        ensures
            ok == (forall|i: int|
                0 <= i < items.len() ==> valid_value(self@, #[trigger] items.deep_view()[i])),
    {
        let mut i: usize = 0;
        while i < items.len()
            invariant
                i <= items.len(),
                forall|k: int| 0 <= k < i ==> valid_value(self@, #[trigger] items.deep_view()[k]),
            decreases items.len() - i,
        {
            assert(items.deep_view()[i as int] == items[i as int]@);
            if !self.holds(&items[i]) {
                return false;
            }
            i += 1;
        }
        true
    }

    /// Whether the value of every entry names an aggregate of its own kind
    /// in this store.
    pub fn holds_values(&self, entries: &Vec<(String, Var)>) -> (ok: bool)
        ensures
            ok == (forall|i: int|
                0 <= i < entries.len() ==> valid_value(
                    self@,
                    (#[trigger] entries.deep_view()[i]).1,
                )),
    {
        let mut i: usize = 0;
        while i < entries.len()
            invariant
                i <= entries.len(),
                forall|k: int|
                    0 <= k < i ==> valid_value(self@, (#[trigger] entries.deep_view()[k]).1),
            decreases entries.len() - i,
        {
            proof {
                lemma_entry_view(*entries, i as int);
            }
            if !self.holds(&entries[i].1) {
                return false;
            }
            i += 1;
        }
        true
    }

    /// Whether every value held inside any aggregate of the store is valid.
    pub fn is_closed(&self) -> (ok: bool)
        ensures
            ok == closed_heap(self@),
    {
        let mut h: usize = 0;
        while h < self.objects.len()
            invariant
                h <= self.objects.len(),
                forall|k: int| 0 <= k < h ==> closed_object(self@, #[trigger] self@[k]),
            decreases self.objects.len() - h,
        {
            assert(self@[h as int] == self.objects[h as int].deep_view());
            match &self.objects[h] {
                Object::List(items) => {
                    assert(self@[h as int]->List_0 == items.deep_view());
                    if !self.holds_all(items) {
                        return false;
                    }
                },
                Object::Struct(s) => {
                    assert(self@[h as int]->Struct_0.fields == s.fields.deep_view());
                    if !self.holds_values(&s.fields) {
                        return false;
                    }
                },
            }
            h += 1;
        }
        true
    }

    /// The struct that a valid struct value names.
    pub fn struct_at(&self, handle: usize) -> (s: &Struct)
        requires
            valid_value(self@, Value::Struct(handle as nat)),
        ensures
            s.deep_view() == self@[handle as int]->Struct_0,
    {
        match &self.objects[handle] {
            Object::Struct(s) => s,
            Object::List(_) => vstd::pervasive::unreached(),
        }
    }

    /// The items of the list that a valid list value names.
    pub fn list_at(&self, handle: usize) -> (items: &Vec<Var>)
        requires
            valid_value(self@, Value::List(handle as nat)),
        ensures
            items.deep_view() == self@[handle as int]->List_0,
    {
        match &self.objects[handle] {
            Object::List(items) => items,
            Object::Struct(_) => vstd::pervasive::unreached(),
        }
    }

    /// Whether two values report the same type.
    pub fn same_type(&self, a: &Var, b: &Var) -> (same: bool)
        ensures
            same == (type_of(self@, a@) == type_of(self@, b@)),
    {
        match (a, b) {
            (Var::Void, Var::Void) => true,
            (Var::Bool(_), Var::Bool(_)) => true,
            (Var::Int(_), Var::Int(_)) => true,
            (Var::Float(_), Var::Float(_)) => true,
            (Var::Char(_), Var::Char(_)) => true,
            (Var::String(_), Var::String(_)) => true,
            (Var::List(_), Var::List(_)) => true,
            (Var::Struct(x), Var::Struct(y)) => {
                let x_valid = self.holds(a);
                let y_valid = self.holds(b);
                if x_valid && y_valid {
                    same_text(
                        self.struct_at(*x).name.as_str(),
                        self.struct_at(*y).name.as_str(),
                    )
                } else if !x_valid && !y_valid {
                    true
                } else if x_valid {
                    let name = self.struct_at(*x).name.as_str();
                    assert(name@.len() == 0 <==> name@ =~= Seq::<char>::empty());
                    name.unicode_len() == 0
                } else {
                    let name = self.struct_at(*y).name.as_str();
                    assert(name@.len() == 0 <==> name@ =~= Seq::<char>::empty());
                    name.unicode_len() == 0
                }
            },
            _ => false,
        }
    }

    /// The type that a value reports.
    pub fn get_type(&self, value: &Var) -> (ty: VarType)
        ensures
            ty.deep_view() == type_of(self@, value@),
    {
        match value {
            Var::Void => VarType::Void,
            Var::Bool(_) => VarType::Bool,
            Var::Int(_) => VarType::Int,
            Var::Float(_) => VarType::Float,
            Var::Char(_) => VarType::Char,
            Var::String(_) => VarType::String,
            Var::List(_) => VarType::List,
            Var::Struct(handle) => {
                if self.holds(value) {
                    VarType::Struct(self.struct_at(*handle).name.clone())
                } else {
                    VarType::Struct(String::new())
                }
            },
        }
    }

    /// The value of a field of a struct value.
    pub fn field(&self, value: &Var, name: &str) -> (found: Result<Var, EvalError>)
        ensures
            match found {
                Ok(v) => field_of(self@, value@, name@) == Ok::<Value, EvalError>(v@),
                Err(e) => field_of(self@, value@, name@) == Err::<Value, EvalError>(e),
            },
    {
        match value {
            Var::Struct(handle) => {
                if self.holds(value) {
                    let s = self.struct_at(*handle);
                    match lookup(&s.fields, name) {
                        Some(i) => {
                            proof {
                                lemma_entry_view(s.fields, i as int);
                            }
                            Ok(s.fields[i].1.clone())
                        },
                        None => Err(EvalError::UnknownField),
                    }
                } else {
                    Err(EvalError::NotAStruct)
                }
            },
            _ => Err(EvalError::NotAStruct),
        }
    }

    /// Puts a new list into the store and returns the value that names it.
    pub fn alloc_list(&mut self, items: Vec<Var>) -> (list: Var)
        ensures
            final(self)@ == old(self)@.push(ObjectView::List(items.deep_view())),
            list@ == Value::List(old(self)@.len()),
    {
        let handle = self.objects.len();
        self.objects.push(Object::List(items));
        assert(self.objects.deep_view() =~= old(self).objects.deep_view().push(
            ObjectView::List(items.deep_view()),
        ));
        Var::List(handle)
    }

    /// Puts a new struct into the store and returns the value that names it.
    pub fn alloc_struct(&mut self, name: String, fields: Vec<(String, Var)>) -> (value: Var)
        ensures
            final(self)@ == old(self)@.push(
                ObjectView::Struct(StructView { name: name@, fields: fields.deep_view() }),
            ),
            value@ == Value::Struct(old(self)@.len()),
    {
        let handle = self.objects.len();
        self.objects.push(Object::Struct(Struct { name, fields }));
        assert(self.objects.deep_view() =~= old(self).objects.deep_view().push(
            ObjectView::Struct(StructView { name: name@, fields: fields.deep_view() }),
        ));
        Var::Struct(handle)
    }

    /// Replaces the value of one field of a struct in the store.
    pub fn set_field(&mut self, handle: usize, index: usize, value: Var)
        requires
            valid_value(old(self)@, Value::Struct(handle as nat)),
            index < old(self)@[handle as int]->Struct_0.fields.len(),
        ensures
            final(self)@ == with_field(old(self)@, handle as int, index as int, value@),
    {
        let ghost before = self@;
        let mut taken = Object::List(Vec::new());
        core::mem::swap(&mut self.objects[handle], &mut taken);
        match taken {
            Object::Struct(mut s) => {
                let ghost fields_before = s.fields.deep_view();
                proof {
                    lemma_entry_view(s.fields, index as int);
                }
                let name = s.fields[index].0.clone();
                s.fields[index] = (name, value);
                assert(s.fields.deep_view() =~= fields_before.update(
                    index as int,
                    (fields_before[index as int].0, value@),
                ));
                taken = Object::Struct(s);
            },
            Object::List(_) => {
                proof {
                    assert(false);
                }
            },
        }
        core::mem::swap(&mut self.objects[handle], &mut taken);
        assert(self@ =~= with_field(before, handle as int, index as int, value@));
    }
}

} // verus!
