//! Runtime values.

use vstd::prelude::*;

verus! {

/// A runtime value.
///
/// Lists and structs live in the context's store; a `List` or `Struct`
/// value is a handle into it. Copying such a value copies the handle, so
/// every copy names the same aggregate.
#[derive(Debug, PartialEq)]
pub enum Var {
    Void,
    Bool(bool),
    Int(i64),
    /// A float, carried as its decimal spelling.
    Float(String),
    Char(char),
    String(String),
    List(usize),
    Struct(usize),
}

/// The mathematical model of a [`Var`].
pub enum Value {
    Void,
    Bool(bool),
    Int(i64),
    Float(Seq<char>),
    Char(char),
    Text(Seq<char>),
    List(nat),
    Struct(nat),
}

impl DeepView for Var {
    type V = Value;

    open spec fn deep_view(&self) -> Value {
        match self {
            Var::Void => Value::Void,
            Var::Bool(b) => Value::Bool(*b),
            Var::Int(i) => Value::Int(*i),
            Var::Float(text) => Value::Float(text@),
            Var::Char(c) => Value::Char(*c),
            Var::String(text) => Value::Text(text@),
            Var::List(handle) => Value::List(*handle as nat),
            Var::Struct(handle) => Value::Struct(*handle as nat),
        }
    }
}

impl View for Var {
    type V = Value;

    open spec fn view(&self) -> Value {
        self.deep_view()
    }
}

impl Clone for Var {
    /// Copies a primitive by value and an aggregate by handle.
    fn clone(&self) -> (copy: Var)
        ensures
            copy@ == self@,
    {
        match self {
            Var::Void => Var::Void,
            Var::Bool(b) => Var::Bool(*b),
            Var::Int(i) => Var::Int(*i),
            Var::Float(text) => Var::Float(text.clone()),
            Var::Char(c) => Var::Char(*c),
            Var::String(text) => Var::String(text.clone()),
            Var::List(handle) => Var::List(*handle),
            Var::Struct(handle) => Var::Struct(*handle),
        }
    }
}

/// A struct value: the name of its shape and its fields.
#[derive(Debug, PartialEq)]
pub struct Struct {
    pub name: String,
    pub fields: Vec<(String, Var)>,
}

/// The mathematical model of a [`Struct`].
pub struct StructView {
    pub name: Seq<char>,
    pub fields: Seq<(Seq<char>, Value)>,
}

impl DeepView for Struct {
    type V = StructView;

    open spec fn deep_view(&self) -> StructView {
        StructView { name: self.name@, fields: self.fields.deep_view() }
    }
}

/// An aggregate in the store.
#[derive(Debug, PartialEq)]
pub enum Object {
    List(Vec<Var>),
    Struct(Struct),
}

/// The mathematical model of an [`Object`].
pub enum ObjectView {
    List(Seq<Value>),
    Struct(StructView),
}

impl DeepView for Object {
    type V = ObjectView;

    open spec fn deep_view(&self) -> ObjectView {
        match self {
            Object::List(items) => ObjectView::List(items.deep_view()),
            Object::Struct(s) => ObjectView::Struct(s.deep_view()),
        }
    }
}

} // verus!
