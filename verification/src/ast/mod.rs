//! The abstract syntax tree of a program.

use crate::ast::expressions::{Expr, ExprView};
use vstd::prelude::*;

pub mod expressions;

verus! {

/// A declared type.
#[derive(Debug, PartialEq)]
pub enum Type {
    Void,
    Bool,
    Int,
    Float,
    Char,
    String,
    /// A list of elements of one type.
    List(Box<Type>),
    /// A struct, component or resource, by name.
    Named(String),
}

/// The mathematical model of a [`Type`].
pub enum TypeView {
    Void,
    Bool,
    Int,
    Float,
    Char,
    String,
    List(Box<TypeView>),
    Named(Seq<char>),
}

/// The model of a declared type.
pub open spec fn type_view(ty: Type) -> TypeView
    decreases ty,
{
    match ty {
        Type::Void => TypeView::Void,
        Type::Bool => TypeView::Bool,
        Type::Int => TypeView::Int,
        Type::Float => TypeView::Float,
        Type::Char => TypeView::Char,
        Type::String => TypeView::String,
        Type::List(item) => TypeView::List(Box::new(type_view(*item))),
        Type::Named(name) => TypeView::Named(name@),
    }
}

impl DeepView for Type {
    type V = TypeView;

    open spec fn deep_view(&self) -> TypeView {
        type_view(*self)
    }
}

/// The fields that a struct, a component or a resource declares, in source
/// order.
#[derive(Debug, PartialEq)]
pub struct StructDef {
    pub fields: Vec<(String, Type)>,
}

impl DeepView for StructDef {
    type V = Seq<(Seq<char>, TypeView)>;

    open spec fn deep_view(&self) -> Seq<(Seq<char>, TypeView)> {
        self.fields.deep_view()
    }
}

/// A formal argument of a filter.
#[derive(Debug, PartialEq)]
pub struct Argument {
    pub is_const: bool,
    pub ty: Type,
    pub name: String,
}

/// The mathematical model of an [`Argument`].
pub struct ArgumentView {
    pub is_const: bool,
    pub ty: TypeView,
    pub name: Seq<char>,
}

impl DeepView for Argument {
    type V = ArgumentView;

    open spec fn deep_view(&self) -> ArgumentView {
        ArgumentView { is_const: self.is_const, ty: self.ty.deep_view(), name: self.name@ }
    }
}

/// What a system runs against: the entities that have the named components,
/// or a resource.
#[derive(Debug, PartialEq)]
pub enum Filter {
    Entity(String, Vec<Argument>),
    Resource(Argument),
}

/// The mathematical model of a [`Filter`].
pub enum FilterView {
    Entity(Seq<char>, Seq<ArgumentView>),
    Resource(ArgumentView),
}

impl DeepView for Filter {
    type V = FilterView;

    open spec fn deep_view(&self) -> FilterView {
        match self {
            Filter::Entity(name, args) => FilterView::Entity(name@, args.deep_view()),
            Filter::Resource(arg) => FilterView::Resource(arg.deep_view()),
        }
    }
}

/// A system: its filters and its body, a run of expressions.
#[derive(Debug, PartialEq)]
pub struct System {
    pub filters: Vec<Filter>,
    pub code: Vec<Expr>,
}

/// The mathematical model of a [`System`].
pub struct SystemView {
    pub filters: Seq<FilterView>,
    pub code: Seq<ExprView>,
}

impl DeepView for System {
    type V = SystemView;

    open spec fn deep_view(&self) -> SystemView {
        SystemView { filters: self.filters.deep_view(), code: self.code.deep_view() }
    }
}

/// A static: its declared type and the expression that gives its first
/// value.
#[derive(Debug, PartialEq)]
pub struct Static {
    pub ty: Type,
    pub value: Expr,
}

/// The mathematical model of a [`Static`].
pub struct StaticView {
    pub ty: TypeView,
    pub value: ExprView,
}

impl DeepView for Static {
    type V = StaticView;

    open spec fn deep_view(&self) -> StaticView {
        StaticView { ty: self.ty.deep_view(), value: self.value.deep_view() }
    }
}

/// What a name of the program stands for.
#[derive(Debug, PartialEq)]
pub enum Name {
    Component(StructDef),
    Resource(StructDef),
    Struct(StructDef),
    System(System),
    Static(Static),
}

/// The mathematical model of a [`Name`].
pub enum NameView {
    Component(Seq<(Seq<char>, TypeView)>),
    Resource(Seq<(Seq<char>, TypeView)>),
    Struct(Seq<(Seq<char>, TypeView)>),
    System(SystemView),
    Static(StaticView),
}

impl DeepView for Name {
    type V = NameView;

    open spec fn deep_view(&self) -> NameView {
        match self {
            Name::Component(def) => NameView::Component(def.deep_view()),
            Name::Resource(def) => NameView::Resource(def.deep_view()),
            Name::Struct(def) => NameView::Struct(def.deep_view()),
            Name::System(system) => NameView::System(system.deep_view()),
            Name::Static(value) => NameView::Static(value.deep_view()),
        }
    }
}

/// A program: what it declares, each under its name and in source order,
/// the systems that run once at the start, and the systems that run every
/// step.
#[derive(Debug, PartialEq)]
pub struct AST {
    pub names: Vec<(String, Name)>,
    pub init: Vec<String>,
    pub run: Vec<String>,
}

/// The mathematical model of an [`AST`].
pub struct ProgramView {
    pub names: Seq<(Seq<char>, NameView)>,
    pub init: Seq<Seq<char>>,
    pub run: Seq<Seq<char>>,
}

impl DeepView for AST {
    type V = ProgramView;

    open spec fn deep_view(&self) -> ProgramView {
        ProgramView {
            names: self.names.deep_view(),
            init: self.init.deep_view(),
            run: self.run.deep_view(),
        }
    }
}

} // verus!
