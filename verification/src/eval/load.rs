//! Loading a program: its shapes are registered and its statics bound.

use crate::ast::{Name, StructDef, Type, AST};
use crate::eval::context::{bind, Context, Def, DefView, State};
use crate::eval::entries::{distinct_keys, find, lemma_entry_view};
use crate::eval::error::EvalError;
use crate::eval::expressions::{eval_expr, lemma_extends_trans};
use crate::eval::semantics::eval;
use crate::eval::store::extends;
use vstd::prelude::*;

verus! {

/// Why a program could not be loaded.
#[derive(Clone, Copy, Debug, PartialEq, Eq, Structural)]
pub enum LoadError {
    /// A shape has the name of an earlier one, or declares a field twice.
    Rejected,
    /// The expression of a static failed.
    Eval(EvalError),
}

/// A state and whether a load in it succeeded.
pub struct Loaded {
    pub state: State,
    pub result: Result<(), LoadError>,
}

/// The shape that a declaration registers, if it declares one.
pub open spec fn def_of(item: Name) -> Option<DefView> {
    match item {
        Name::Component(def) => Some(DefView::Component(def.deep_view())),
        Name::Resource(def) => Some(DefView::Resource(def.deep_view())),
        Name::Struct(def) => Some(DefView::Struct(def.deep_view())),
        _ => None,
    }
}

/// Loading one declaration: a shape is registered under its name, unless
/// the name is taken or a field is declared twice; the expression of a
/// static is evaluated and its value bound to the name; a system changes
/// nothing.
pub open spec fn declare_in(s: State, name: Seq<char>, item: Name) -> Loaded {
    match item {
        Name::System(_) => Loaded { state: s, result: Ok(()) },
        Name::Static(decl) => {
            let value = eval(s, decl.value);
            match value.result {
                Ok(v) => Loaded {
                    state: State { vars: bind(value.state.vars, name, v), ..value.state },
                    result: Ok(()),
                },
                Err(e) => Loaded { state: value.state, result: Err(LoadError::Eval(e)) },
            }
        },
        _ => {
            let def = def_of(item)->Some_0;
            if find(s.defs, name) is None && distinct_keys(def.fields()) {
                Loaded { state: State { defs: s.defs.push((name, def)), ..s }, result: Ok(()) }
            } else {
                Loaded { state: s, result: Err(LoadError::Rejected) }
            }
        },
    }
}

/// Loading the declarations from index `from` on, in order; the first
/// failure ends the load.
pub open spec fn load_from(s: State, names: Seq<(String, Name)>, from: int) -> Loaded
    decreases names.len() - from,
{
    if from < 0 || from >= names.len() {
        Loaded { state: s, result: Ok(()) }
    } else {
        let one = declare_in(s, names[from].0@, names[from].1);
        match one.result {
            Ok(_) => load_from(one.state, names, from + 1),
            Err(e) => one,
        }
    }
}

/// A copy of a declared type.
pub fn copy_type(ty: &Type) -> (copy: Type)
    ensures
        copy.deep_view() == ty.deep_view(),
    decreases ty,
{
    match ty {
        Type::Void => Type::Void,
        Type::Bool => Type::Bool,
        Type::Int => Type::Int,
        Type::Float => Type::Float,
        Type::Char => Type::Char,
        Type::String => Type::String,
        Type::List(item) => Type::List(Box::new(copy_type(item))),
        Type::Named(name) => Type::Named(name.clone()),
    }
}

/// A copy of the fields of a shape.
pub fn copy_struct_def(def: &StructDef) -> (copy: StructDef)
    ensures
        copy.deep_view() == def.deep_view(),
{
    let mut fields: Vec<(String, Type)> = Vec::new();
    let mut i: usize = 0;
    while i < def.fields.len()
        invariant
            i <= def.fields.len(),
            fields.len() == i,
            forall|k: int|
                0 <= k < i ==> (#[trigger] fields.deep_view()[k]) == def.fields.deep_view()[k],
        decreases def.fields.len() - i,
    {
        let ghost done = fields.deep_view();
        fields.push((def.fields[i].0.clone(), copy_type(&def.fields[i].1)));
        proof {
            lemma_entry_view(def.fields, i as int);
            lemma_entry_view(fields, i as int);
            assert forall|k: int| 0 <= k < i + 1 implies (#[trigger] fields.deep_view()[k])
                == def.fields.deep_view()[k] by {
                if k < i {
                    assert(fields.deep_view()[k] == done[k]);
                }
            }
        }
        i += 1;
    }
    assert(fields.deep_view() =~= def.fields.deep_view());
    StructDef { fields }
}

/// Loads one declaration.
pub fn declare(ctx: &mut Context, name: &str, item: &Name) -> (out: Result<(), LoadError>)
    requires
        old(ctx)@.wf(),
    ensures
        final(ctx)@.wf(),
        final(ctx)@ == declare_in(old(ctx)@, name@, *item).state,
        out == declare_in(old(ctx)@, name@, *item).result,
        extends(old(ctx)@.heap, final(ctx)@.heap),
{
    let def = match item {
        Name::System(_) => {
            return Ok(());
        },
        Name::Static(decl) => {
            return match eval_expr(ctx, &decl.value) {
                Ok(value) => {
                    let ghost middle = ctx@;
                    ctx.set_var(name, value);
                    Ok(())
                },
                Err(e) => Err(LoadError::Eval(e)),
            };
        },
        Name::Component(def) => Def::Component(copy_struct_def(def)),
        Name::Resource(def) => Def::Resource(copy_struct_def(def)),
        Name::Struct(def) => Def::Struct(copy_struct_def(def)),
    };
    if ctx.add_def(name.to_owned(), def) {
        Ok(())
    } else {
        Err(LoadError::Rejected)
    }
}

/// Loads a program: its declarations in order. Its systems, and the lists
/// of those that run, stay with the program.
pub fn load(ctx: &mut Context, ast: &AST) -> (out: Result<(), LoadError>)
    requires
        old(ctx)@.wf(),
    ensures
        final(ctx)@.wf(),
        final(ctx)@ == load_from(old(ctx)@, ast.names@, 0).state,
        out == load_from(old(ctx)@, ast.names@, 0).result,
        extends(old(ctx)@.heap, final(ctx)@.heap),
{
    let ghost start = ctx@;
    let mut i: usize = 0;
    while i < ast.names.len()
        invariant
            i <= ast.names.len(),
            ctx@.wf(),
            start == old(ctx)@,
            extends(start.heap, ctx@.heap),
            load_from(ctx@, ast.names@, i as int) == load_from(start, ast.names@, 0),
        decreases ast.names.len() - i,
    {
        let ghost before = ctx@;
        let out = declare(ctx, ast.names[i].0.as_str(), &ast.names[i].1);
        proof {
            lemma_extends_trans(start.heap, before.heap, ctx@.heap);
        }
        if let Err(e) = out {
            return Err(e);
        }
        i += 1;
    }
    Ok(())
}

} // verus!
