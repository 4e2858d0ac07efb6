use ecs_lang::eval::entries::same_text;
use ecs_lang::eval::render::{push_int, push_nat, render_into, render_var};
use ecs_lang::eval::store::Store;
use ecs_lang::eval::value::Var;

fn shown(store: &Store, value: &Var) -> String {
    render_var(store, value)
}

#[test]
fn primitives_render_as_written() {
    let store = Store::new();
    assert_eq!(shown(&store, &Var::Void), "void");
    assert_eq!(shown(&store, &Var::Bool(true)), "true");
    assert_eq!(shown(&store, &Var::Bool(false)), "false");
    assert_eq!(shown(&store, &Var::Int(0)), "0");
    assert_eq!(shown(&store, &Var::Int(42)), "42");
    assert_eq!(shown(&store, &Var::Int(-7)), "-7");
    assert_eq!(shown(&store, &Var::Float("1.50".to_string())), "1.50");
    assert_eq!(shown(&store, &Var::Char('x')), "x");
    assert_eq!(shown(&store, &Var::String("hi there".to_string())), "hi there");
}

#[test]
fn the_largest_and_smallest_integers_render() {
    let store = Store::new();
    assert_eq!(shown(&store, &Var::Int(i64::MAX)), "9223372036854775807");
    assert_eq!(shown(&store, &Var::Int(i64::MIN)), "-9223372036854775808");
}

#[test]
fn push_nat_appends_decimal_digits() {
    let mut out = "n=".to_string();
    push_nat(&mut out, 1090);
    assert_eq!(out, "n=1090");
    push_nat(&mut out, u64::MAX);
    assert_eq!(out, "n=109018446744073709551615");
}

#[test]
fn push_int_appends_the_sign() {
    let mut out = String::new();
    push_int(&mut out, -10);
    push_int(&mut out, 10);
    assert_eq!(out, "-1010");
}

#[test]
fn a_list_renders_its_items() {
    let mut store = Store::new();
    let empty = store.alloc_list(vec![]);
    let list = store.alloc_list(vec![Var::Int(1), Var::Bool(false), Var::String("s".to_string())]);
    assert_eq!(shown(&store, &empty), "[]");
    assert_eq!(shown(&store, &list), "[1, false, s]");
}

#[test]
fn a_struct_renders_its_name_and_fields() {
    let mut store = Store::new();
    let point = store.alloc_struct(
        "Point".to_string(),
        vec![("x".to_string(), Var::Int(1)), ("y".to_string(), Var::Int(2))],
    );
    let unit = store.alloc_struct("Unit".to_string(), vec![]);
    assert_eq!(shown(&store, &point), "Point { x: 1, y: 2 }");
    assert_eq!(shown(&store, &unit), "Unit { }");
}

#[test]
fn nested_aggregates_render_inside_one_another() {
    let mut store = Store::new();
    let inner = store.alloc_struct("In".to_string(), vec![("v".to_string(), Var::Int(3))]);
    let list = store.alloc_list(vec![inner.clone(), inner]);
    let outer = store.alloc_struct("Out".to_string(), vec![("items".to_string(), list)]);
    assert_eq!(shown(&store, &outer), "Out { items: [In { v: 3 }, In { v: 3 }] }");
}

#[test]
fn a_value_that_contains_itself_renders_with_an_ellipsis() {
    let mut store = Store::new();
    let node = store.alloc_struct("Node".to_string(), vec![("next".to_string(), Var::Int(0))]);
    let handle = match node {
        Var::Struct(handle) => handle,
        _ => unreachable!(),
    };
    store.set_field(handle, 0, Var::Struct(handle));
    assert_eq!(shown(&store, &node), "Node { next: ... }");
}

#[test]
fn a_handle_that_names_nothing_renders_as_an_ellipsis() {
    let mut store = Store::new();
    store.alloc_list(vec![]);
    assert_eq!(shown(&store, &Var::Struct(0)), "...");
    assert_eq!(shown(&store, &Var::List(5)), "...");
}

#[test]
fn rendering_stops_at_the_given_depth() {
    let mut store = Store::new();
    let inner = store.alloc_list(vec![Var::Int(1)]);
    let outer = store.alloc_list(vec![inner]);
    let mut out = String::new();
    render_into(&store, &mut out, &outer, 1);
    assert_eq!(out, "[...]");
    let mut out = String::new();
    render_into(&store, &mut out, &outer, 2);
    assert_eq!(out, "[[1]]");
    let mut out = String::new();
    render_into(&store, &mut out, &outer, 0);
    assert_eq!(out, "...");
}

#[test]
fn same_text_compares_characters() {
    assert!(same_text("abc", "abc"));
    assert!(!same_text("abc", "abd"));
    assert!(!same_text("abc", "ab"));
    assert!(same_text("", ""));
}
