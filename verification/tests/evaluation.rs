use ecs_lang::ast::expressions::{
    Assign, Atom, BinExpr, BinOp, BuiltIn, Call, Expr, LValue, ListInit, StructInit, Ternary,
    UnExpr, UnOp,
};
use ecs_lang::ast::{StructDef, Type};
use ecs_lang::eval::context::{Context, Def};
use ecs_lang::eval::error::EvalError;
use ecs_lang::eval::expressions::eval_expr;
use ecs_lang::eval::value::Var;

fn int_atom(i: i64) -> Expr {
    Expr::Atom(Atom::Int(i))
}

fn point_context() -> Context {
    let mut ctx = Context::new();
    let def = StructDef {
        fields: vec![("x".to_string(), Type::Int), ("y".to_string(), Type::Int)],
    };
    assert!(ctx.add_def("Point".to_string(), Def::Struct(def)));
    ctx
}

fn point_init(fields: Vec<(&str, i64)>) -> Expr {
    Expr::StructInit(StructInit {
        name: "Point".to_string(),
        fields: fields.into_iter().map(|(n, v)| (n.to_string(), int_atom(v))).collect(),
    })
}

fn path(segments: &[&str]) -> Vec<String> {
    segments.iter().map(|s| s.to_string()).collect()
}

#[test]
fn struct_init_builds_the_struct() {
    let mut ctx = point_context();
    let value = eval_expr(&mut ctx, &point_init(vec![("x", 1), ("y", 2)])).unwrap();
    let handle = match value {
        Var::Struct(handle) => handle,
        other => panic!("not a struct: {:?}", other),
    };
    let s = ctx.store().struct_at(handle);
    assert_eq!(s.name, "Point");
    assert_eq!(s.fields.len(), 2);
    assert_eq!(s.fields[0].0, "x");
    assert!(matches!(s.fields[0].1, Var::Int(1)));
    assert_eq!(s.fields[1].0, "y");
    assert!(matches!(s.fields[1].1, Var::Int(2)));
}

#[test]
fn struct_init_rejects_a_missing_field() {
    let mut ctx = point_context();
    let out = eval_expr(&mut ctx, &point_init(vec![("x", 1)]));
    assert_eq!(out.unwrap_err(), EvalError::FieldCountMismatch);
}

#[test]
fn struct_init_rejects_an_unknown_field() {
    let mut ctx = point_context();
    let out = eval_expr(&mut ctx, &point_init(vec![("x", 1), ("z", 3)]));
    assert_eq!(out.unwrap_err(), EvalError::UnknownField);
}

#[test]
fn struct_init_rejects_a_field_given_twice() {
    let mut ctx = point_context();
    let out = eval_expr(&mut ctx, &point_init(vec![("x", 1), ("x", 2)]));
    assert_eq!(out.unwrap_err(), EvalError::FieldAlreadyInitialized);
}

#[test]
fn field_assignment_is_seen_through_an_alias() {
    let mut ctx = point_context();
    let bind_p = Expr::Assign(Box::new(Assign {
        lvalue: LValue::Ident("p".to_string()),
        expr: point_init(vec![("x", 1), ("y", 2)]),
    }));
    eval_expr(&mut ctx, &bind_p).unwrap();
    let bind_q = Expr::Assign(Box::new(Assign {
        lvalue: LValue::Ident("q".to_string()),
        expr: Expr::LValue(LValue::Ident("p".to_string())),
    }));
    eval_expr(&mut ctx, &bind_q).unwrap();
    let set_x = Expr::Assign(Box::new(Assign {
        lvalue: LValue::Access(path(&["p", "x"])),
        expr: int_atom(5),
    }));
    let out = eval_expr(&mut ctx, &set_x).unwrap();
    assert!(matches!(out, Var::Int(5)));
    let read = eval_expr(&mut ctx, &Expr::LValue(LValue::Access(path(&["q", "x"])))).unwrap();
    assert!(matches!(read, Var::Int(5)));
}

#[test]
fn print_emits_the_text_and_gives_void() {
    let mut ctx = Context::new();
    let call = Expr::Call(Box::new(Call {
        builtin: BuiltIn::Print,
        args: vec![Expr::Atom(Atom::String("hi".to_string()))],
    }));
    let out = eval_expr(&mut ctx, &call).unwrap();
    assert!(matches!(out, Var::Void));
    assert_eq!(ctx.output(), &vec!["hi".to_string()]);
}

#[test]
fn print_without_argument_is_an_arity_mismatch() {
    let mut ctx = Context::new();
    let call = Expr::Call(Box::new(Call { builtin: BuiltIn::Print, args: vec![] }));
    assert_eq!(eval_expr(&mut ctx, &call).unwrap_err(), EvalError::ArityMismatch);
    assert!(ctx.output().is_empty());
}

fn atom_str(text: &str) -> Expr {
    Expr::Atom(Atom::String(text.to_string()))
}

fn print_of(arg: Expr) -> Expr {
    Expr::Call(Box::new(Call { builtin: BuiltIn::Print, args: vec![arg] }))
}

fn assign_to(target: &[&str], expr: Expr) -> Expr {
    let lvalue = if target.len() == 1 {
        LValue::Ident(target[0].to_string())
    } else {
        LValue::Access(path(target))
    };
    Expr::Assign(Box::new(Assign { lvalue, expr }))
}

fn read(target: &[&str]) -> Expr {
    if target.len() == 1 {
        Expr::LValue(LValue::Ident(target[0].to_string()))
    } else {
        Expr::LValue(LValue::Access(path(target)))
    }
}

fn ternary_of(cond: Expr, branch1: Expr, branch2: Expr) -> Expr {
    Expr::Ternary(Box::new(Ternary { cond, branch1, branch2 }))
}

#[test]
fn atoms_evaluate_to_their_values() {
    let mut ctx = Context::new();
    assert_eq!(eval_expr(&mut ctx, &Expr::Atom(Atom::Void)), Ok(Var::Void));
    assert_eq!(eval_expr(&mut ctx, &Expr::Atom(Atom::Bool(true))), Ok(Var::Bool(true)));
    assert_eq!(eval_expr(&mut ctx, &int_atom(-3)), Ok(Var::Int(-3)));
    assert_eq!(
        eval_expr(&mut ctx, &Expr::Atom(Atom::Float("2.5".to_string()))),
        Ok(Var::Float("2.5".to_string()))
    );
    assert_eq!(eval_expr(&mut ctx, &Expr::Atom(Atom::Char('c'))), Ok(Var::Char('c')));
    assert_eq!(eval_expr(&mut ctx, &atom_str("s")), Ok(Var::String("s".to_string())));
    assert!(ctx.output().is_empty());
    assert_eq!(ctx.store().len(), 0);
}

#[test]
fn printed_atoms_read_as_the_literals() {
    let mut ctx = Context::new();
    for atom in [
        Atom::Void,
        Atom::Bool(true),
        Atom::Bool(false),
        Atom::Int(120),
        Atom::Int(-120),
        Atom::Float("0.25".to_string()),
        Atom::Char('q'),
        Atom::String("some text".to_string()),
    ] {
        eval_expr(&mut ctx, &print_of(Expr::Atom(atom))).unwrap();
    }
    assert_eq!(
        ctx.output(),
        &vec!["void", "true", "false", "120", "-120", "0.25", "q", "some text"]
            .into_iter()
            .map(String::from)
            .collect::<Vec<String>>()
    );
}

#[test]
fn struct_init_of_an_unknown_shape_is_an_undefined_name() {
    let mut ctx = point_context();
    let init = Expr::StructInit(StructInit { name: "Line".to_string(), fields: vec![] });
    assert_eq!(eval_expr(&mut ctx, &init), Err(EvalError::UndefinedName));
}

#[test]
fn struct_init_takes_the_fields_in_any_order() {
    let mut ctx = point_context();
    let value = eval_expr(&mut ctx, &point_init(vec![("y", 2), ("x", 1)])).unwrap();
    assert_eq!(ctx.store().field(&value, "x"), Ok(Var::Int(1)));
    assert_eq!(ctx.store().field(&value, "y"), Ok(Var::Int(2)));
}

#[test]
fn struct_init_rejects_too_many_fields_by_the_unknown_one() {
    let mut ctx = point_context();
    let out = eval_expr(&mut ctx, &point_init(vec![("x", 1), ("y", 2), ("z", 3)]));
    assert_eq!(out, Err(EvalError::UnknownField));
}

#[test]
fn an_unknown_field_fails_before_its_expression_runs() {
    let mut ctx = point_context();
    let init = Expr::StructInit(StructInit {
        name: "Point".to_string(),
        fields: vec![("z".to_string(), print_of(atom_str("ran")))],
    });
    assert_eq!(eval_expr(&mut ctx, &init), Err(EvalError::UnknownField));
    assert!(ctx.output().is_empty());
}

#[test]
fn a_repeated_field_fails_after_its_expression_ran() {
    let mut ctx = point_context();
    let init = Expr::StructInit(StructInit {
        name: "Point".to_string(),
        fields: vec![("x".to_string(), int_atom(1)), ("x".to_string(), print_of(atom_str("ran")))],
    });
    assert_eq!(eval_expr(&mut ctx, &init), Err(EvalError::FieldAlreadyInitialized));
    assert_eq!(ctx.output(), &vec!["ran".to_string()]);
}

#[test]
fn components_and_resources_initialize_like_structs() {
    let mut ctx = Context::new();
    let def = || StructDef { fields: vec![("v".to_string(), Type::Int)] };
    assert!(ctx.add_def("C".to_string(), Def::Component(def())));
    assert!(ctx.add_def("R".to_string(), Def::Resource(def())));
    for name in ["C", "R"] {
        let good = Expr::StructInit(StructInit {
            name: name.to_string(),
            fields: vec![("v".to_string(), int_atom(1))],
        });
        let bad = Expr::StructInit(StructInit { name: name.to_string(), fields: vec![] });
        assert!(eval_expr(&mut ctx, &good).is_ok());
        assert_eq!(eval_expr(&mut ctx, &bad), Err(EvalError::FieldCountMismatch));
    }
}

#[test]
fn assignment_to_a_struct_binding_is_refused() {
    let mut ctx = point_context();
    eval_expr(&mut ctx, &assign_to(&["p"], point_init(vec![("x", 1), ("y", 2)]))).unwrap();
    assert_eq!(
        eval_expr(&mut ctx, &assign_to(&["p"], int_atom(3))),
        Err(EvalError::CannotReassignStruct)
    );
    assert_eq!(
        eval_expr(&mut ctx, &assign_to(&["p"], point_init(vec![("x", 5), ("y", 6)]))),
        Err(EvalError::CannotReassignStruct)
    );
    assert_eq!(eval_expr(&mut ctx, &read(&["p", "x"])), Ok(Var::Int(1)));
}

#[test]
fn assignment_rebinds_a_primitive_binding() {
    let mut ctx = Context::new();
    assert_eq!(eval_expr(&mut ctx, &assign_to(&["n"], int_atom(1))), Ok(Var::Int(1)));
    assert_eq!(eval_expr(&mut ctx, &assign_to(&["n"], atom_str("s"))), Ok(Var::String("s".to_string())));
    assert_eq!(eval_expr(&mut ctx, &read(&["n"])), Ok(Var::String("s".to_string())));
}

#[test]
fn field_assignment_checks_the_type() {
    let mut ctx = point_context();
    eval_expr(&mut ctx, &assign_to(&["p"], point_init(vec![("x", 1), ("y", 2)]))).unwrap();
    assert_eq!(
        eval_expr(&mut ctx, &assign_to(&["p", "x"], Expr::Atom(Atom::Bool(true)))),
        Err(EvalError::TypeMismatch)
    );
    assert_eq!(eval_expr(&mut ctx, &read(&["p", "x"])), Ok(Var::Int(1)));
}

#[test]
fn field_assignment_to_a_missing_field_is_an_unknown_field() {
    let mut ctx = point_context();
    eval_expr(&mut ctx, &assign_to(&["p"], point_init(vec![("x", 1), ("y", 2)]))).unwrap();
    assert_eq!(
        eval_expr(&mut ctx, &assign_to(&["p", "z"], int_atom(1))),
        Err(EvalError::UnknownField)
    );
    assert_eq!(eval_expr(&mut ctx, &read(&["p", "z"])), Err(EvalError::UnknownField));
    assert_eq!(eval_expr(&mut ctx, &read(&["p", "x", "y"])), Err(EvalError::NotAStruct));
    assert_eq!(
        eval_expr(&mut ctx, &assign_to(&["p", "x", "y"], int_atom(1))),
        Err(EvalError::NotAStruct)
    );
}

#[test]
fn a_failed_right_hand_side_leaves_the_target_as_it_was() {
    let mut ctx = point_context();
    eval_expr(&mut ctx, &assign_to(&["p"], point_init(vec![("x", 1), ("y", 2)]))).unwrap();
    let out = eval_expr(&mut ctx, &assign_to(&["p", "x"], read(&["nothing"])));
    assert_eq!(out, Err(EvalError::UndefinedName));
    assert_eq!(eval_expr(&mut ctx, &read(&["p", "x"])), Ok(Var::Int(1)));
}

#[test]
fn nested_structs_are_reached_by_longer_paths() {
    let mut ctx = point_context();
    let line = StructDef {
        fields: vec![
            ("from".to_string(), Type::Named("Point".to_string())),
            ("to".to_string(), Type::Named("Point".to_string())),
        ],
    };
    assert!(ctx.add_def("Line".to_string(), Def::Struct(line)));
    let init = Expr::StructInit(StructInit {
        name: "Line".to_string(),
        fields: vec![
            ("from".to_string(), point_init(vec![("x", 1), ("y", 2)])),
            ("to".to_string(), point_init(vec![("x", 3), ("y", 4)])),
        ],
    });
    eval_expr(&mut ctx, &assign_to(&["l"], init)).unwrap();
    eval_expr(&mut ctx, &assign_to(&["end"], read(&["l", "to"]))).unwrap();
    assert_eq!(eval_expr(&mut ctx, &assign_to(&["l", "to", "y"], int_atom(9))), Ok(Var::Int(9)));
    assert_eq!(eval_expr(&mut ctx, &read(&["end", "y"])), Ok(Var::Int(9)));
    assert_eq!(eval_expr(&mut ctx, &read(&["l", "from", "y"])), Ok(Var::Int(2)));
    eval_expr(&mut ctx, &print_of(read(&["l"]))).unwrap();
    assert_eq!(
        ctx.output(),
        &vec!["Line { from: Point { x: 1, y: 2 }, to: Point { x: 3, y: 9 } }".to_string()]
    );
    let whole = eval_expr(&mut ctx, &assign_to(&["l", "from"], read(&["end"])));
    assert!(matches!(whole, Ok(Var::Struct(_))));
    assert_eq!(eval_expr(&mut ctx, &read(&["l", "from", "x"])), Ok(Var::Int(3)));
    assert_eq!(
        eval_expr(&mut ctx, &assign_to(&["l", "from"], int_atom(0))),
        Err(EvalError::TypeMismatch)
    );
}

#[test]
fn a_list_is_new_and_holds_the_items_in_order() {
    let mut ctx = Context::new();
    let init = |items: Vec<i64>| {
        Expr::ListInit(ListInit {
            exprs: items.into_iter().map(int_atom).collect(),
        })
    };
    let a = eval_expr(&mut ctx, &init(vec![1, 2, 3])).unwrap();
    let b = eval_expr(&mut ctx, &init(vec![1, 2, 3])).unwrap();
    assert_eq!(a, Var::List(0));
    assert_eq!(b, Var::List(1));
    assert_eq!(ctx.store().list_at(0), &vec![Var::Int(1), Var::Int(2), Var::Int(3)]);
    eval_expr(&mut ctx, &print_of(init(vec![]))).unwrap();
    assert_eq!(ctx.output(), &vec!["[]".to_string()]);
}

#[test]
fn a_list_item_that_fails_ends_the_list() {
    let mut ctx = Context::new();
    let init = Expr::ListInit(ListInit {
        exprs: vec![print_of(atom_str("a")), read(&["nothing"]), print_of(atom_str("b"))],
    });
    assert_eq!(eval_expr(&mut ctx, &init), Err(EvalError::UndefinedName));
    assert_eq!(ctx.output(), &vec!["a".to_string()]);
    assert_eq!(ctx.store().len(), 0);
}

#[test]
fn a_ternary_evaluates_the_selected_branch_only() {
    let mut ctx = Context::new();
    let pick = |cond: bool| {
        ternary_of(
            Expr::Atom(Atom::Bool(cond)),
            assign_to(&["first"], print_of(atom_str("one"))),
            assign_to(&["second"], print_of(atom_str("two"))),
        )
    };
    assert_eq!(eval_expr(&mut ctx, &pick(true)), Ok(Var::Void));
    assert_eq!(ctx.output(), &vec!["one".to_string()]);
    assert_eq!(eval_expr(&mut ctx, &read(&["second"])), Err(EvalError::UndefinedName));
    assert_eq!(eval_expr(&mut ctx, &pick(false)), Ok(Var::Void));
    assert_eq!(ctx.output(), &vec!["one".to_string(), "two".to_string()]);
}

#[test]
fn a_ternary_wants_a_boolean_condition() {
    let mut ctx = Context::new();
    let tern = ternary_of(int_atom(1), print_of(atom_str("one")), print_of(atom_str("two")));
    assert_eq!(eval_expr(&mut ctx, &tern), Err(EvalError::NonBooleanCondition));
    assert!(ctx.output().is_empty());
    let failing = ternary_of(read(&["nothing"]), int_atom(1), int_atom(2));
    assert_eq!(eval_expr(&mut ctx, &failing), Err(EvalError::UndefinedName));
}

#[test]
fn print_wants_one_argument() {
    let mut ctx = Context::new();
    let two = Expr::Call(Box::new(Call {
        builtin: BuiltIn::Print,
        args: vec![int_atom(1), int_atom(2)],
    }));
    assert_eq!(eval_expr(&mut ctx, &two), Err(EvalError::ArityMismatch));
    assert!(ctx.output().is_empty());
}

#[test]
fn the_other_builtins_have_no_rule() {
    let mut ctx = Context::new();
    for builtin in [BuiltIn::Clone, BuiltIn::Spawn, BuiltIn::Delete] {
        let call = Expr::Call(Box::new(Call { builtin, args: vec![print_of(atom_str("x"))] }));
        assert_eq!(eval_expr(&mut ctx, &call), Err(EvalError::UnsupportedBuiltIn));
    }
    assert!(ctx.output().is_empty());
}

#[test]
fn operators_evaluate_both_operands_left_to_right() {
    let mut ctx = Context::new();
    let sum = Expr::BinExpr(Box::new(BinExpr {
        left: assign_to(&["a"], int_atom(2)),
        op: BinOp::Mul,
        right: Expr::BinExpr(Box::new(BinExpr {
            left: read(&["a"]),
            op: BinOp::Add,
            right: int_atom(5),
        })),
    }));
    assert_eq!(eval_expr(&mut ctx, &sum), Ok(Var::Int(14)));
    let neg = Expr::UnExpr(Box::new(UnExpr { expr: read(&["a"]), op: UnOp::Neg }));
    assert_eq!(eval_expr(&mut ctx, &neg), Ok(Var::Int(-2)));
    let bad = Expr::BinExpr(Box::new(BinExpr {
        left: int_atom(1),
        op: BinOp::Add,
        right: Expr::Atom(Atom::Bool(true)),
    }));
    assert_eq!(eval_expr(&mut ctx, &bad), Err(EvalError::InvalidOperator));
    let left_fails = Expr::BinExpr(Box::new(BinExpr {
        left: read(&["nothing"]),
        op: BinOp::Add,
        right: print_of(atom_str("right")),
    }));
    assert_eq!(eval_expr(&mut ctx, &left_fails), Err(EvalError::UndefinedName));
    assert!(ctx.output().is_empty());
}

#[test]
fn an_aliased_list_prints_the_same_through_both_names() {
    let mut ctx = point_context();
    let list = Expr::ListInit(ListInit {
        exprs: vec![point_init(vec![("x", 1), ("y", 2)])],
    });
    eval_expr(&mut ctx, &assign_to(&["a"], list)).unwrap();
    eval_expr(&mut ctx, &assign_to(&["b"], read(&["a"]))).unwrap();
    assert_eq!(eval_expr(&mut ctx, &read(&["a"])), eval_expr(&mut ctx, &read(&["b"])));
    assert_eq!(eval_expr(&mut ctx, &assign_to(&["a"], int_atom(0))), Ok(Var::Int(0)));
    eval_expr(&mut ctx, &print_of(read(&["b"]))).unwrap();
    assert_eq!(ctx.output(), &vec!["[Point { x: 1, y: 2 }]".to_string()]);
}
