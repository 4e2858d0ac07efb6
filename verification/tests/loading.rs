use ecs_lang::ast::{Name, AST};
use ecs_lang::eval::context::Context;
use ecs_lang::eval::error::EvalError;
use ecs_lang::eval::expressions::eval_body;
use ecs_lang::eval::load::{copy_struct_def, copy_type, declare, load, LoadError};
use ecs_lang::eval::value::Var;
use ecs_lang::parser::parse_program;

fn parsed(text: &str) -> AST {
    parse_program("test", &mut vec![text.to_string()]).unwrap()
}

fn body_of<'a>(ast: &'a AST, name: &str) -> &'a Vec<ecs_lang::ast::expressions::Expr> {
    for (declared, item) in ast.names.iter() {
        if let Name::System(system) = item {
            if declared == name {
                return &system.code;
            }
        }
    }
    panic!("no system {}", name)
}

fn path(segments: &[&str]) -> Vec<String> {
    segments.iter().map(|s| s.to_string()).collect()
}

#[test]
fn load_registers_shapes_and_binds_statics() {
    let ast = parsed(
        "struct Point { x: int, y: int }
         static int n = 1 + 2;
         static Point origin = Point { x: 0, y: n };
         system s() { }",
    );
    let mut ctx = Context::new();
    assert_eq!(load(&mut ctx, &ast), Ok(()));
    assert!(ctx.is_well_formed());
    assert_eq!(ctx.def_index("Point"), Some(0));
    assert_eq!(ctx.get_var(&path(&["n"])), Ok(Var::Int(3)));
    assert_eq!(ctx.get_var(&path(&["origin", "y"])), Ok(Var::Int(3)));
    assert_eq!(ctx.get_var(&path(&["s"])), Err(EvalError::UndefinedName));
}

#[test]
fn load_stops_at_the_first_failure() {
    let ast = parsed(
        "static int a = 1;
         static int b = missing;
         static int c = 3;",
    );
    let mut ctx = Context::new();
    assert_eq!(load(&mut ctx, &ast), Err(LoadError::Eval(EvalError::UndefinedName)));
    assert_eq!(ctx.get_var(&path(&["a"])), Ok(Var::Int(1)));
    assert_eq!(ctx.get_var(&path(&["c"])), Err(EvalError::UndefinedName));
    assert!(ctx.is_well_formed());
}

#[test]
fn load_rejects_a_shape_with_a_repeated_field() {
    let ast = parsed("component P { x: int, x: int }");
    let mut ctx = Context::new();
    assert_eq!(load(&mut ctx, &ast), Err(LoadError::Rejected));
    assert_eq!(ctx.def_index("P"), None);
}

#[test]
fn declare_rejects_a_taken_name() {
    let ast = parsed("component P { x: int } resource Q { }");
    let mut ctx = Context::new();
    assert_eq!(declare(&mut ctx, "P", &ast.names[0].1), Ok(()));
    assert_eq!(declare(&mut ctx, "P", &ast.names[1].1), Err(LoadError::Rejected));
    assert_eq!(declare(&mut ctx, "Q", &ast.names[1].1), Ok(()));
    assert_eq!(ctx.field_count(0), 1);
    assert_eq!(ctx.field_count(1), 0);
}

#[test]
fn copies_are_equal_to_what_they_copy() {
    let ast = parsed("struct S { a: [[int]], b: Other, c: string }");
    match &ast.names[0].1 {
        Name::Struct(def) => {
            assert_eq!(&copy_struct_def(def), def);
            assert_eq!(copy_type(&def.fields[0].1), def.fields[0].1);
            assert_eq!(copy_type(&def.fields[1].1), def.fields[1].1);
        },
        other => panic!("not a struct: {:?}", other),
    }
}

#[test]
fn a_program_runs_from_text_to_output() {
    let ast = parsed(
        "component Position { x: int, y: int }
         static int speed = 2;
         system setup() {
             p = Position { x: 1, y: 1 };
             q = p;
         }
         system step() {
             p.x = p.x + speed;
             print(q);
             print(p.x > 2 ? \"far\" : \"near\");
             print([p.x, p.y]);
         }
         init setup;
         run step;",
    );
    let mut ctx = Context::new();
    load(&mut ctx, &ast).unwrap();
    assert_eq!(eval_body(&mut ctx, body_of(&ast, "setup")), Ok(()));
    assert_eq!(eval_body(&mut ctx, body_of(&ast, "step")), Ok(()));
    assert_eq!(eval_body(&mut ctx, body_of(&ast, "step")), Ok(()));
    assert_eq!(
        ctx.output(),
        &vec![
            "Position { x: 3, y: 1 }",
            "far",
            "[3, 1]",
            "Position { x: 5, y: 1 }",
            "far",
            "[5, 1]"
        ]
        .into_iter()
        .map(String::from)
        .collect::<Vec<String>>()
    );
    assert!(ctx.is_well_formed());
}

#[test]
fn a_body_stops_at_the_first_failure() {
    let ast = parsed("system s() { print(1); a = 1 / 0; print(2); }");
    let mut ctx = Context::new();
    load(&mut ctx, &ast).unwrap();
    assert_eq!(eval_body(&mut ctx, body_of(&ast, "s")), Err(EvalError::InvalidOperator));
    assert_eq!(ctx.output(), &vec!["1".to_string()]);
    assert_eq!(ctx.get_var(&path(&["a"])), Err(EvalError::UndefinedName));
}

#[test]
fn an_empty_body_changes_nothing() {
    let mut ctx = Context::new();
    ctx.set_var("a", Var::Int(1));
    assert_eq!(eval_body(&mut ctx, &vec![]), Ok(()));
    assert_eq!(ctx.get_var(&path(&["a"])), Ok(Var::Int(1)));
    assert!(ctx.output().is_empty());
}

#[test]
fn a_context_that_the_library_made_is_well_formed() {
    let mut ctx = Context::new();
    assert!(ctx.is_well_formed());
    ctx.set_var("a", Var::Int(1));
    assert!(ctx.holds(&Var::Int(1)));
    assert!(!ctx.holds(&Var::List(0)));
    let list = ctx.new_list(vec![Var::Int(1)]);
    assert!(ctx.holds(&list));
    ctx.set_var("l", list);
    assert!(ctx.is_well_formed());
}
