use ecs_lang::ast::expressions::{
    Assign, Atom, BinExpr, BinOp, BuiltIn, Call, Expr, LValue, ListInit, StructInit, Ternary,
    UnExpr, UnOp,
};
use ecs_lang::ast::{Argument, Filter, Name, Static, StructDef, System, Type, AST};
use ecs_lang::parser::cursor::ParseError;
use ecs_lang::parser::expressions::parse_expr;
use ecs_lang::parser::lexer::{tokenize, Sym, Token};
use ecs_lang::parser::systems::{
    parse_argument, parse_block, parse_entity_filter, parse_filter, parse_filter_list, parse_system,
};
use ecs_lang::parser::types::{parse_struct_def, parse_type};
use ecs_lang::parser::{
    chars_of, parse_component, parse_element, parse_ident_list, parse_program, parse_resource,
    parse_static,
};

fn tokens_of(text: &str) -> Vec<Token> {
    tokenize(&chars_of(text)).unwrap()
}

fn expr_of(text: &str) -> Result<Expr, ParseError> {
    let tokens = tokens_of(text);
    match parse_expr(&tokens, 0) {
        Ok((expr, next)) if next == tokens.len() => Ok(expr),
        Ok((_, next)) => Err(ParseError::Syntax(next)),
        Err(e) => Err(e),
    }
}

fn program_of(text: &str) -> Result<AST, ParseError> {
    let mut src = vec![text.to_string()];
    let out = parse_program("test", &mut src);
    assert_eq!(src, vec![text.to_string()]);
    out
}

fn num(i: i64) -> Expr {
    Expr::Atom(Atom::Int(i))
}

fn name(word: &str) -> Expr {
    Expr::LValue(LValue::Ident(word.to_string()))
}

fn bin(left: Expr, op: BinOp, right: Expr) -> Expr {
    Expr::BinExpr(Box::new(BinExpr { left, op, right }))
}

fn word(text: &str) -> Token {
    Token::Ident(text.to_string())
}

#[test]
fn chars_of_gives_the_characters() {
    assert_eq!(chars_of("aé☃"), vec!['a', 'é', '☃']);
    assert_eq!(chars_of(""), Vec::<char>::new());
}

#[test]
fn tokenize_splits_words_numbers_and_symbols() {
    assert_eq!(
        tokens_of("  foo_1 = 42;\n\tbar.baz >= 1.5"),
        vec![
            word("foo_1"),
            Token::Sym(Sym::Assign),
            Token::Int(42),
            Token::Sym(Sym::Semi),
            word("bar"),
            Token::Sym(Sym::Dot),
            word("baz"),
            Token::Sym(Sym::Geq),
            Token::Float("1.5".to_string()),
        ]
    );
    assert_eq!(tokens_of(""), vec![]);
    assert_eq!(tokens_of(" \r\n\t"), vec![]);
}

#[test]
fn tokenize_reads_every_symbol() {
    let symbols = vec![
        ("(", Sym::LParen),
        (")", Sym::RParen),
        ("{", Sym::LBrace),
        ("}", Sym::RBrace),
        ("[", Sym::LBracket),
        ("]", Sym::RBracket),
        (",", Sym::Comma),
        (";", Sym::Semi),
        (":", Sym::Colon),
        (".", Sym::Dot),
        ("?", Sym::Question),
        ("=", Sym::Assign),
        ("+", Sym::Plus),
        ("-", Sym::Minus),
        ("*", Sym::Star),
        ("/", Sym::Slash),
        ("%", Sym::Percent),
        ("&&", Sym::AndAnd),
        ("||", Sym::OrOr),
        ("^", Sym::Caret),
        ("&", Sym::Amp),
        ("|", Sym::Pipe),
        ("<<", Sym::Shl),
        (">>", Sym::Shr),
        ("<=", Sym::Leq),
        (">=", Sym::Geq),
        ("<", Sym::Lt),
        (">", Sym::Gt),
        ("==", Sym::EqEq),
        ("!=", Sym::Neq),
        ("!", Sym::Bang),
        ("~", Sym::Tilde),
    ];
    for (text, sym) in symbols {
        assert_eq!(tokens_of(text), vec![Token::Sym(sym)]);
    }
    assert_eq!(tokens_of("<<="), vec![Token::Sym(Sym::Shl), Token::Sym(Sym::Assign)]);
    assert_eq!(tokens_of("= ="), vec![Token::Sym(Sym::Assign), Token::Sym(Sym::Assign)]);
}

#[test]
fn tokenize_reads_literals() {
    assert_eq!(
        tokens_of("'a' \"two words\" \"\" 007 3.25 9223372036854775807"),
        vec![
            Token::Char('a'),
            Token::Text("two words".to_string()),
            Token::Text(String::new()),
            Token::Int(7),
            Token::Float("3.25".to_string()),
            Token::Int(i64::MAX),
        ]
    );
    assert_eq!(tokens_of("1.x"), vec![Token::Int(1), Token::Sym(Sym::Dot), word("x")]);
    assert_eq!(tokens_of("1."), vec![Token::Int(1), Token::Sym(Sym::Dot)]);
}

#[test]
fn tokenize_rejects_what_starts_no_token() {
    assert_eq!(tokenize(&chars_of("a @ b")), Err(2));
    assert_eq!(tokenize(&chars_of("\"open")), Err(0));
    assert_eq!(tokenize(&chars_of("x 'ab'")), Err(2));
    assert_eq!(tokenize(&chars_of("''")), Err(0));
    assert_eq!(tokenize(&chars_of("9223372036854775808")), Err(0));
    assert_eq!(tokenize(&chars_of("é")), Err(0));
}

#[test]
fn atoms_parse() {
    assert_eq!(expr_of("12"), Ok(num(12)));
    assert_eq!(expr_of("1.5"), Ok(Expr::Atom(Atom::Float("1.5".to_string()))));
    assert_eq!(expr_of("'c'"), Ok(Expr::Atom(Atom::Char('c'))));
    assert_eq!(expr_of("\"hi\""), Ok(Expr::Atom(Atom::String("hi".to_string()))));
    assert_eq!(expr_of("true"), Ok(Expr::Atom(Atom::Bool(true))));
    assert_eq!(expr_of("false"), Ok(Expr::Atom(Atom::Bool(false))));
    assert_eq!(expr_of("void"), Ok(Expr::Atom(Atom::Void)));
}

#[test]
fn paths_parse() {
    assert_eq!(expr_of("p"), Ok(name("p")));
    assert_eq!(
        expr_of("p.x.y"),
        Ok(Expr::LValue(LValue::Access(vec![
            "p".to_string(),
            "x".to_string(),
            "y".to_string()
        ])))
    );
    assert_eq!(expr_of("p."), Err(ParseError::Syntax(1)));
}

#[test]
fn tighter_operators_bind_first() {
    assert_eq!(
        expr_of("1 + 2 * 3"),
        Ok(bin(num(1), BinOp::Add, bin(num(2), BinOp::Mul, num(3))))
    );
    assert_eq!(
        expr_of("1 * 2 + 3"),
        Ok(bin(bin(num(1), BinOp::Mul, num(2)), BinOp::Add, num(3)))
    );
    assert_eq!(
        expr_of("a || b && c"),
        Ok(bin(name("a"), BinOp::Or, bin(name("b"), BinOp::And, name("c"))))
    );
    assert_eq!(
        expr_of("a == b < c << d + e"),
        Ok(bin(
            name("a"),
            BinOp::Eq,
            bin(
                name("b"),
                BinOp::Lt,
                bin(name("c"), BinOp::Shl, bin(name("d"), BinOp::Add, name("e")))
            )
        ))
    );
    assert_eq!(
        expr_of("a | b ^ c & d"),
        Ok(bin(
            name("a"),
            BinOp::BitOr,
            bin(name("b"), BinOp::Xor, bin(name("c"), BinOp::BitAnd, name("d")))
        ))
    );
}

#[test]
fn equal_operators_group_from_the_left() {
    assert_eq!(
        expr_of("1 - 2 - 3"),
        Ok(bin(bin(num(1), BinOp::Sub, num(2)), BinOp::Sub, num(3)))
    );
    assert_eq!(
        expr_of("8 / 4 % 3 * 2"),
        Ok(bin(
            bin(bin(num(8), BinOp::Div, num(4)), BinOp::Mod, num(3)),
            BinOp::Mul,
            num(2)
        ))
    );
    assert_eq!(
        expr_of("a >= b > c <= d != e >> f"),
        Ok(bin(
            bin(
                bin(bin(name("a"), BinOp::Geq, name("b")), BinOp::Gt, name("c")),
                BinOp::Leq,
                name("d")
            ),
            BinOp::Neq,
            bin(name("e"), BinOp::Shr, name("f"))
        ))
    );
}

#[test]
fn parentheses_group() {
    assert_eq!(
        expr_of("(1 + 2) * 3"),
        Ok(bin(bin(num(1), BinOp::Add, num(2)), BinOp::Mul, num(3)))
    );
    assert_eq!(expr_of("((7))"), Ok(num(7)));
    assert_eq!(expr_of("(1 + 2"), Err(ParseError::Syntax(4)));
    assert_eq!(expr_of("()"), Err(ParseError::Syntax(1)));
}

#[test]
fn unary_operators_bind_tightest() {
    let un = |op: UnOp, expr: Expr| Expr::UnExpr(Box::new(UnExpr { expr, op }));
    assert_eq!(expr_of("-1"), Ok(un(UnOp::Neg, num(1))));
    assert_eq!(expr_of("+a"), Ok(un(UnOp::Pos, name("a"))));
    assert_eq!(expr_of("!~a"), Ok(un(UnOp::Not, un(UnOp::BitNot, name("a")))));
    assert_eq!(
        expr_of("-a * b"),
        Ok(bin(un(UnOp::Neg, name("a")), BinOp::Mul, name("b")))
    );
    assert_eq!(
        expr_of("a - -b"),
        Ok(bin(name("a"), BinOp::Sub, un(UnOp::Neg, name("b"))))
    );
}

#[test]
fn ternaries_nest_to_the_right() {
    let tern = |cond: Expr, branch1: Expr, branch2: Expr| {
        Expr::Ternary(Box::new(Ternary { cond, branch1, branch2 }))
    };
    assert_eq!(expr_of("a ? 1 : 2"), Ok(tern(name("a"), num(1), num(2))));
    assert_eq!(
        expr_of("a ? 1 : b ? 2 : 3"),
        Ok(tern(name("a"), num(1), tern(name("b"), num(2), num(3))))
    );
    assert_eq!(
        expr_of("a < b ? c + 1 : 0"),
        Ok(tern(bin(name("a"), BinOp::Lt, name("b")), bin(name("c"), BinOp::Add, num(1)), num(0)))
    );
    assert_eq!(expr_of("a ? 1"), Err(ParseError::Syntax(3)));
}

#[test]
fn assignments_take_a_left_value() {
    let assign = |lvalue: LValue, expr: Expr| Expr::Assign(Box::new(Assign { lvalue, expr }));
    assert_eq!(expr_of("a = 1"), Ok(assign(LValue::Ident("a".to_string()), num(1))));
    assert_eq!(
        expr_of("a = b = 1"),
        Ok(assign(
            LValue::Ident("a".to_string()),
            assign(LValue::Ident("b".to_string()), num(1))
        ))
    );
    assert_eq!(
        expr_of("p.x = 1 + 2"),
        Ok(assign(
            LValue::Access(vec!["p".to_string(), "x".to_string()]),
            bin(num(1), BinOp::Add, num(2))
        ))
    );
    assert_eq!(expr_of("1 = 2"), Err(ParseError::Syntax(1)));
    assert_eq!(expr_of("a + b = 2"), Err(ParseError::Syntax(3)));
}

#[test]
fn lists_calls_and_struct_inits_parse() {
    assert_eq!(expr_of("[]"), Ok(Expr::ListInit(ListInit { exprs: vec![] })));
    assert_eq!(
        expr_of("[1, a, [2]]"),
        Ok(Expr::ListInit(ListInit {
            exprs: vec![num(1), name("a"), Expr::ListInit(ListInit { exprs: vec![num(2)] })]
        }))
    );
    assert_eq!(
        expr_of("print(\"hi\")"),
        Ok(Expr::Call(Box::new(Call {
            builtin: BuiltIn::Print,
            args: vec![Expr::Atom(Atom::String("hi".to_string()))]
        })))
    );
    assert_eq!(
        expr_of("spawn()"),
        Ok(Expr::Call(Box::new(Call { builtin: BuiltIn::Spawn, args: vec![] })))
    );
    assert_eq!(
        expr_of("clone(a, 1)"),
        Ok(Expr::Call(Box::new(Call { builtin: BuiltIn::Clone, args: vec![name("a"), num(1)] })))
    );
    assert_eq!(
        expr_of("delete(a)"),
        Ok(Expr::Call(Box::new(Call { builtin: BuiltIn::Delete, args: vec![name("a")] })))
    );
    assert_eq!(expr_of("print"), Ok(name("print")));
    assert_eq!(
        expr_of("Point { x: 1, y: a + 1 }"),
        Ok(Expr::StructInit(StructInit {
            name: "Point".to_string(),
            fields: vec![
                ("x".to_string(), num(1)),
                ("y".to_string(), bin(name("a"), BinOp::Add, num(1)))
            ]
        }))
    );
    assert_eq!(
        expr_of("Unit {}"),
        Ok(Expr::StructInit(StructInit { name: "Unit".to_string(), fields: vec![] }))
    );
    assert_eq!(expr_of("[1,]"), Err(ParseError::Syntax(3)));
    assert_eq!(expr_of("print(1"), Err(ParseError::Syntax(3)));
    assert_eq!(expr_of("Point { x 1 }"), Err(ParseError::Syntax(3)));
    assert_eq!(expr_of("foo(1)"), Err(ParseError::Syntax(1)));
}

#[test]
fn parse_expr_stops_where_the_expression_ends() {
    let tokens = tokens_of("x 1 + 2 ; y");
    assert_eq!(parse_expr(&tokens, 1), Ok((bin(num(1), BinOp::Add, num(2)), 4)));
    assert_eq!(parse_expr(&tokens, 4), Err(ParseError::Syntax(4)));
    assert_eq!(parse_expr(&tokens, 6), Err(ParseError::Syntax(6)));
    assert_eq!(parse_expr(&tokens, 60), Err(ParseError::Syntax(60)));
}

#[test]
fn types_parse() {
    let ty = |text: &str| parse_type(&tokens_of(text), 0).map(|found| found.0);
    assert_eq!(ty("void"), Ok(Type::Void));
    assert_eq!(ty("bool"), Ok(Type::Bool));
    assert_eq!(ty("int"), Ok(Type::Int));
    assert_eq!(ty("float"), Ok(Type::Float));
    assert_eq!(ty("char"), Ok(Type::Char));
    assert_eq!(ty("string"), Ok(Type::String));
    assert_eq!(ty("Point"), Ok(Type::Named("Point".to_string())));
    assert_eq!(ty("[[int]]"), Ok(Type::List(Box::new(Type::List(Box::new(Type::Int))))));
    assert_eq!(ty("[int"), Err(ParseError::Syntax(2)));
    assert_eq!(ty("1"), Err(ParseError::Syntax(0)));
}

#[test]
fn struct_defs_parse() {
    let def = |text: &str| parse_struct_def(&tokens_of(text), 0);
    assert_eq!(def("{}"), Ok((StructDef { fields: vec![] }, 2)));
    assert_eq!(
        def("{ x: int, tags: [string] }"),
        Ok((
            StructDef {
                fields: vec![
                    ("x".to_string(), Type::Int),
                    ("tags".to_string(), Type::List(Box::new(Type::String)))
                ]
            },
            11
        ))
    );
    assert_eq!(def("{ x: int, }"), Err(ParseError::Syntax(5)));
    assert_eq!(def("{ x int }"), Err(ParseError::Syntax(2)));
    assert_eq!(def("x: int"), Err(ParseError::Syntax(0)));
}

#[test]
fn arguments_parse() {
    let tokens = tokens_of("const Position p, [int] xs");
    assert_eq!(
        parse_argument(&tokens, 0),
        Ok((
            Argument {
                is_const: true,
                ty: Type::Named("Position".to_string()),
                name: "p".to_string()
            },
            3
        ))
    );
    assert_eq!(
        parse_argument(&tokens, 4),
        Ok((
            Argument {
                is_const: false,
                ty: Type::List(Box::new(Type::Int)),
                name: "xs".to_string()
            },
            8
        ))
    );
    assert_eq!(parse_argument(&tokens, 3), Err(ParseError::Syntax(3)));
    assert_eq!(parse_argument(&tokens_of("const"), 0), Err(ParseError::Syntax(1)));
}

fn arg(is_const: bool, ty: &str, name: &str) -> Argument {
    Argument { is_const, ty: Type::Named(ty.to_string()), name: name.to_string() }
}

#[test]
fn filters_parse() {
    let tokens = tokens_of("e(const Pos p, Vel v), Clock c, empty()) x");
    assert_eq!(
        parse_entity_filter(&tokens, 0),
        Ok((
            Filter::Entity(
                "e".to_string(),
                vec![arg(true, "Pos", "p"), arg(false, "Vel", "v")]
            ),
            9
        ))
    );
    assert_eq!(
        parse_filter(&tokens, 10),
        Ok((Filter::Resource(arg(false, "Clock", "c")), 12))
    );
    assert_eq!(
        parse_filter_list(&tokens, 0),
        Ok((
            vec![
                Filter::Entity(
                    "e".to_string(),
                    vec![arg(true, "Pos", "p"), arg(false, "Vel", "v")]
                ),
                Filter::Resource(arg(false, "Clock", "c")),
                Filter::Entity("empty".to_string(), vec![]),
            ],
            16
        ))
    );
    assert_eq!(parse_filter_list(&tokens, 16), Ok((vec![], 16)));
    assert_eq!(parse_entity_filter(&tokens, 10), Err(ParseError::Syntax(11)));
    assert_eq!(parse_filter(&tokens, 17), Err(ParseError::Syntax(18)));
}

#[test]
fn blocks_and_systems_parse() {
    let tokens = tokens_of("{ a = 1; print(a); } move(e(Pos p)) { p.x = p.x + 1; }");
    let body = vec![
        Expr::Assign(Box::new(Assign { lvalue: LValue::Ident("a".to_string()), expr: num(1) })),
        Expr::Call(Box::new(Call { builtin: BuiltIn::Print, args: vec![name("a")] })),
    ];
    assert_eq!(parse_block(&tokens, 0), Ok((body, 11)));
    let px = || Expr::LValue(LValue::Access(vec!["p".to_string(), "x".to_string()]));
    assert_eq!(
        parse_system(&tokens, 11),
        Ok((
            (
                "move".to_string(),
                Name::System(System {
                    filters: vec![Filter::Entity("e".to_string(), vec![arg(false, "Pos", "p")])],
                    code: vec![Expr::Assign(Box::new(Assign {
                        lvalue: LValue::Access(vec!["p".to_string(), "x".to_string()]),
                        expr: bin(px(), BinOp::Add, num(1)),
                    }))],
                })
            ),
            tokens.len()
        ))
    );
    assert_eq!(parse_block(&tokens_of("{}"), 0), Ok((vec![], 2)));
    assert_eq!(parse_block(&tokens_of("{ a }"), 0), Err(ParseError::Syntax(2)));
    assert_eq!(parse_block(&tokens_of("{ a; "), 0), Err(ParseError::Syntax(3)));
    assert_eq!(parse_system(&tokens_of("s { }"), 0), Err(ParseError::Syntax(1)));
    assert_eq!(parse_system(&tokens_of("s(Pos p { }"), 0), Err(ParseError::Syntax(4)));
}

#[test]
fn elements_parse() {
    let tokens = tokens_of("Pos { x: int } static int n = 1 + 2; a, b, c;");
    let def = || StructDef { fields: vec![("x".to_string(), Type::Int)] };
    assert_eq!(parse_component(&tokens, 0), Ok((("Pos".to_string(), Name::Component(def())), 6)));
    assert_eq!(parse_resource(&tokens, 0), Ok((("Pos".to_string(), Name::Resource(def())), 6)));
    let n = || {
        (
            "n".to_string(),
            Name::Static(Static { ty: Type::Int, value: bin(num(1), BinOp::Add, num(2)) }),
        )
    };
    assert_eq!(parse_static(&tokens, 7), Ok((n(), 14)));
    assert_eq!(parse_element(&tokens, 6), Ok((n(), 14)));
    assert_eq!(parse_element(&tokens, 0), Err(ParseError::Syntax(0)));
    assert_eq!(
        parse_ident_list(&tokens, 14),
        (vec!["a".to_string(), "b".to_string(), "c".to_string()], 19)
    );
    assert_eq!(parse_ident_list(&tokens, 19), (vec![], 19));
    assert_eq!(parse_static(&tokens_of("int n = 1"), 0), Err(ParseError::Syntax(4)));
    assert_eq!(parse_static(&tokens_of("int n 1;"), 0), Err(ParseError::Syntax(2)));
}

#[test]
fn a_program_parses() {
    let text = "
        component Position { x: int, y: int }
        resource Clock { ticks: int }
        struct Pair { a: int, b: int }
        static int speed = 2;
        system move(e(Position p), const Clock c) {
            p.x = p.x + speed;
            print(p);
        }
        init setup;
        run move, draw;
    ";
    let ast = program_of(text).unwrap();
    let names: Vec<&str> = ast.names.iter().map(|entry| entry.0.as_str()).collect();
    assert_eq!(names, vec!["Position", "Clock", "Pair", "speed", "move"]);
    assert_eq!(
        ast.names[0].1,
        Name::Component(StructDef {
            fields: vec![("x".to_string(), Type::Int), ("y".to_string(), Type::Int)]
        })
    );
    assert_eq!(
        ast.names[1].1,
        Name::Resource(StructDef { fields: vec![("ticks".to_string(), Type::Int)] })
    );
    assert_eq!(
        ast.names[2].1,
        Name::Struct(StructDef {
            fields: vec![("a".to_string(), Type::Int), ("b".to_string(), Type::Int)]
        })
    );
    assert_eq!(ast.names[3].1, Name::Static(Static { ty: Type::Int, value: num(2) }));
    match &ast.names[4].1 {
        Name::System(system) => {
            assert_eq!(
                system.filters,
                vec![
                    Filter::Entity("e".to_string(), vec![arg(false, "Position", "p")]),
                    Filter::Resource(arg(true, "Clock", "c")),
                ]
            );
            assert_eq!(system.code.len(), 2);
        },
        other => panic!("not a system: {:?}", other),
    }
    assert_eq!(ast.init, vec!["setup".to_string()]);
    assert_eq!(ast.run, vec!["move".to_string(), "draw".to_string()]);
}

#[test]
fn an_empty_text_is_an_empty_program() {
    let ast = program_of("  \n ").unwrap();
    assert_eq!(ast, AST { names: vec![], init: vec![], run: vec![] });
    let ast = program_of("init; run;").unwrap();
    assert_eq!(ast, AST { names: vec![], init: vec![], run: vec![] });
}

#[test]
fn a_later_list_replaces_an_earlier_one() {
    let ast = program_of("run a, b; init x; run c;").unwrap();
    assert_eq!(ast.run, vec!["c".to_string()]);
    assert_eq!(ast.init, vec!["x".to_string()]);
}

#[test]
fn a_program_reports_where_it_goes_wrong() {
    assert_eq!(program_of("component P { x: int } $"), Err(ParseError::Lexical(23)));
    assert_eq!(program_of("component P { x: int"), Err(ParseError::Syntax(6)));
    assert_eq!(program_of("component { }"), Err(ParseError::Syntax(1)));
    assert_eq!(program_of("run a"), Err(ParseError::Syntax(2)));
    assert_eq!(program_of("p = 1;"), Err(ParseError::Syntax(0)));
    assert_eq!(program_of("static int n = ;"), Err(ParseError::Syntax(4)));
}

#[test]
fn a_program_declares_a_name_once() {
    assert_eq!(
        program_of("component P { } resource P { }"),
        Err(ParseError::DuplicateName)
    );
    assert_eq!(
        program_of("struct P { } static int P = 1;"),
        Err(ParseError::DuplicateName)
    );
    assert!(program_of("struct P { } struct Q { }").is_ok());
}

#[test]
fn printed_integers_read_back_as_the_same_value() {
    let mut ctx = ecs_lang::eval::context::Context::new();
    for i in [0, 7, 10, 1090, i64::MAX, -1, -120, i64::MIN + 1] {
        let text = ecs_lang::eval::render::render_var(
            ctx.store(),
            &ecs_lang::eval::value::Var::Int(i),
        );
        let expr = expr_of(&text).unwrap();
        assert_eq!(
            ecs_lang::eval::expressions::eval_expr(&mut ctx, &expr),
            Ok(ecs_lang::eval::value::Var::Int(i))
        );
    }
    for text in ["true", "false", "void"] {
        let expr = expr_of(text).unwrap();
        let value = ecs_lang::eval::expressions::eval_expr(&mut ctx, &expr).unwrap();
        assert_eq!(ecs_lang::eval::render::render_var(ctx.store(), &value), text);
    }
}
