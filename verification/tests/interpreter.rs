use evilcon_sim::ast::{Decl, Expr, ExtendsClause, ForStmt, FunctionDecl, Literal, Parameter,
    SourceFile, Stmt, VarStmt, WhileStmt, MatchStmt, MatchClause, Pattern, Lambda};
use evilcon_sim::class::{Adjustment, Class, ProxyVar};
use evilcon_sim::errors::EvalError;
use evilcon_sim::eval::{EvaluatorState, Scope, SuperglobalState};
use evilcon_sim::ident::Identifier;
use evilcon_sim::ops::{AssignOp, BinaryOp, UnaryOp};
use evilcon_sim::opsem::eval_unary_op;
use evilcon_sim::rng::SeededRng;
use evilcon_sim::value::{SimpleValue, Value};
use std::rc::Rc;

const FUEL: u64 = 1_000_000;

fn ident(s: &str) -> Identifier {
    Identifier(String::from(s))
}

fn int_lit(i: i64) -> Expr {
    Expr::Literal(Literal::Int(i))
}

fn machine() -> EvaluatorState {
    EvaluatorState::new(SuperglobalState::build(), 0)
}

fn array_id(v: &Value) -> usize {
    match v {
        Value::ArrayRef(id) => *id,
        other => panic!("expected an array, got {other:?}"),
    }
}

fn as_int(v: &Value) -> i64 {
    match v {
        Value::Int(i) => *i,
        other => panic!("expected an integer, got {other:?}"),
    }
}

#[test]
fn field_shadows_method() {
    let mut es = machine();
    let decls = vec![Decl::Function(FunctionDecl {
        name: ident("x"),
        params: Vec::new(),
        is_static: false,
        body: vec![Stmt::Return(Some(Box::new(int_lit(1))))],
    })];
    let refcounted = es.sg.builtins.refcounted;
    let cid = es.sg.build_class_from_decls(Some(String::from("Probe")), refcounted, decls, FUEL)
        .unwrap();
    let obj = es.call_function_on_class(cid, "new", Vec::new(), FUEL).unwrap();
    // Before any field exists the method is found and wrapped.
    let bound = es.get_value(&obj, "x", FUEL).unwrap();
    assert!(matches!(bound, Value::BoundMethod(_)));
    // A raw field of the same name always shadows the method.
    es.set_value_raw(&obj, "x", Value::Int(42)).unwrap();
    let got = es.get_value(&obj, "x", FUEL).unwrap();
    assert_eq!(as_int(&got), 42);
}

#[test]
fn arithmetic_promotion_rules() {
    let mut es = machine();
    let sum = es.eval_binary_op(Value::Int(2), BinaryOp::Add, Value::Int(3), FUEL).unwrap();
    assert_eq!(as_int(&sum), 5);
    // Integer division truncates toward zero.
    let q = es.eval_binary_op(Value::Int(7), BinaryOp::Div, Value::Int(2), FUEL).unwrap();
    assert_eq!(as_int(&q), 3);
    let q = es.eval_binary_op(Value::Int(-7), BinaryOp::Div, Value::Int(2), FUEL).unwrap();
    assert_eq!(as_int(&q), -3);
    let q = es.eval_binary_op(Value::Int(-7), BinaryOp::Div, Value::Int(-2), FUEL).unwrap();
    assert_eq!(as_int(&q), 3);
    let m = es.eval_binary_op(Value::Int(-7), BinaryOp::Mod, Value::Int(2), FUEL).unwrap();
    assert_eq!(as_int(&m), -1);
    assert!(es.eval_binary_op(Value::Int(1), BinaryOp::Div, Value::Int(0), FUEL).is_err());
    // Overflow wraps, as release arithmetic does.
    let wrapped = es.eval_binary_op(Value::Int(i64::MAX), BinaryOp::Add, Value::Int(1), FUEL)
        .unwrap();
    assert_eq!(as_int(&wrapped), i64::MIN);
    // Negation is exact.
    let neg = eval_unary_op(UnaryOp::Neg, Value::Int(5)).unwrap();
    assert_eq!(as_int(&neg), -5);
    // `+` on arrays concatenates rather than adding.
    let a = es.heap.alloc_array(vec![Value::Int(1)]);
    let b = es.heap.alloc_array(vec![Value::Int(2)]);
    let joined = es.eval_binary_op(Value::ArrayRef(a), BinaryOp::Add, Value::ArrayRef(b), FUEL)
        .unwrap();
    let jid = array_id(&joined);
    assert_eq!(es.heap.array_len(jid).unwrap(), 2);
    assert_eq!(as_int(&es.heap.array_get(jid, 1).unwrap()), 2);
}

#[test]
fn comparisons_and_membership() {
    let mut es = machine();
    let lt = es.eval_binary_op(
        Value::Str(String::from("apple")),
        BinaryOp::Lt,
        Value::Str(String::from("banana")),
        FUEL,
    ).unwrap();
    assert!(matches!(lt, Value::Bool(true)));
    let found = es.eval_binary_op(
        Value::Str(String::from("ell")),
        BinaryOp::In,
        Value::Str(String::from("hello")),
        FUEL,
    ).unwrap();
    assert!(matches!(found, Value::Bool(true)));
    let arr = es.heap.alloc_array(vec![Value::Int(4), Value::Int(5)]);
    let found = es.eval_binary_op(Value::Int(5), BinaryOp::In, Value::ArrayRef(arr), FUEL)
        .unwrap();
    assert!(matches!(found, Value::Bool(true)));
    let missing = es.eval_binary_op(Value::Int(6), BinaryOp::NotIn, Value::ArrayRef(arr), FUEL)
        .unwrap();
    assert!(matches!(missing, Value::Bool(true)));
    let eq = es.eval_binary_op(Value::Int(1), BinaryOp::Eq, Value::Int(1), FUEL).unwrap();
    assert!(matches!(eq, Value::Bool(true)));
}

#[test]
fn aliasing_is_visible_through_every_reference() {
    let mut es = machine();
    let id = es.heap.alloc_array(vec![Value::Int(1), Value::Int(2)]);
    let x = Value::ArrayRef(id);
    let y = Value::ArrayRef(id);
    es.set_index(&x, Value::Int(0), Value::Int(99)).unwrap();
    // The write through `x` is seen through `y`.
    let through_y = es.call_function_on(&y, "__getitem__", vec![Value::Int(0)], FUEL).unwrap();
    assert_eq!(as_int(&through_y), 99);
}

#[test]
fn shallow_duplicate_breaks_top_level_aliasing_only() {
    let mut es = machine();
    let inner = es.heap.alloc_array(vec![Value::Int(7)]);
    let outer = es.heap.alloc_array(vec![Value::ArrayRef(inner), Value::Int(0)]);
    let copy = es.call_function_on(&Value::ArrayRef(outer), "duplicate", Vec::new(), FUEL)
        .unwrap();
    let copy_id = array_id(&copy);
    assert_ne!(copy_id, outer);
    // Top-level aliasing is broken: writing the original leaves the copy.
    es.set_index(&Value::ArrayRef(outer), Value::Int(1), Value::Int(5)).unwrap();
    assert_eq!(as_int(&es.heap.array_get(copy_id, 1).unwrap()), 0);
    // Nested containers stay shared: a write through the original's inner
    // array shows through the copy.
    es.set_index(&Value::ArrayRef(inner), Value::Int(0), Value::Int(123)).unwrap();
    let nested = es.heap.array_get(copy_id, 0).unwrap();
    assert_eq!(array_id(&nested), inner);
    let seen = es.call_function_on(&nested, "__getitem__", vec![Value::Int(0)], FUEL).unwrap();
    assert_eq!(as_int(&seen), 123);
}

#[test]
fn deep_duplicate_breaks_nested_aliasing() {
    let mut es = machine();
    let inner = es.heap.alloc_array(vec![Value::Int(7)]);
    let outer = es.heap.alloc_array(vec![Value::ArrayRef(inner)]);
    let copy = es.call_function_on(
        &Value::ArrayRef(outer),
        "duplicate",
        vec![Value::Bool(true)],
        FUEL,
    ).unwrap();
    let copy_id = array_id(&copy);
    assert_ne!(copy_id, outer);
    let nested = es.heap.array_get(copy_id, 0).unwrap();
    assert_ne!(array_id(&nested), inner);
    // Mutating the original's nested array no longer shows through.
    es.set_index(&Value::ArrayRef(inner), Value::Int(0), Value::Int(123)).unwrap();
    let seen = es.call_function_on(&nested, "__getitem__", vec![Value::Int(0)], FUEL).unwrap();
    assert_eq!(as_int(&seen), 7);
}

#[test]
fn constant_initializer_runs_exactly_once() {
    let mut es = machine();
    let decls = vec![Decl::Const { name: ident("ANSWER"), value: Box::new(int_lit(5)) }];
    let refcounted = es.sg.builtins.refcounted;
    let cid = es.sg.build_class_from_decls(Some(String::from("Holder")), refcounted, decls, FUEL)
        .unwrap();
    let first = es.force_constant_at(cid, 0, FUEL).unwrap();
    assert!(matches!(first, SimpleValue::Int(5)));
    let second = es.force_constant_at(cid, 0, FUEL).unwrap();
    assert!(matches!(second, SimpleValue::Int(5)));
    // The memoized value is also what attribute access on the class sees.
    let via_attr = es.get_value(&Value::ClassRef(cid), "ANSWER", FUEL).unwrap();
    assert_eq!(as_int(&via_attr), 5);
}

#[test]
fn poisoned_constant_stays_poisoned() {
    let mut es = machine();
    let decls = vec![Decl::Const {
        name: ident("BROKEN"),
        value: Box::new(Expr::Name(ident("no_such_name"))),
    }];
    let refcounted = es.sg.builtins.refcounted;
    let cid = es.sg.build_class_from_decls(Some(String::from("Cursed")), refcounted, decls, FUEL)
        .unwrap();
    assert!(es.force_constant_at(cid, 0, FUEL).is_err());
    let again = es.force_constant_at(cid, 0, FUEL);
    assert!(matches!(again, Err(EvalError::PoisonedConstant)));
}

#[test]
fn for_loop_iterates_a_snapshot() {
    let mut es = machine();
    let arr = es.heap.alloc_array(vec![Value::Int(1), Value::Int(2), Value::Int(3)]);
    let mut scope = Scope::new();
    scope.set_local_var("a", Value::ArrayRef(arr));
    // for i in a: a.push_back(99)
    let stmt = Stmt::For(ForStmt {
        variable: ident("i"),
        iterable: Box::new(Expr::Name(ident("a"))),
        body: vec![Stmt::ExprStmt(Box::new(Expr::AttrCall(
            Box::new(Expr::Name(ident("a"))),
            ident("push_back"),
            vec![int_lit(99)],
        )))],
    });
    es.eval_stmt(&mut scope, &stmt, FUEL).unwrap();
    // Exactly three iterations ran, even though the loop body grew the
    // source array each time.
    assert_eq!(es.heap.array_len(arr).unwrap(), 6);
}

#[test]
fn break_escapes_only_the_nearest_loop() {
    let mut es = machine();
    let out = es.heap.alloc_array(Vec::new());
    let mut scope = Scope::new();
    scope.set_local_var("out", Value::ArrayRef(out));
    // for i in [1, 2]: for j in [10, 20]: out.push_back(j); break
    let push_j = Stmt::ExprStmt(Box::new(Expr::AttrCall(
        Box::new(Expr::Name(ident("out"))),
        ident("push_back"),
        vec![Expr::Name(ident("j"))],
    )));
    let inner = Stmt::For(ForStmt {
        variable: ident("j"),
        iterable: Box::new(Expr::Array(vec![int_lit(10), int_lit(20)])),
        body: vec![push_j, Stmt::Break],
    });
    let outer = Stmt::For(ForStmt {
        variable: ident("i"),
        iterable: Box::new(Expr::Array(vec![int_lit(1), int_lit(2)])),
        body: vec![inner],
    });
    es.eval_stmt(&mut scope, &outer, FUEL).unwrap();
    // The break ended only the inner loop: the outer loop ran twice.
    assert_eq!(es.heap.array_len(out).unwrap(), 2);
    assert_eq!(as_int(&es.heap.array_get(out, 0).unwrap()), 10);
    assert_eq!(as_int(&es.heap.array_get(out, 1).unwrap()), 10);
}

#[test]
fn while_loop_and_compound_assignment() {
    let mut es = machine();
    let mut scope = Scope::new();
    scope.set_local_var("x", Value::Int(0));
    // while x < 3: x += 1
    let stmt = Stmt::While(WhileStmt {
        condition: Box::new(Expr::BinaryOp(
            Box::new(Expr::Name(ident("x"))),
            BinaryOp::Lt,
            Box::new(int_lit(3)),
        )),
        body: vec![Stmt::AssignOp(
            Box::new(Expr::Name(ident("x"))),
            AssignOp::AddEq,
            Box::new(int_lit(1)),
        )],
    });
    es.eval_stmt(&mut scope, &stmt, FUEL).unwrap();
    assert_eq!(as_int(&scope.get_local_var("x").unwrap()), 3);
}

#[test]
fn match_statement_first_clause_wins() {
    let mut es = machine();
    let mut scope = Scope::new();
    scope.set_local_var("r", Value::Int(0));
    let assign = |v: i64| Stmt::AssignOp(
        Box::new(Expr::Name(ident("r"))),
        AssignOp::Eq,
        Box::new(int_lit(v)),
    );
    let stmt = Stmt::Match(MatchStmt {
        value: Box::new(int_lit(2)),
        clauses: vec![
            MatchClause { pattern: Pattern::Literal(Literal::Int(1)), body: vec![assign(10)] },
            MatchClause { pattern: Pattern::Literal(Literal::Int(2)), body: vec![assign(20)] },
            MatchClause { pattern: Pattern::Underscore, body: vec![assign(30)] },
        ],
    });
    es.eval_stmt(&mut scope, &stmt, FUEL).unwrap();
    assert_eq!(as_int(&scope.get_local_var("r").unwrap()), 20);
}

fn loaded_machine(decls: Vec<Decl>) -> (EvaluatorState, usize) {
    let mut es = machine();
    let file = SourceFile {
        extends_clause: Some(ExtendsClause::Id(ident("RefCounted"))),
        class_name: Some(ident("Subject")),
        decls,
    };
    let cid = es.sg.load_file(String::from("res://subject.gd"), file, FUEL).unwrap();
    (es, cid)
}

#[test]
fn scripted_method_call_with_defaults() {
    let add = FunctionDecl {
        name: ident("add"),
        params: vec![
            Parameter { name: String::from("a"), default_value: None },
            Parameter { name: String::from("b"), default_value: Some(int_lit(10)) },
        ],
        is_static: false,
        body: vec![Stmt::Return(Some(Box::new(Expr::BinaryOp(
            Box::new(Expr::Name(ident("a"))),
            BinaryOp::Add,
            Box::new(Expr::Name(ident("b"))),
        ))))],
    };
    let (mut es, cid) = loaded_machine(vec![Decl::Function(add)]);
    let obj = es.call_function_on_class(cid, "new", Vec::new(), FUEL).unwrap();
    let full = es.call_function_on(&obj, "add", vec![Value::Int(2), Value::Int(3)], FUEL)
        .unwrap();
    assert_eq!(as_int(&full), 5);
    // A missing argument falls back to the default expression.
    let defaulted = es.call_function_on(&obj, "add", vec![Value::Int(2)], FUEL).unwrap();
    assert_eq!(as_int(&defaulted), 12);
    // Too few required arguments is an arity error, wrapped with the
    // callee's name for the call trace.
    let err = es.call_function_on(&obj, "add", Vec::new(), FUEL).unwrap_err();
    assert!(matches!(err, EvalError::ErrorInFunction { .. }));
}

#[test]
fn super_call_resolves_against_the_parent() {
    let mut es = machine();
    let base_m = FunctionDecl {
        name: ident("m"),
        params: Vec::new(),
        is_static: false,
        body: vec![Stmt::Return(Some(Box::new(int_lit(1))))],
    };
    let base = SourceFile {
        extends_clause: Some(ExtendsClause::Id(ident("RefCounted"))),
        class_name: Some(ident("Base")),
        decls: vec![Decl::Function(base_m)],
    };
    es.sg.load_file(String::from("res://base.gd"), base, FUEL).unwrap();
    let sub_m = FunctionDecl {
        name: ident("m"),
        params: Vec::new(),
        is_static: false,
        body: vec![Stmt::Return(Some(Box::new(int_lit(2))))],
    };
    let via_super = FunctionDecl {
        name: ident("from_parent"),
        params: Vec::new(),
        is_static: false,
        body: vec![Stmt::Return(Some(Box::new(Expr::AttrCall(
            Box::new(Expr::Name(ident("super"))),
            ident("m"),
            Vec::new(),
        ))))],
    };
    let sub = SourceFile {
        extends_clause: Some(ExtendsClause::Id(ident("Base"))),
        class_name: Some(ident("Sub")),
        decls: vec![Decl::Function(sub_m), Decl::Function(via_super)],
    };
    let sub_id = es.sg.load_file(String::from("res://sub.gd"), sub, FUEL).unwrap();
    let obj = es.call_function_on_class(sub_id, "new", Vec::new(), FUEL).unwrap();
    assert_eq!(as_int(&es.call_function_on(&obj, "m", Vec::new(), FUEL).unwrap()), 2);
    assert_eq!(as_int(&es.call_function_on(&obj, "from_parent", Vec::new(), FUEL).unwrap()), 1);
}

#[test]
fn lambda_captures_the_defining_scope() {
    let mut es = machine();
    let mut scope = Scope::new();
    scope.set_local_var("x", Value::Int(5));
    let lambda = Expr::Lambda(Rc::new(Lambda {
        name: None,
        params: Vec::new(),
        body: vec![Stmt::Return(Some(Box::new(Expr::Name(ident("x")))))],
    }));
    let f = es.eval_expr(&scope, &lambda, FUEL).unwrap();
    assert!(matches!(f, Value::Lambda(_)));
    let got = es.call_function_on(&f, "call", Vec::new(), FUEL).unwrap();
    assert_eq!(as_int(&got), 5);
    // Partial application through bind: the call's own arguments come
    // first, then the bound ones.
    let minus = Expr::Lambda(Rc::new(Lambda {
        name: None,
        params: vec![
            Parameter { name: String::from("a"), default_value: None },
            Parameter { name: String::from("b"), default_value: None },
        ],
        body: vec![Stmt::Return(Some(Box::new(Expr::BinaryOp(
            Box::new(Expr::Name(ident("a"))),
            BinaryOp::Sub,
            Box::new(Expr::Name(ident("b"))),
        ))))],
    }));
    let g = es.eval_expr(&scope, &minus, FUEL).unwrap();
    let bound = es.call_function_on(&g, "bind", vec![Value::Int(100)], FUEL).unwrap();
    let got = es.call_function_on(&bound, "call", vec![Value::Int(11)], FUEL).unwrap();
    assert_eq!(as_int(&got), 11 - 100);
}

#[test]
fn instance_variables_and_dictionaries() {
    let decls = vec![
        Decl::Var(VarStmt { name: ident("hp"), initial_value: Some(Box::new(int_lit(20))) }),
        Decl::Var(VarStmt { name: ident("label"), initial_value: None }),
    ];
    let (mut es, cid) = loaded_machine(decls);
    let obj = es.call_function_on_class(cid, "new", Vec::new(), FUEL).unwrap();
    assert_eq!(as_int(&es.get_value(&obj, "hp", FUEL).unwrap()), 20);
    assert!(matches!(es.get_value(&obj, "label", FUEL).unwrap(), Value::Null));
    // Dictionary literals keep insertion order and subscripting works.
    let scope = Scope::new();
    let dict_expr = Expr::Dictionary(vec![
        evilcon_sim::ast::DictEntry {
            key: Expr::Literal(Literal::String(evilcon_sim::gdstring::GdString::simple(
                String::from("k"),
            ))),
            value: int_lit(9),
        },
    ]);
    let dict = es.eval_expr(&scope, &dict_expr, FUEL).unwrap();
    let got = es.call_function_on(
        &dict,
        "__getitem__",
        vec![Value::Str(String::from("k"))],
        FUEL,
    ).unwrap();
    assert_eq!(as_int(&got), 9);
    let n = es.call_function_on(&dict, "size", Vec::new(), FUEL).unwrap();
    assert_eq!(as_int(&n), 1);
}

#[test]
fn enums_and_negative_indexing() {
    let decls = vec![Decl::Enum(evilcon_sim::ast::EnumDecl {
        name: ident("Suit"),
        members: vec![
            (ident("HEARTS"), None),
            (ident("SPADES"), None),
            (ident("JOKER"), Some(int_lit(10))),
            (ident("AFTER"), None),
        ],
    })];
    let (mut es, cid) = loaded_machine(decls);
    let suit = es.get_value(&Value::ClassRef(cid), "Suit", FUEL).unwrap();
    assert_eq!(as_int(&es.get_value(&suit, "HEARTS", FUEL).unwrap()), 0);
    assert_eq!(as_int(&es.get_value(&suit, "SPADES", FUEL).unwrap()), 1);
    assert_eq!(as_int(&es.get_value(&suit, "JOKER", FUEL).unwrap()), 10);
    assert_eq!(as_int(&es.get_value(&suit, "AFTER", FUEL).unwrap()), 11);
    // Negative subscripts wrap around, Python-style.
    let arr = es.heap.alloc_array(vec![Value::Int(5), Value::Int(6), Value::Int(7)]);
    let last = es.call_function_on(&Value::ArrayRef(arr), "__getitem__", vec![Value::Int(-1)],
        FUEL).unwrap();
    assert_eq!(as_int(&last), 7);
}

fn unary_lambda(body: Expr) -> Expr {
    Expr::Lambda(Rc::new(Lambda {
        name: None,
        params: vec![Parameter { name: String::from("v"), default_value: None }],
        body: vec![Stmt::Return(Some(Box::new(body)))],
    }))
}

fn binary_lambda(op: BinaryOp) -> Expr {
    Expr::Lambda(Rc::new(Lambda {
        name: None,
        params: vec![
            Parameter { name: String::from("a"), default_value: None },
            Parameter { name: String::from("b"), default_value: None },
        ],
        body: vec![Stmt::Return(Some(Box::new(Expr::BinaryOp(
            Box::new(Expr::Name(ident("a"))),
            op,
            Box::new(Expr::Name(ident("b"))),
        ))))],
    }))
}

#[test]
fn array_map_filter_reduce() {
    let mut es = machine();
    let scope = Scope::new();
    let arr = Value::ArrayRef(es.heap.alloc_array(vec![
        Value::Int(1),
        Value::Int(2),
        Value::Int(3),
        Value::Int(4),
    ]));
    // map(|v| v + v) gives a fresh array of doubles.
    let doubler = es.eval_expr(&scope, &unary_lambda(Expr::BinaryOp(
        Box::new(Expr::Name(ident("v"))),
        BinaryOp::Add,
        Box::new(Expr::Name(ident("v"))),
    )), FUEL).unwrap();
    let mapped = es.call_function_on(&arr, "map", vec![doubler], FUEL).unwrap();
    let mid = array_id(&mapped);
    assert_eq!(es.heap.array_len(mid).unwrap(), 4);
    assert_eq!(as_int(&es.heap.array_get(mid, 3).unwrap()), 8);
    // filter(|v| v < 3) keeps the small ones.
    let small = es.eval_expr(&scope, &unary_lambda(Expr::BinaryOp(
        Box::new(Expr::Name(ident("v"))),
        BinaryOp::Lt,
        Box::new(int_lit(3)),
    )), FUEL).unwrap();
    let filtered = es.call_function_on(&arr, "filter", vec![small], FUEL).unwrap();
    let fid = array_id(&filtered);
    assert_eq!(es.heap.array_len(fid).unwrap(), 2);
    assert_eq!(as_int(&es.heap.array_get(fid, 1).unwrap()), 2);
    // reduce starts from the first element when no seed is given.
    let plus = es.eval_expr(&scope, &binary_lambda(BinaryOp::Add), FUEL).unwrap();
    let total = es.call_function_on(&arr, "reduce", vec![plus], FUEL).unwrap();
    assert_eq!(as_int(&total), 10);
    let plus = es.eval_expr(&scope, &binary_lambda(BinaryOp::Add), FUEL).unwrap();
    let seeded = es.call_function_on(&arr, "reduce", vec![plus, Value::Int(100)], FUEL).unwrap();
    assert_eq!(as_int(&seeded), 110);
}

#[test]
fn array_sort_custom_sorts_in_place() {
    let mut es = machine();
    let scope = Scope::new();
    let id = es.heap.alloc_array(vec![
        Value::Int(3),
        Value::Int(1),
        Value::Int(2),
    ]);
    let arr = Value::ArrayRef(id);
    let less = es.eval_expr(&scope, &binary_lambda(BinaryOp::Lt), FUEL).unwrap();
    es.call_function_on(&arr, "sort_custom", vec![less], FUEL).unwrap();
    // The same array, through the same reference, is now sorted.
    assert_eq!(as_int(&es.heap.array_get(id, 0).unwrap()), 1);
    assert_eq!(as_int(&es.heap.array_get(id, 1).unwrap()), 2);
    assert_eq!(as_int(&es.heap.array_get(id, 2).unwrap()), 3);
}

#[test]
fn seeded_streams_are_reproducible() {
    // The library's stream is exactly the underlying generator's stream.
    let mut ours = SeededRng::from_seed(7);
    let mut theirs = <rand_chacha::ChaCha8Rng as rand_chacha::rand_core::SeedableRng>::seed_from_u64(7);
    for _ in 0..8 {
        let direct = rand_chacha::rand_core::RngCore::next_u32(&mut theirs);
        assert_eq!(ours.next_u32(), direct);
    }
    // Two machines with the same seed draw identical values.
    let mut a = EvaluatorState::new(SuperglobalState::build(), 42);
    let mut b = EvaluatorState::new(SuperglobalState::build(), 42);
    for _ in 0..16 {
        let lo = -5;
        let hi = 1000;
        let x = a.rng.randi_range(lo, hi);
        let y = b.rng.randi_range(lo, hi);
        assert_eq!(x, y);
        assert!(lo <= x && x <= hi);
    }
    // A different seed gives a different stream.
    let mut c = SeededRng::from_seed(43);
    let mut d = SeededRng::from_seed(44);
    let cs: Vec<u32> = (0..4).map(|_| c.next_u32()).collect();
    let ds: Vec<u32> = (0..4).map(|_| d.next_u32()).collect();
    assert_ne!(cs, ds);
}

#[test]
fn shuffle_is_a_seeded_permutation() {
    let run = |seed: u64| -> Vec<i64> {
        let mut es = EvaluatorState::new(SuperglobalState::build(), seed);
        let id = es.heap.alloc_array((0..8).map(Value::Int).collect());
        es.call_function_on(&Value::ArrayRef(id), "shuffle", Vec::new(), FUEL).unwrap();
        (0..8).map(|i| as_int(&es.heap.array_get(id, i).unwrap())).collect()
    };
    let first = run(123);
    let second = run(123);
    // Identical seeds give the identical permutation.
    assert_eq!(first, second);
    // And it is a permutation: the same elements, rearranged.
    let mut sorted = first.clone();
    sorted.sort();
    assert_eq!(sorted, (0..8).collect::<Vec<i64>>());
    assert_ne!(first, run(907));
}

#[test]
fn randomness_class_draws_deterministically() {
    let mut es = machine();
    let scope = Scope::new();
    let rng_class = es.eval_expr(&scope, &Expr::Name(ident("Randomness")), FUEL).unwrap();
    let obj = match &rng_class {
        Value::ClassRef(c) => es.call_function_on_class(*c, "new", Vec::new(), FUEL).unwrap(),
        other => panic!("expected a class, got {other:?}"),
    };
    let drawn = es.call_function_on(&obj, "randi_range", vec![Value::Int(1), Value::Int(6)],
        FUEL).unwrap();
    let v = as_int(&drawn);
    assert!((1..=6).contains(&v));
    let picked = {
        let arr = es.heap.alloc_array(vec![Value::Int(7), Value::Int(8)]);
        es.call_function_on(&obj, "choose", vec![Value::ArrayRef(arr)], FUEL).unwrap()
    };
    assert!(matches!(picked, Value::Int(7) | Value::Int(8)));
    assert!(es.call_function_on(&obj, "randi", Vec::new(), FUEL).is_ok());
}

#[test]
fn proxy_variables_intercept_and_clamp_writes() {
    let mut es = machine();
    let refcounted = es.sg.builtins.refcounted;
    // A stand-in engine class whose defense stat is a computed property
    // clamped into its legal range, backed by a raw field.
    let cid = es.sg.classes.len();
    es.sg.classes.push(Class {
        name: Some(String::from("StatsPanel")),
        parent: Some(refcounted),
        constants: Vec::new(),
        instance_vars: Rc::new(Vec::new()),
        proxy_vars: Rc::new(vec![(
            String::from("fort_defense"),
            ProxyVar::Backed {
                backing_field: String::from("_fort_defense"),
                adjustment: Adjustment::Clamped(0, 100),
            },
        )]),
        methods: Rc::new(Vec::new()),
    });
    let obj = es.call_function_on_class(cid, "new", Vec::new(), FUEL).unwrap();
    // Writes through the proxy run the clamping adjustment.
    es.set_value(&obj, "fort_defense", Value::Int(250), FUEL).unwrap();
    assert_eq!(as_int(&es.get_value(&obj, "fort_defense", FUEL).unwrap()), 100);
    es.set_value(&obj, "fort_defense", Value::Int(-3), FUEL).unwrap();
    assert_eq!(as_int(&es.get_value(&obj, "fort_defense", FUEL).unwrap()), 0);
    es.set_value(&obj, "fort_defense", Value::Int(42), FUEL).unwrap();
    assert_eq!(as_int(&es.get_value(&obj, "fort_defense", FUEL).unwrap()), 42);
    // The raw backing field holds the adjusted value.
    assert_eq!(as_int(&es.get_value(&obj, "_fort_defense", FUEL).unwrap()), 42);
}

#[test]
fn mocked_engine_wires_fort_defense_to_the_endgame_signal() {
    let mut es = machine();
    evilcon_sim::mocking::bind_mocked_methods(&mut es.sg);
    evilcon_sim::mocking::bind_mocked_classes(&mut es.sg);
    // The driver normally loads the randomness and event-logger scripts
    // before a match; stand-ins are enough for the stats path.
    for path in [
        "res://card_game/playing_field/randomness.gd",
        "res://card_game/playing_field/event_logger.gd",
        "res://card_game/playing_field/card_player.gd",
        "res://card_game/playing_field/log_events.gd",
        "res://card_game/playing_field/util/card_effects.gd",
        "res://card_game/playing_field/util/card_game_phases.gd",
        "res://card_game/playing_field/util/query.gd",
        "res://card_game/playing_field/util/stats_calculator.gd",
        "res://card_game/playing_field/destination_transform.gd",
        "res://card_game/playing_field/card_container/card_container.gd",
        "res://card_game/playing_field/player_agent/player_agent.gd",
        "res://util.gd",
        "res://operator.gd",
        "res://card_game/playing_card/playing_card_lists.gd",
        "res://card_game/playing_card/card_meta.gd",
        "res://card_game/playing_card/archetype.gd",
    ] {
        let refcounted = es.sg.builtins.refcounted;
        let cid = es.sg.classes.len();
        es.sg.classes.push(Class {
            name: None,
            parent: Some(refcounted),
            constants: Vec::new(),
            instance_vars: Rc::new(Vec::new()),
            proxy_vars: Rc::new(Vec::new()),
            methods: Rc::new(Vec::new()),
        });
        es.sg.add_file(String::from(path), cid);
    }
    // The playing field is registered under its resource path and is
    // instantiated like any scripted class.
    let field_cid = es.sg.get_file(evilcon_sim::mocking::PLAYING_FIELD_RES_PATH).unwrap();
    let field = es.call_function_on_class(field_cid, "new", Vec::new(), FUEL).unwrap();
    // A fresh field has no end state recorded.
    assert!(matches!(
        es.get_value(&field, evilcon_sim::mocking::ENDGAME_VARIABLE, FUEL).unwrap(),
        Value::Null
    ));
    let stats_cid = es.sg.get_class_var("Stats").unwrap();
    // A positive defense write lands on the chosen player's stats panel
    // and records no winner.
    es.call_function_on_class(
        stats_cid,
        "set_fort_defense",
        vec![field.dup(), Value::Str(String::from("TOP")), Value::Int(10)],
        FUEL,
    )
    .unwrap();
    assert!(matches!(
        es.get_value(&field, evilcon_sim::mocking::ENDGAME_VARIABLE, FUEL).unwrap(),
        Value::Null
    ));
    let panel = es.get_value(&field, "__evilconsim_statspanel_top", FUEL).unwrap();
    assert_eq!(as_int(&es.get_value(&panel, "fort_defense", FUEL).unwrap()), 10);
    // Dropping the top player's fortress to zero ends the match in the
    // bottom player's favour, once and permanently.
    es.call_function_on_class(
        stats_cid,
        "set_fort_defense",
        vec![field.dup(), Value::Str(String::from("TOP")), Value::Int(0)],
        FUEL,
    )
    .unwrap();
    match es.get_value(&field, evilcon_sim::mocking::ENDGAME_VARIABLE, FUEL).unwrap() {
        Value::Str(w) => assert_eq!(w, "BOTTOM"),
        other => panic!("expected a recorded winner, got {other:?}"),
    }
}

#[test]
fn repeated_declaration_of_a_name_keeps_the_last_one() {
    // Two methods under one name: the later declaration replaces the
    // earlier, as it does for a redefined constant.
    let first = FunctionDecl {
        name: ident("pick"),
        params: Vec::new(),
        is_static: false,
        body: vec![Stmt::Return(Some(Box::new(int_lit(1))))],
    };
    let second = FunctionDecl {
        name: ident("pick"),
        params: Vec::new(),
        is_static: false,
        body: vec![Stmt::Return(Some(Box::new(int_lit(2))))],
    };
    let (mut es, cid) = loaded_machine(vec![
        Decl::Function(first),
        Decl::Function(second),
        Decl::Const { name: ident("K"), value: Box::new(int_lit(7)) },
        Decl::Const { name: ident("K"), value: Box::new(int_lit(8)) },
    ]);
    let obj = es.call_function_on_class(cid, "new", Vec::new(), FUEL).unwrap();
    assert_eq!(as_int(&es.call_function_on(&obj, "pick", Vec::new(), FUEL).unwrap()), 2);
    assert_eq!(as_int(&es.get_value(&Value::ClassRef(cid), "K", FUEL).unwrap()), 8);
}

#[test]
fn loading_a_named_file_binds_the_class_as_a_superglobal() {
    let (es, cid) = loaded_machine(Vec::new());
    // The resource path and the declared class name both reach the
    // same freshly built class.
    assert_eq!(es.sg.get_file("res://subject.gd"), Some(cid));
    assert_eq!(es.sg.get_class_var("Subject"), Some(cid));
}

#[test]
fn string_percent_formats_against_the_directive_count() {
    let mut es = machine();
    // One directive takes one argument and renders its decimal text.
    let out = es
        .eval_binary_op(
            Value::Str(String::from("turn %s!")),
            BinaryOp::Mod,
            Value::Int(-42),
            FUEL,
        )
        .unwrap();
    match out {
        Value::Str(s) => assert_eq!(s, "turn -42!"),
        other => panic!("expected a string, got {other:?}"),
    }
    // A formatting mismatch is the formatter's own error.
    let err = es
        .eval_binary_op(Value::Str(String::from("%s %s")), BinaryOp::Mod, Value::Int(1), FUEL)
        .unwrap_err();
    assert!(matches!(
        err,
        EvalError::FormatterError(evilcon_sim::strfmt::FormatterError::NotEnoughFormatArgs)
    ));
}
