use lib::ast::{BinaryOp, CallArg, Expr, ExprKind, GenericParam, Literal, PrivacyTag, ShapeDim, Type, UnaryOp};
use lib::semantic::check_program::{TypeChecker, TypeTable};

fn lit(v: i32) -> Expr {
    Expr { id: 0, kind: ExprKind::Literal(Literal::Int32(v)) }
}

fn ident(n: &str) -> Expr {
    Expr { id: 0, kind: ExprKind::Ident(n.to_string()) }
}

fn dp(eps: &str, delta: Option<&str>) -> PrivacyTag {
    PrivacyTag::Differential { eps: eps.to_string(), delta: delta.map(|d| d.to_string()) }
}

fn private(t: Type) -> Type {
    Type::Privacy(Box::new(t), PrivacyTag::Private)
}

// ===== rational numbers =====

#[test]
fn parse_rational_forms() {
    assert_eq!(TypeChecker::parse_rational("3/4"), Some((3, 4)));
    assert_eq!(TypeChecker::parse_rational(" -2 "), Some((-2, 1)));
    assert_eq!(TypeChecker::parse_rational("0.50"), Some((5, 10)));
    assert_eq!(TypeChecker::parse_rational("-1.5"), Some((-15, 10)));
    assert_eq!(TypeChecker::parse_rational(".5"), Some((5, 10)));
    assert_eq!(TypeChecker::parse_rational(" 7 / 2 "), Some((7, 2)));
}

#[test]
fn parse_rational_rejects() {
    assert_eq!(TypeChecker::parse_rational("1/0"), None);
    assert_eq!(TypeChecker::parse_rational("1/2/3"), None);
    assert_eq!(TypeChecker::parse_rational("abc"), None);
    assert_eq!(TypeChecker::parse_rational("1/-2"), None);
}

#[test]
fn rational_comparisons() {
    assert!(TypeChecker::rational_le("1/2", "0.6"));
    assert!(!TypeChecker::rational_le("0.6", "1/2"));
    assert!(TypeChecker::rational_eq("1/2", "0.5"));
    assert!(!TypeChecker::rational_eq("1/2", "1/3"));
    assert_eq!(TypeChecker::rational_min("1/3", "1/2"), "1/3");
    assert_eq!(TypeChecker::rational_min("1/2", "1/3"), "1/3");
}

#[test]
fn unreadable_rationals_count_as_zero() {
    assert!(TypeChecker::rational_le("x", "1"));
    assert!(TypeChecker::rational_eq("x", "0"));
}

#[test]
fn rational_worked_examples() {
    assert!(TypeChecker::rational_le("1/3", "0.5"));
    assert!(!TypeChecker::rational_le("0.5", "1/3"));
    assert!(TypeChecker::rational_le("abc", "0"));
    assert!(!TypeChecker::rational_le("abc", "-1"));
    assert!(TypeChecker::rational_eq("1/2", "0.50"));
    assert!(TypeChecker::rational_eq("2/4", "0.5"));
    assert!(!TypeChecker::rational_eq("1/3", "0.33"));
}

#[test]
fn rational_equality_is_order_both_ways_and_min_prefers_first() {
    let xs = ["1/3", "0.25", "-2", "5/7", "2/6", "0.250"];
    for a in xs {
        for b in xs {
            let both = TypeChecker::rational_le(a, b) && TypeChecker::rational_le(b, a);
            assert_eq!(TypeChecker::rational_eq(a, b), both);
            let m = TypeChecker::rational_min(a, b);
            assert!(m == a || m == b);
            assert!(TypeChecker::rational_le(&m, a) && TypeChecker::rational_le(&m, b));
            if TypeChecker::rational_eq(a, b) {
                assert_eq!(m, a);
            }
        }
    }
}

#[test]
fn rational_order_is_reflexive_total_and_transitive() {
    let xs = ["1/3", "0.25", "-2", "5/7"];
    for a in xs {
        assert!(TypeChecker::rational_le(a, a));
        for b in xs {
            assert!(TypeChecker::rational_le(a, b) || TypeChecker::rational_le(b, a));
            assert_eq!(TypeChecker::rational_eq(a, b), TypeChecker::rational_eq(b, a));
            for c in xs {
                if TypeChecker::rational_le(a, b) && TypeChecker::rational_le(b, c) {
                    assert!(TypeChecker::rational_le(a, c));
                }
            }
        }
    }
}

// ===== privacy labels =====

#[test]
fn join_of_tags() {
    let tc = TypeChecker::new();
    assert_eq!(tc.join_privacy_tags(&PrivacyTag::Public, &PrivacyTag::Private), PrivacyTag::Private);
    assert_eq!(tc.join_privacy_tags(&dp("1", None), &PrivacyTag::Public), dp("1", None));
    assert_eq!(tc.join_privacy_tags(&dp("1", None), &PrivacyTag::Private), PrivacyTag::Private);
    assert_eq!(
        tc.join_privacy_tags(&dp("1/2", Some("0.001")), &dp("0.3", Some("0.01"))),
        dp("0.3", Some("0.01"))
    );
    assert_eq!(tc.join_privacy_tags(&dp("2", None), &dp("3", Some("1/100"))), dp("2", Some("1/100")));
}

#[test]
fn join_laws_on_examples() {
    let tc = TypeChecker::new();
    let tags = [PrivacyTag::Public, PrivacyTag::Private, dp("1/2", None), dp("0.25", Some("0.01"))];
    for a in &tags {
        assert_eq!(&tc.join_privacy_tags(&PrivacyTag::Public, a), a);
        assert_eq!(tc.join_privacy_tags(&PrivacyTag::Private, a), PrivacyTag::Private);
        assert!(tc.privacy_tags_equal(&tc.join_privacy_tags(a, a), a));
        for b in &tags {
            let ab = tc.join_privacy_tags(a, b);
            let ba = tc.join_privacy_tags(b, a);
            assert!(tc.privacy_tags_equal(&ab, &ba));
            for c in &tags {
                let l = tc.join_privacy_tags(&ab, c);
                let r = tc.join_privacy_tags(a, &tc.join_privacy_tags(b, c));
                assert!(tc.privacy_tags_equal(&l, &r));
            }
        }
    }
}

#[test]
fn tag_equality_compares_budgets_as_numbers() {
    let tc = TypeChecker::new();
    assert!(tc.privacy_tags_equal(&dp("1/2", None), &dp("0.5", None)));
    assert!(!tc.privacy_tags_equal(&dp("1/2", Some("0.1")), &dp("0.5", None)));
    assert!(!tc.privacy_tags_equal(&PrivacyTag::Public, &PrivacyTag::Private));
}

#[test]
fn labels_of_types() {
    let tc = TypeChecker::new();
    let r = Type::Ref { mutable: false, inner: Box::new(private(Type::I32)) };
    assert_eq!(tc.extract_privacy_tag(&r), Some(PrivacyTag::Private));
    assert_eq!(tc.extract_privacy_tag(&Type::I32), None);
    assert_eq!(
        tc.strip_privacy(&Type::Ref { mutable: true, inner: Box::new(private(Type::Bool)) }),
        Type::Ref { mutable: true, inner: Box::new(Type::Bool) }
    );
    assert_eq!(tc.strip_privacy(&tc.strip_privacy(&private(private(Type::U8)))), Type::U8);
    assert_eq!(tc.apply_privacy_tag(Type::I32, Some(PrivacyTag::Private)), private(Type::I32));
    assert_eq!(tc.apply_privacy_tag(Type::I32, None), Type::I32);
    assert_eq!(
        tc.join_privacy_labels(&Type::Privacy(Box::new(Type::I32), PrivacyTag::Public), &Type::I32),
        Some(PrivacyTag::Public)
    );
    assert_eq!(tc.join_privacy_labels(&Type::I32, &Type::I32), None);
}

#[test]
fn apply_then_extract_gives_the_tag() {
    let tc = TypeChecker::new();
    let t = tc.apply_privacy_tag(Type::F32, Some(dp("1", None)));
    assert_eq!(tc.extract_privacy_tag(&t), Some(dp("1", None)));
}

#[test]
fn equality_up_to_privacy() {
    let tc = TypeChecker::new();
    assert!(tc.types_equal_with_privacy(&private(Type::I32), &Type::I32));
    assert!(tc.types_equal_with_privacy(&Type::I32, &private(Type::I32)));
    assert!(!tc.types_equal_with_privacy(&private(Type::I32), &Type::Privacy(Box::new(Type::I32), PrivacyTag::Public)));
    assert!(!tc.types_equal_with_privacy(&Type::I32, &Type::I64));
}

// ===== generics =====

#[test]
fn generic_names() {
    let ps = vec![
        GenericParam::Type { name: "T".to_string(), bounds: vec![] },
        GenericParam::Type { name: "E".to_string(), bounds: vec!["Clone".to_string()] },
    ];
    assert_eq!(TypeChecker::generic_param_names(&ps), vec!["T".to_string(), "E".to_string()]);
}

#[test]
fn unify_binds_and_checks_consistency() {
    let tc = TypeChecker::new();
    let mut b = TypeTable::new();
    let expected = Type::Generic("Vec".to_string(), vec![Type::TypeParam("T".to_string())]);
    let actual = Type::Generic("Vec".to_string(), vec![Type::I32]);
    assert!(tc.unify_type(&actual, &expected, &mut b));
    assert_eq!(b.get("T"), Some(&Type::I32));
    assert!(tc.unify_type(&Type::I32, &Type::TypeParam("T".to_string()), &mut b));
    assert!(!tc.unify_type(&Type::Bool, &Type::TypeParam("T".to_string()), &mut b));
    assert!(!tc.unify_type(&Type::Generic("Option".to_string(), vec![Type::I32]), &expected, &mut b));
}

#[test]
fn unify_binds_only_parameters_of_the_declared_type() {
    let tc = TypeChecker::new();
    let mut b = TypeTable::new();
    b.insert("U".to_string(), Type::Bool);
    let expected = Type::Generic(
        "Pair".to_string(),
        vec![Type::TypeParam("T".to_string()), Type::Generic("Vec".to_string(), vec![Type::TypeParam("E".to_string())])],
    );
    let actual = Type::Generic(
        "Pair".to_string(),
        vec![Type::I64, Type::Generic("Vec".to_string(), vec![Type::Str])],
    );
    assert!(tc.unify_type(&actual, &expected, &mut b));
    assert_eq!(b.get("T"), Some(&Type::I64));
    assert_eq!(b.get("E"), Some(&Type::Str));
    assert_eq!(b.get("U"), Some(&Type::Bool));
    assert!(!b.contains_key("Pair"));
    assert!(!b.contains_key("Vec"));
    // a declared type without parameters leaves the bindings alone
    let mut c = TypeTable::new();
    c.insert("U".to_string(), Type::Bool);
    assert!(!tc.unify_type(&Type::I32, &Type::Generic("Vec".to_string(), vec![Type::I32]), &mut c));
    assert!(tc.unify_type(&Type::I32, &Type::I32, &mut c));
    assert_eq!(c.get("U"), Some(&Type::Bool));
    assert!(!c.contains_key("T"));
}

#[test]
fn unify_then_substitute_gives_the_actual_type() {
    let tc = TypeChecker::new();
    let mut b = TypeTable::new();
    let expected = Type::Ref { mutable: false, inner: Box::new(Type::Slice(Box::new(Type::TypeParam("T".to_string())))) };
    let actual = Type::Ref { mutable: false, inner: Box::new(Type::Slice(Box::new(Type::U8))) };
    assert!(tc.unify_type(&actual, &expected, &mut b));
    assert_eq!(tc.substitute_type(&expected, &b), actual);
}

#[test]
fn substitute_keeps_unbound_parameters() {
    let tc = TypeChecker::new();
    let b = TypeTable::new();
    let t = Type::Generic("Option".to_string(), vec![Type::TypeParam("T".to_string())]);
    assert_eq!(tc.substitute_type(&t, &b), t);
}

// ===== symbols =====

#[test]
fn hunt_symbol_scopes_inner_first() {
    let mut tc = TypeChecker::new();
    let mut outer = TypeTable::new();
    outer.insert("x".to_string(), Type::I32);
    let mut inner = TypeTable::new();
    inner.insert("x".to_string(), Type::Bool);
    tc.scopes.push(outer);
    tc.scopes.push(inner);
    tc.consts.insert("N".to_string(), Type::U64);
    assert_eq!(tc.hunt_symbol("x"), Ok(Type::Bool));
    assert_eq!(tc.hunt_symbol("N"), Ok(Type::U64));
    assert_eq!(tc.hunt_symbol("y"), Err("undefined variable or constant: y".to_string()));
}

#[test]
fn hunt_symbol_self() {
    let mut tc = TypeChecker::new();
    assert!(tc.hunt_symbol("self").is_err());
    tc.current_self_type = Some(Type::Struct("Point".to_string()));
    assert_eq!(tc.hunt_symbol("self"), Ok(Type::Struct("Point".to_string())));
}

// ===== helpers =====

#[test]
fn import_paths() {
    let p = TypeChecker::import_candidate_path("math", "/std");
    assert_eq!(p, "/std/xiyi-core/src/math.xiyi");
    assert_eq!(TypeChecker::import_outcome("math", p.clone(), true), Ok(p.clone()));
    assert_eq!(TypeChecker::import_outcome("math", p, false), Err("module not found: math".to_string()));
}

#[test]
fn compile_time_constants() {
    let mut tc = TypeChecker::new();
    tc.consts.insert("N".to_string(), Type::I64);
    let e = Expr { id: 0, kind: ExprKind::BinaryOp { op: BinaryOp::Add, left: Box::new(ident("N")), right: Box::new(lit(1)) } };
    assert!(tc.is_compile_time_constant(&e));
    assert!(!tc.is_compile_time_constant(&ident("x")));
    let neg = Expr { id: 0, kind: ExprKind::Unary { op: UnaryOp::Neg, expr: Box::new(lit(3)) } };
    assert!(tc.is_compile_time_constant(&neg));
    let not = Expr { id: 0, kind: ExprKind::Unary { op: UnaryOp::Not, expr: Box::new(lit(3)) } };
    assert!(!tc.is_compile_time_constant(&not));
}

#[test]
fn constant_integer_evaluation() {
    let tc = TypeChecker::new();
    let e = Expr {
        id: 0,
        kind: ExprKind::BinaryOp {
            op: BinaryOp::Div,
            left: Box::new(Expr { id: 0, kind: ExprKind::Unary { op: UnaryOp::Neg, expr: Box::new(lit(7)) } }),
            right: Box::new(lit(2)),
        },
    };
    assert_eq!(tc.eval_const_int_expr(&e), Some(-3));
    let z = Expr { id: 0, kind: ExprKind::BinaryOp { op: BinaryOp::Div, left: Box::new(lit(1)), right: Box::new(lit(0)) } };
    assert_eq!(tc.eval_const_int_expr(&z), None);
    let m = Expr { id: 0, kind: ExprKind::BinaryOp { op: BinaryOp::Mod, left: Box::new(lit(1)), right: Box::new(lit(1)) } };
    assert_eq!(tc.eval_const_int_expr(&m), None);
    assert_eq!(tc.eval_const_int_expr(&Expr { id: 0, kind: ExprKind::Literal(Literal::UInt8(200)) }), Some(200));
    assert_eq!(tc.eval_const_int_expr(&ident("x")), None);
}

#[test]
fn shape_dimensions() {
    let tc = TypeChecker::new();
    assert_eq!(tc.shape_dim_to_i64(&ShapeDim::Const(28)), Ok(28));
    assert_eq!(tc.shape_dim_to_i64(&ShapeDim::Dyn), Err("expected constant dimension".to_string()));
    assert_eq!(tc.shape_dim_to_i64(&ShapeDim::Sym("B".to_string())), Err("expected constant dimension".to_string()));
}

#[test]
fn call_arguments_by_position_or_name() {
    let tc = TypeChecker::new();
    let args = vec![CallArg::Positional(lit(1)), CallArg::Named("k".to_string(), lit(3))];
    let (e, how) = tc.get_call_arg_by_pos_or_name(&args, 0, "x").unwrap();
    assert_eq!(e, &lit(1));
    assert_eq!(how, "positional #1");
    let (e, how) = tc.get_call_arg_by_pos_or_name(&args, 1, "k").unwrap();
    assert_eq!(e, &lit(3));
    assert_eq!(how, "k");
    let (_, how) = tc.get_call_arg_by_pos_or_name(&args, 5, "k").unwrap();
    assert_eq!(how, "k");
    assert_eq!(
        tc.get_call_arg_by_pos_or_name(&args, 2, "z"),
        Err("argument 'z' not found (tried position 3 and name 'z')".to_string())
    );
}

#[test]
fn integer_arguments() {
    let tc = TypeChecker::new();
    let args = vec![
        CallArg::Named("in_features".to_string(), lit(784)),
        CallArg::Named("bias".to_string(), ident("b")),
    ];
    assert_eq!(tc.extract_int_arg(&args, "in_features"), Ok(784));
    assert_eq!(tc.extract_int_arg(&args, "bias"), Err("parameter 'bias' is not a constant integer expression".to_string()));
    assert_eq!(tc.extract_int_arg(&args, "out"), Err("parameter 'out' not found".to_string()));
}

// ===== binary operators =====

#[test]
fn arithmetic_types() {
    let tc = TypeChecker::new();
    assert_eq!(tc.check_binary_op(&BinaryOp::Add, &Type::I32, &Type::I32, &ident("a"), &ident("b")), Ok(Type::I32));
    assert_eq!(tc.check_binary_op(&BinaryOp::Mul, &Type::U128, &Type::I32, &ident("a"), &lit(2)), Ok(Type::U128));
    assert_eq!(tc.check_binary_op(&BinaryOp::Sub, &Type::I32, &Type::U64, &lit(1), &ident("b")), Ok(Type::U64));
    assert_eq!(
        tc.check_binary_op(&BinaryOp::Add, &private(Type::I32), &Type::I32, &ident("a"), &ident("b")),
        Ok(private(Type::I32))
    );
}

#[test]
fn arithmetic_errors_name_the_types() {
    let tc = TypeChecker::new();
    assert_eq!(
        tc.check_binary_op(&BinaryOp::Add, &Type::Bool, &Type::I32, &ident("a"), &ident("b")),
        Err("invalid operands for arithmetic: Bool and I32".to_string())
    );
    assert_eq!(
        tc.check_binary_op(&BinaryOp::Add, &Type::I64, &Type::I32, &ident("a"), &ident("b")),
        Err("invalid operands for arithmetic: I64 and I32".to_string())
    );
    assert_eq!(
        tc.check_binary_op(&BinaryOp::Lt, &Type::Struct("P".to_string()), &Type::I32, &ident("a"), &ident("b")),
        Err("comparison between different types: Struct(\"P\") and I32".to_string())
    );
    assert_eq!(
        tc.check_binary_op(&BinaryOp::And, &Type::Bool, &Type::I32, &ident("a"), &ident("b")),
        Err("logical operators require bool operands".to_string())
    );
}

#[test]
fn comparisons_and_logic_give_bool_with_labels() {
    let tc = TypeChecker::new();
    assert_eq!(tc.check_binary_op(&BinaryOp::Eq, &Type::Char, &Type::Char, &ident("a"), &ident("b")), Ok(Type::Bool));
    assert_eq!(
        tc.check_binary_op(&BinaryOp::Lt, &private(Type::U8), &Type::U8, &ident("a"), &ident("b")),
        Ok(private(Type::Bool))
    );
    assert_eq!(
        tc.check_binary_op(&BinaryOp::Or, &Type::Bool, &private(Type::Bool), &ident("a"), &ident("b")),
        Ok(private(Type::Bool))
    );
}

#[test]
fn numeric_types_and_equality() {
    let tc = TypeChecker::new();
    assert!(tc.is_numeric_type(&Type::F64));
    assert!(tc.is_numeric_type(&Type::U8));
    assert!(!tc.is_numeric_type(&Type::Bool));
    assert!(tc.types_equal(&Type::Generic("V".to_string(), vec![Type::I32]), &Type::Generic("V".to_string(), vec![Type::I32])));
    assert!(!tc.types_equal(&Type::I32, &private(Type::I32)));
}

#[test]
fn substitution_enters_tuples_and_arrays() {
    let tc = TypeChecker::new();
    let mut b = TypeTable::new();
    b.insert("T".to_string(), Type::I32);
    let t = tc.substitute_type(&Type::Tuple(vec![Type::TypeParam("T".to_string()), Type::Bool]), &b);
    assert_eq!(t, Type::Tuple(vec![Type::I32, Type::Bool]));
    let a = tc.substitute_type(&Type::Array(Box::new(Type::TypeParam("T".to_string())), 3), &b);
    assert_eq!(a, Type::Array(Box::new(Type::I32), 3));
}

#[test]
fn unify_then_substitute_tuple_with_unbound_variable() {
    let tc = TypeChecker::new();
    let mut b = TypeTable::new();
    let tuple = Type::Tuple(vec![Type::TypeParam("T".to_string()), Type::I32]);
    let expected = Type::Generic("Pair".to_string(), vec![tuple, Type::TypeParam("U".to_string())]);
    let actual = Type::Generic(
        "Pair".to_string(),
        vec![Type::Tuple(vec![Type::TypeParam("T".to_string()), Type::I32]), Type::Bool],
    );
    assert!(tc.unify_type(&actual, &expected, &mut b));
    assert_eq!(tc.substitute_type(&expected, &b), actual);
}
