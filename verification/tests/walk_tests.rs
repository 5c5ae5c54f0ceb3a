use lib::ast::{
    Block, CallArg, EnumDef, EnumVariant, Expr, ExprKind, FnDef, GenericParam, IfKind, Literal, Param, ShapeDim,
    StructDef, StructField, Type,
};
use lib::semantic::check_program::{TypeChecker, TypeTable};
use lib::semantic::walk_spec::Passes;

fn no_passes() -> Passes {
    Passes {
        blocks: Vec::new(),
        blocks_expected: Vec::new(),
        matches: Vec::new(),
        method_calls: Vec::new(),
        qualified_calls: Vec::new(),
        cross_model_calls: Vec::new(),
    }
}

fn ex(id: usize, kind: ExprKind) -> Expr {
    Expr { id, kind }
}

fn lit(v: i32) -> Expr {
    ex(0, ExprKind::Literal(Literal::Int32(v)))
}

fn ident(n: &str) -> Expr {
    ex(0, ExprKind::Ident(n.to_string()))
}

fn pos(e: Expr) -> CallArg {
    CallArg::Positional(e)
}

fn named(n: &str, e: Expr) -> CallArg {
    CallArg::Named(n.to_string(), e)
}

fn call(func: &str, args: Vec<CallArg>) -> Expr {
    ex(1, ExprKind::Call { qualifier: None, func: func.to_string(), args, is_method: false })
}

fn tparam(n: &str) -> GenericParam {
    GenericParam::Type { name: n.to_string(), bounds: Vec::new() }
}

fn result_enum() -> EnumDef {
    EnumDef {
        name: "Result".to_string(),
        generic_params: vec![tparam("T"), tparam("E")],
        variants: vec![
            EnumVariant { name: "Ok".to_string(), ty: Some(Type::TypeParam("T".to_string())) },
            EnumVariant { name: "Err".to_string(), ty: Some(Type::TypeParam("E".to_string())) },
        ],
    }
}

fn wide_enum() -> EnumDef {
    EnumDef {
        name: "Wide".to_string(),
        generic_params: Vec::new(),
        variants: vec![
            EnumVariant { name: "Big".to_string(), ty: Some(Type::I128) },
            EnumVariant { name: "Empty".to_string(), ty: None },
        ],
    }
}

fn rational_struct() -> StructDef {
    StructDef {
        name: "Rational".to_string(),
        generic_params: Vec::new(),
        fields: vec![
            StructField { name: "num".to_string(), ty: Type::I128 },
            StructField { name: "den".to_string(), ty: Type::I128 },
        ],
    }
}

fn tensor(dims: Vec<ShapeDim>) -> Type {
    Type::Tensor { dtype: Box::new(Type::F32), shape: dims }
}

fn consts(ds: &[usize]) -> Vec<ShapeDim> {
    ds.iter().map(|d| ShapeDim::Const(*d)).collect()
}

/// A checker with `x` of type `t` in its one scope.
fn with_x(t: Type) -> TypeChecker {
    let mut tc = TypeChecker::new();
    let mut s = TypeTable::new();
    s.insert("x".to_string(), t);
    tc.scopes.push(s);
    tc
}

fn evc(id: usize, e: &str, v: &str, args: Vec<CallArg>) -> Expr {
    ex(
        id,
        ExprKind::EnumVariantConstruction { enum_name: e.to_string(), variant_name: v.to_string(), args },
    )
}

// ===== literals and names =====

#[test]
fn walk_literals_and_names() {
    let p = no_passes();
    let mut tc = with_x(Type::I64);
    assert_eq!(tc.check_expr(&lit(3), &p), Ok(Type::I32));
    assert_eq!(tc.check_expr(&ex(0, ExprKind::Literal(Literal::Bool(true))), &p), Ok(Type::Bool));
    assert_eq!(tc.check_expr(&ident("x"), &p), Ok(Type::I64));
    assert_eq!(
        tc.check_expr(&ident("y"), &p),
        Err("undefined variable or constant: y".to_string())
    );
}

#[test]
fn walk_records_expression_types() {
    let p = no_passes();
    let mut tc = with_x(Type::Bool);
    let e = ex(42, ExprKind::Ident("x".to_string()));
    assert_eq!(tc.check_expr(&e, &p), Ok(Type::Bool));
    assert_eq!(tc.expr_types.last(), Some(&(42, Type::Bool)));
}

// ===== struct initialisation =====

#[test]
fn struct_field_literals_give_way_to_declared_type() {
    let p = no_passes();
    let mut tc = TypeChecker::new();
    tc.structs.push(rational_struct());
    let fields = vec![("num".to_string(), lit(1)), ("den".to_string(), lit(2))];
    assert_eq!(tc.check_struct_init("Rational", &fields, None, &p), Ok(Type::Struct("Rational".to_string())));
}

#[test]
fn struct_init_errors() {
    let p = no_passes();
    let mut tc = TypeChecker::new();
    tc.structs.push(rational_struct());
    let wrong = vec![
        ("num".to_string(), ex(0, ExprKind::Literal(Literal::Bool(true)))),
        ("den".to_string(), lit(2)),
    ];
    assert_eq!(
        tc.check_struct_init("Rational", &wrong, None, &p),
        Err("field 'num' type mismatch: expected I128, got Bool".to_string())
    );
    let short = vec![("num".to_string(), lit(1))];
    assert_eq!(
        tc.check_struct_init("Rational", &short, None, &p),
        Err("struct Rational expects 2 fields, got 1".to_string())
    );
    let unknown = vec![("num".to_string(), lit(1)), ("size".to_string(), lit(2))];
    assert_eq!(
        tc.check_struct_init("Rational", &unknown, None, &p),
        Err("unknown field 'size' in struct Rational".to_string())
    );
    assert_eq!(
        tc.check_struct_init("Point", &short, None, &p),
        Err("undefined struct: Point".to_string())
    );
}

// ===== enum variants =====

#[test]
fn variant_payload_literal_gives_way() {
    let p = no_passes();
    let mut tc = TypeChecker::new();
    tc.enums.push(wide_enum());
    let e = evc(5, "Wide", "Big", vec![pos(lit(7))]);
    assert_eq!(tc.check_expr(&e, &p), Ok(Type::Enum("Wide".to_string())));
    let empty = evc(5, "Wide", "Empty", Vec::new());
    assert_eq!(tc.check_expr(&empty, &p), Ok(Type::Enum("Wide".to_string())));
}

#[test]
fn variant_construction_errors() {
    let p = no_passes();
    let mut tc = TypeChecker::new();
    tc.enums.push(wide_enum());
    assert_eq!(
        tc.check_enum_variant_construction(5, "Wide", "Big", &Vec::new(), None, &p),
        Err("variant expects 1 argument".to_string())
    );
    assert_eq!(
        tc.check_enum_variant_construction(5, "Wide", "Empty", &vec![pos(lit(1))], None, &p),
        Err("variant takes no arguments".to_string())
    );
    assert_eq!(
        tc.check_enum_variant_construction(5, "Wide", "Small", &Vec::new(), None, &p),
        Err("enum Wide has no variant Small".to_string())
    );
    assert_eq!(
        tc.check_enum_variant_construction(5, "Narrow", "Small", &Vec::new(), None, &p),
        Err("undefined enum: Narrow".to_string())
    );
}

#[test]
fn annotation_presets_generic_bindings() {
    let p = no_passes();
    let mut tc = TypeChecker::new();
    tc.enums.push(result_enum());
    let e = evc(3, "Result", "Ok", vec![pos(lit(1))]);
    let annotated = Type::Generic("Result".to_string(), vec![Type::I32, Type::I32]);
    assert_eq!(tc.check_expr_with_expected(&e, Some(&annotated), &p), Ok(annotated));
    assert_eq!(
        tc.check_expr(&e, &p),
        Ok(Type::Generic("Result".to_string(), vec![Type::I32, Type::TypeParam("E".to_string())]))
    );
}

#[test]
fn bare_variant_call_takes_annotation() {
    let p = no_passes();
    let mut tc = TypeChecker::new();
    tc.enums.push(result_enum());
    let e = call("Ok", vec![pos(lit(1))]);
    let annotated = Type::Generic("Result".to_string(), vec![Type::I32, Type::Unit]);
    assert_eq!(tc.check_expr_with_expected(&e, Some(&annotated), &p), Ok(annotated));
}

#[test]
fn qualified_static_call_falls_back_to_methods() {
    let mut p = no_passes();
    p.qualified_calls.push((9, Ok(Type::I128)));
    let mut tc = TypeChecker::new();
    tc.methods.push(("Rational".to_string(), vec!["gcd".to_string()]));
    let e = evc(9, "Rational", "gcd", vec![pos(lit(4)), pos(lit(6))]);
    assert_eq!(tc.check_expr(&e, &p), Ok(Type::I128));
}

// ===== calls =====

#[test]
fn generic_function_call_is_instantiated() {
    let p = no_passes();
    let mut tc = TypeChecker::new();
    tc.functions.push(FnDef {
        attributes: Vec::new(),
        name: "id".to_string(),
        generic_params: vec![tparam("T")],
        params: vec![Param { name: "v".to_string(), ty: Type::TypeParam("T".to_string()) }],
        return_type: Some(Type::TypeParam("T".to_string())),
        body: Block { stmts: Vec::new() },
    });
    let e = call("id", vec![pos(ex(0, ExprKind::Literal(Literal::Bool(true))))]);
    assert_eq!(tc.check_expr(&e, &p), Ok(Type::Bool));
}

#[test]
fn print_is_refused_in_a_model() {
    let p = no_passes();
    let mut tc = TypeChecker::new();
    tc.in_model = true;
    assert_eq!(
        tc.check_expr(&call("print", vec![pos(lit(1))]), &p),
        Err("error[MD001]: side-effect not allowed in model block".to_string())
    );
    tc.in_model = false;
    assert_eq!(tc.check_expr(&call("print", vec![pos(lit(1))]), &p), Ok(Type::I32));
}

#[test]
fn unknown_function_is_reported() {
    let p = no_passes();
    let mut tc = TypeChecker::new();
    assert_eq!(
        tc.check_expr(&call("frobnicate", Vec::new()), &p),
        Err("undefined function or method: frobnicate".to_string())
    );
}

// ===== tensor operators =====

#[test]
fn linear_replaces_last_dimension() {
    let p = no_passes();
    let mut tc = with_x(tensor(consts(&[2, 3])));
    let e = call("linear", vec![pos(ident("x")), named("in", lit(3)), named("out", lit(4))]);
    assert_eq!(tc.check_expr(&e, &p), Ok(tensor(consts(&[2, 4]))));
    let bad = call("linear", vec![pos(ident("x")), named("in", lit(5)), named("out", lit(4))]);
    assert_eq!(
        tc.check_expr(&bad, &p),
        Err("shape mismatch in linear: input last dim 3 does not match 'in' value 5".to_string())
    );
}

#[test]
fn conv2d_and_pooling_shapes() {
    let p = no_passes();
    let mut tc = with_x(tensor(consts(&[3, 32, 32])));
    let conv = call(
        "conv2d",
        vec![
            pos(ident("x")),
            named("in", lit(3)),
            named("out", lit(16)),
            named("kernel", lit(3)),
            named("padding", lit(1)),
        ],
    );
    assert_eq!(tc.check_expr(&conv, &p), Ok(tensor(consts(&[16, 32, 32]))));
    let pool = call("max_pool2d", vec![pos(ident("x")), named("kernel", lit(2))]);
    assert_eq!(tc.check_expr(&pool, &p), Ok(tensor(consts(&[3, 16, 16]))));
    let too_big = call(
        "max_pool2d",
        vec![pos(ident("x")), named("kernel", lit(40)), named("stride", lit(1))],
    );
    assert_eq!(tc.check_expr(&too_big, &p), Err("max_pool2d output height non-positive".to_string()));
}

#[test]
fn flatten_reshape_and_embedding() {
    let p = no_passes();
    let mut tc = with_x(tensor(consts(&[2, 3, 4])));
    assert_eq!(tc.check_expr(&call("flatten", vec![pos(ident("x"))]), &p), Ok(tensor(consts(&[24]))));
    let dims = ex(0, ExprKind::ArrayLiteral(vec![lit(6), lit(4)]));
    assert_eq!(
        tc.check_expr(&call("reshape", vec![pos(ident("x")), pos(dims)]), &p),
        Ok(tensor(consts(&[6, 4])))
    );
    let mut dynamic = with_x(tensor(vec![ShapeDim::Dyn, ShapeDim::Const(3)]));
    assert_eq!(
        dynamic.check_expr(&call("flatten", vec![pos(ident("x"))]), &p),
        Ok(tensor(vec![ShapeDim::Dyn, ShapeDim::Const(3)]))
    );
    let mut ids = with_x(Type::Tensor { dtype: Box::new(Type::I64), shape: consts(&[8]) });
    let emb = call(
        "embedding",
        vec![pos(ident("x")), named("num_embeddings", lit(100)), named("embedding_dim", lit(16))],
    );
    assert_eq!(ids.check_expr(&emb, &p), Ok(tensor(consts(&[8, 16]))));
}

// ===== arrays, ifs and blocks =====

#[test]
fn array_literal_of_constants() {
    let p = no_passes();
    let mut tc = TypeChecker::new();
    let e = ex(0, ExprKind::ArrayLiteral(vec![lit(1), lit(2), lit(3)]));
    assert_eq!(tc.check_expr(&e, &p), Ok(Type::ConstIntArray(vec![1, 2, 3])));
    let empty = ex(0, ExprKind::ArrayLiteral(Vec::new()));
    assert_eq!(tc.check_expr(&empty, &p), Err("array literal cannot be empty".to_string()));
}

#[test]
fn if_needs_bool_condition_and_else() {
    let p = no_passes();
    let mut tc = TypeChecker::new();
    let t = Box::new(ex(0, ExprKind::Literal(Literal::Bool(true))));
    let good = ex(
        0,
        ExprKind::If {
            kind: IfKind::Normal,
            cond: t,
            then_expr: Box::new(lit(1)),
            else_expr: Some(Box::new(lit(2))),
        },
    );
    assert_eq!(tc.check_expr(&good, &p), Ok(Type::I32));
    let bad = ex(
        0,
        ExprKind::If {
            kind: IfKind::Normal,
            cond: Box::new(lit(1)),
            then_expr: Box::new(lit(1)),
            else_expr: Some(Box::new(lit(2))),
        },
    );
    assert_eq!(tc.check_expr(&bad, &p), Err("if condition must be bool".to_string()));
}

#[test]
fn block_takes_the_block_pass_result() {
    let mut p = no_passes();
    p.blocks.push((7, Ok(Type::Bool)));
    let mut tc = TypeChecker::new();
    let e = ex(7, ExprKind::Block(Block { stmts: Vec::new() }));
    assert_eq!(tc.check_expr(&e, &p), Ok(Type::Bool));
}

// ===== functions =====

fn answer_fn() -> FnDef {
    FnDef {
        attributes: Vec::new(),
        name: "answer".to_string(),
        generic_params: Vec::new(),
        params: vec![Param { name: "a".to_string(), ty: Type::I32 }],
        return_type: Some(Type::I32),
        body: Block { stmts: Vec::new() },
    }
}

#[test]
fn check_func_accepts_matching_body() {
    let mut tc = TypeChecker::new();
    assert_eq!(tc.check_func(&answer_fn(), Ok(Type::I32), Ok(())), Ok(()));
    assert!(tc.fn_stack.is_empty());
    assert!(tc.scopes.is_empty());
}

#[test]
fn check_func_reports_return_mismatch_and_recursion() {
    let mut tc = TypeChecker::new();
    assert_eq!(
        tc.check_func(&answer_fn(), Ok(Type::I64), Ok(())),
        Err("expected return type I32, got I64".to_string())
    );
    let mut again = TypeChecker::new();
    again.fn_stack.push("answer".to_string());
    assert_eq!(
        again.check_func(&answer_fn(), Ok(Type::I32), Ok(())),
        Err("error[MD002]: recursion not allowed in model block; graph must be topologically sortable".to_string())
    );
}

#[test]
fn annotation_fixes_payloadless_variant() {
    let p = no_passes();
    let mut tc = TypeChecker::new();
    tc.enums.push(EnumDef {
        name: "Maybe".to_string(),
        generic_params: vec![tparam("T")],
        variants: vec![
            EnumVariant { name: "Nothing".to_string(), ty: None },
            EnumVariant { name: "Just".to_string(), ty: Some(Type::TypeParam("T".to_string())) },
        ],
    });
    let e = evc(4, "Maybe", "Nothing", Vec::new());
    let annotated = Type::Generic("Maybe".to_string(), vec![Type::Bool]);
    assert_eq!(tc.check_expr_with_expected(&e, Some(&annotated), &p), Ok(annotated));
    assert_eq!(
        tc.check_expr(&e, &p),
        Ok(Type::Generic("Maybe".to_string(), vec![Type::TypeParam("T".to_string())]))
    );
}

#[test]
fn literal_takes_expected_numeric_type() {
    let p = no_passes();
    let mut tc = TypeChecker::new();
    assert_eq!(tc.check_expr_with_expected(&lit(1), Some(&Type::U64), &p), Ok(Type::U64));
    assert_eq!(tc.check_expr_with_expected(&lit(1), Some(&Type::Bool), &p), Ok(Type::I32));
    assert_eq!(tc.check_expr_with_expected(&lit(1), None, &p), Ok(Type::I32));
}

#[test]
fn undefined_enum_without_method() {
    let p = no_passes();
    let mut tc = TypeChecker::new();
    tc.methods.push(("Rational".to_string(), vec!["gcd".to_string()]));
    let e = evc(9, "Rational", "lcm", Vec::new());
    assert_eq!(tc.check_expr(&e, &p), Err("undefined enum: Rational".to_string()));
}
