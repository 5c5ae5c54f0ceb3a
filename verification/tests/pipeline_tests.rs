use std::collections::HashMap;

use lib::ast::{
    BinaryOp, Block, CallArg, Expr, ExprKind, FnDef, GenericParam, IfKind, Item, Literal, Param, Pattern,
    PrivacyTag, Program, Stmt, StructDef, StructField, Type, UnsafeKind,
};
use lib::semantic::check_program::TypeChecker;
use lib::elaborate::Elaborate;
use lib::hir::{
    EffectSet, HirBlock, HirCallArg, HirEnum, HirEnumVariant, HirExpr, HirExprKind, HirField, HirFn, HirMatchArm,
    HirModel, HirParam, HirProgram, HirStmt, HirStruct, Sensitivity, Span,
};
use lib::hir_builder::HirBuilder;
use lib::intrinsic::IntrinsicFn;
use lib::mir::{MirOperand, MirPlace, MirRvalue, MirStmt, MirTerminator, SsaLocal};
use lib::mir_builder::MirBuilder;

// ===== HIR helpers =====

fn no_fx() -> EffectSet {
    EffectSet::default()
}

fn hexpr(kind: HirExprKind, ty: Type) -> HirExpr {
    HirExpr { kind, ty, privacy_tag: None, sensitivity: Sensitivity::Unknown, effects: no_fx(), span: Span::default() }
}

fn hlit(v: i32) -> HirExpr {
    hexpr(HirExprKind::Literal(Literal::Int32(v)), Type::I32)
}

fn hident(n: &str, ty: Type) -> HirExpr {
    hexpr(HirExprKind::Ident(n.to_string()), ty)
}

fn hcall(func: &str, args: Vec<HirExpr>, ty: Type) -> HirExpr {
    hexpr(
        HirExprKind::Call {
            qualifier: None,
            func: func.to_string(),
            generic_args: vec![],
            args: args.into_iter().map(HirCallArg::Positional).collect(),
            is_method: false,
        },
        ty,
    )
}

fn hblock(stmts: Vec<HirStmt>) -> HirBlock {
    HirBlock { stmts, span: Span::default() }
}

fn sexpr(e: HirExpr) -> HirStmt {
    HirStmt::Expr { expr: e, span: Span::default() }
}

fn sret(e: Option<HirExpr>) -> HirStmt {
    HirStmt::Return { expr: e, span: Span::default() }
}

fn slet(name: &str, init: HirExpr) -> HirStmt {
    HirStmt::Let { name: name.to_string(), ty: None, init, mutable: false, persist: false, span: Span::default() }
}

fn hfn(name: &str, params: Vec<(&str, Type)>, ret: Option<Type>, body: Vec<HirStmt>) -> HirFn {
    HirFn {
        name: name.to_string(),
        generic_params: vec![],
        params: params.into_iter().map(|(n, t)| HirParam { name: n.to_string(), ty: t }).collect(),
        return_type: ret,
        body: hblock(body),
        effects: no_fx(),
        sensitivity: None,
        is_forward: false,
    }
}

fn program(fns: Vec<HirFn>) -> HirProgram {
    HirProgram {
        models: vec![],
        fns,
        structs: vec![],
        enums: vec![],
        consts: vec![],
        protos: vec![],
        impls: vec![],
        interfaces: vec![],
    }
}

fn option_enum() -> HirEnum {
    HirEnum {
        name: "Option".to_string(),
        generic_params: vec![],
        variants: vec![
            HirEnumVariant { name: "Some".to_string(), ty: Some(Type::I32) },
            HirEnumVariant { name: "None".to_string(), ty: None },
        ],
    }
}

fn ssa(base_id: usize, version: u32) -> MirPlace {
    MirPlace::Ssa(SsaLocal { base_id, version })
}

fn mir_err(p: HirProgram) -> String {
    match MirBuilder::build(&p) {
        Err(m) => m,
        Ok(_) => panic!("lowering was expected to fail"),
    }
}

// ===== building the HIR =====

fn aexpr(id: usize, kind: ExprKind) -> Expr {
    Expr { id, kind }
}

#[test]
fn hir_takes_recorded_types_and_i32_otherwise() {
    let body = Block {
        stmts: vec![Stmt::Return(Some(aexpr(
            3,
            ExprKind::BinaryOp {
                op: BinaryOp::Add,
                left: Box::new(aexpr(1, ExprKind::Ident("x".to_string()))),
                right: Box::new(aexpr(2, ExprKind::Literal(Literal::Int32(1)))),
            },
        )))],
    };
    let p = Program {
        items: vec![
            Item::StructDef(StructDef {
                name: "P".to_string(),
                generic_params: vec![],
                fields: vec![StructField { name: "x".to_string(), ty: Type::I64 }],
            }),
            Item::FnDef(FnDef {
                attributes: vec![],
                name: "inc".to_string(),
                generic_params: vec![],
                params: vec![Param { name: "x".to_string(), ty: Type::I64 }],
                return_type: Some(Type::I64),
                body,
            }),
        ],
    };
    let mut types: HashMap<usize, Type> = HashMap::new();
    types.insert(1, Type::Privacy(Box::new(Type::I64), PrivacyTag::Private));
    types.insert(3, Type::I64);
    let h = HirBuilder::build(&p, &types).unwrap();
    assert_eq!(h.structs.len(), 1);
    assert_eq!(h.structs[0].fields[0].name, "x");
    assert_eq!(h.fns.len(), 1);
    assert!(!h.fns[0].is_forward);
    match &h.fns[0].body.stmts[0] {
        HirStmt::Return { expr: Some(e), .. } => {
            assert_eq!(e.ty, Type::I64);
            match &e.kind {
                HirExprKind::BinaryOp { left, right, .. } => {
                    assert_eq!(left.privacy_tag, Some(PrivacyTag::Private));
                    assert_eq!(right.ty, Type::I32);
                },
                _ => panic!("a binary operation was expected"),
            }
        },
        _ => panic!("a return was expected"),
    }
}

#[test]
fn generic_names_agree_with_the_hir() {
    let ps = vec![
        GenericParam::Type { name: "K".to_string(), bounds: vec!["Ord".to_string()] },
        GenericParam::Type { name: "V".to_string(), bounds: vec![] },
    ];
    let p = Program {
        items: vec![Item::FnDef(FnDef {
            attributes: vec![],
            name: "pick".to_string(),
            generic_params: vec![
                GenericParam::Type { name: "K".to_string(), bounds: vec!["Ord".to_string()] },
                GenericParam::Type { name: "V".to_string(), bounds: vec![] },
            ],
            params: vec![],
            return_type: None,
            body: Block { stmts: vec![] },
        })],
    };
    let h = HirBuilder::build(&p, &HashMap::new()).unwrap();
    let from_hir: Vec<String> = h.fns[0].generic_params.iter().map(|g| g.name.clone()).collect();
    assert_eq!(TypeChecker::generic_param_names(&ps), from_hir);
    assert_eq!(from_hir, vec!["K".to_string(), "V".to_string()]);
    let built: Vec<String> = HirBuilder::build_generic_params(&ps).into_iter().map(|g| g.name).collect();
    assert_eq!(TypeChecker::generic_param_names(&ps), built);
}

#[test]
fn hir_marks_print_as_io() {
    let call = aexpr(
        0,
        ExprKind::Call {
            qualifier: None,
            func: "print".to_string(),
            args: vec![CallArg::Positional(aexpr(1, ExprKind::Literal(Literal::String("hi".to_string()))))],
            is_method: false,
        },
    );
    let p = Program {
        items: vec![Item::FnDef(FnDef {
            attributes: vec![],
            name: "main".to_string(),
            generic_params: vec![],
            params: vec![],
            return_type: None,
            body: Block { stmts: vec![Stmt::ExprStmt(call)] },
        })],
    };
    let h = HirBuilder::build(&p, &HashMap::new()).unwrap();
    assert!(h.fns[0].effects.has_io);
}

// ===== elaboration =====

#[test]
fn try_outside_result_or_option_is_refused() {
    let f = hfn("f", vec![("x", Type::I32)], Some(Type::I32), vec![sexpr(hcall("try", vec![hident("x", Type::I32)], Type::I32))]);
    let r = Elaborate::elaborate(program(vec![f]));
    assert_eq!(
        r.err(),
        Some(
            "`?` cannot be used in a function that returns Some(I32); only functions returning `Result<T, E>` or `Option<T>` support `?`"
                .to_string()
        )
    );
}

#[test]
fn try_in_a_result_function_becomes_a_match() {
    let result_ty = Type::Generic("Result".to_string(), vec![Type::I32, Type::Str]);
    let f = hfn(
        "f",
        vec![("x", result_ty.duplicate())],
        Some(result_ty.duplicate()),
        vec![sexpr(hcall("try", vec![hident("x", result_ty.duplicate())], Type::I32))],
    );
    let p = Elaborate::elaborate(program(vec![f])).unwrap();
    match &p.fns[0].body.stmts[0] {
        HirStmt::Expr { expr, .. } => {
            assert_eq!(expr.privacy_tag, None);
            assert_eq!(expr.ty, Type::I32);
            match &expr.kind {
                HirExprKind::Match { arms, .. } => {
                    assert_eq!(arms.len(), 2);
                    assert!(matches!(&arms[1].pattern, Pattern::EnumVariantWithBinding { binding, .. } if binding == "__elab_1"));
                    assert_eq!(arms[1].expr.ty, Type::Never);
                    // Err(e) => { return Result::Err(e.into()); }
                    match &arms[1].expr.kind {
                        HirExprKind::Block(b) => match &b.stmts[..] {
                            [HirStmt::Return { expr: Some(v), .. }] => {
                                assert_eq!(v.ty, Type::Generic("Result".to_string(), vec![Type::I32, Type::Str]));
                                match &v.kind {
                                    HirExprKind::Call { qualifier: Some(q), func, args, is_method: false, .. } => {
                                        assert_eq!(q, "Result");
                                        assert_eq!(func, "Err");
                                        match &args[..] {
                                            [HirCallArg::Positional(c)] => match &c.kind {
                                                HirExprKind::Call { func, args, is_method: true, .. } => {
                                                    assert_eq!(func, "into");
                                                    assert!(matches!(&args[..], [HirCallArg::Positional(x)] if matches!(&x.kind, HirExprKind::Ident(n) if n == "__elab_1")));
                                                },
                                                _ => panic!("an `into` call was expected"),
                                            },
                                            _ => panic!("one argument was expected"),
                                        }
                                    },
                                    _ => panic!("`Result::Err` was expected"),
                                }
                            },
                            _ => panic!("a single return was expected"),
                        },
                        _ => panic!("a block was expected"),
                    }
                },
                _ => panic!("a match was expected"),
            }
        },
        _ => panic!("an expression statement was expected"),
    }
}

#[test]
fn for_becomes_a_loop_over_next() {
    let vec_ty = Type::Generic("Vec".to_string(), vec![Type::I32]);
    let for_stmt = HirStmt::For {
        var: "v".to_string(),
        iterable: hident("xs", vec_ty.duplicate()),
        body: hblock(vec![]),
        span: Span::default(),
    };
    let f = hfn("f", vec![("xs", vec_ty)], None, vec![for_stmt]);
    let p = Elaborate::elaborate(program(vec![f])).unwrap();
    match &p.fns[0].body.stmts[0] {
        HirStmt::Expr { expr, .. } => match &expr.kind {
            HirExprKind::Block(b) => {
                assert_eq!(b.stmts.len(), 3);
                match &b.stmts[0] {
                    HirStmt::Let { name, mutable, .. } => {
                        assert_eq!(name, "__elab_0");
                        assert!(*mutable);
                    },
                    _ => panic!("a let was expected"),
                }
                assert!(matches!(b.stmts[1], HirStmt::Loop { .. }));
                match &b.stmts[2] {
                    HirStmt::Expr { expr, .. } => {
                        assert!(matches!(expr.kind, HirExprKind::Literal(Literal::Unit)));
                        assert_eq!(expr.ty, Type::Unit);
                    },
                    _ => panic!("the unit value was expected"),
                }
            },
            _ => panic!("a block was expected"),
        },
        _ => panic!("an expression statement was expected"),
    }
}

/// Whether a `for` or a `?` call is left anywhere in the statements.
fn sugar_left(stmts: &[HirStmt]) -> bool {
    stmts.iter().any(|s| match s {
        HirStmt::For { .. } => true,
        HirStmt::Let { init, .. } => sugar_left_in(init),
        HirStmt::Expr { expr, .. } => sugar_left_in(expr),
        HirStmt::Return { expr, .. } => expr.as_ref().map_or(false, sugar_left_in),
        HirStmt::While { cond, body, .. } => sugar_left_in(cond) || sugar_left(&body.stmts),
        HirStmt::Assign { target, expr, .. } => sugar_left_in(target) || sugar_left_in(expr),
        HirStmt::Loop { body, .. } => sugar_left(&body.stmts),
        _ => false,
    })
}

fn sugar_left_in(e: &HirExpr) -> bool {
    let arg = |a: &HirCallArg| match a {
        HirCallArg::Positional(x) => sugar_left_in(x),
        HirCallArg::Named(_, x) => sugar_left_in(x),
    };
    match &e.kind {
        HirExprKind::Call { qualifier: None, func, is_method: false, .. } if func == "try" => true,
        HirExprKind::Call { args, .. } => args.iter().any(arg),
        HirExprKind::EnumVariantConstruction { args, .. } => args.iter().any(arg),
        HirExprKind::Block(b) => sugar_left(&b.stmts),
        HirExprKind::UnsafeBlock { body, .. } => sugar_left(&body.stmts),
        HirExprKind::Match { cond, arms } => sugar_left_in(cond) || arms.iter().any(|a| sugar_left_in(&a.expr)),
        HirExprKind::If { cond, then_expr, else_expr, .. } => {
            sugar_left_in(cond) || sugar_left_in(then_expr) || else_expr.as_ref().map_or(false, |x| sugar_left_in(x))
        },
        HirExprKind::BinaryOp { left, right, .. } => sugar_left_in(left) || sugar_left_in(right),
        HirExprKind::Unary { expr, .. } => sugar_left_in(expr),
        HirExprKind::Cast { expr, .. } => sugar_left_in(expr),
        _ => false,
    }
}

#[test]
fn nested_for_and_try_are_expanded_too() {
    let vec_ty = Type::Generic("Vec".to_string(), vec![Type::I32]);
    let opt_ty = Type::Generic("Option".to_string(), vec![Type::I32]);
    let opt_opt_ty = Type::Generic("Option".to_string(), vec![opt_ty.duplicate()]);
    let inner_for = HirStmt::For {
        var: "w".to_string(),
        iterable: hident("xs", vec_ty.duplicate()),
        body: hblock(vec![sexpr(hcall("try", vec![hident("y", opt_ty.duplicate())], Type::I32))]),
        span: Span::default(),
    };
    let outer_for = HirStmt::For {
        var: "v".to_string(),
        iterable: hident("xs", vec_ty.duplicate()),
        body: hblock(vec![inner_for]),
        span: Span::default(),
    };
    let nested_try = hcall("try", vec![hcall("try", vec![hident("z", opt_opt_ty.duplicate())], opt_ty.duplicate())], Type::I32);
    let f = hfn(
        "f",
        vec![("xs", vec_ty), ("y", opt_ty.duplicate()), ("z", opt_opt_ty)],
        Some(opt_ty),
        vec![outer_for, sexpr(nested_try)],
    );
    let before = program(vec![f]);
    assert!(sugar_left(&before.fns[0].body.stmts));
    let p = Elaborate::elaborate(before).unwrap();
    assert!(!sugar_left(&p.fns[0].body.stmts));
    // the outer `?` matches on the value that the inner one gives
    match &p.fns[0].body.stmts[1] {
        HirStmt::Expr { expr, .. } => match &expr.kind {
            HirExprKind::Match { cond, .. } => assert!(matches!(cond.kind, HirExprKind::Match { .. })),
            _ => panic!("a match was expected"),
        },
        _ => panic!("an expression statement was expected"),
    }
}

// ===== MIR lowering =====

#[test]
fn mir_returns_the_last_value_of_the_body() {
    let f = hfn("one", vec![], Some(Type::I32), vec![sexpr(hlit(1))]);
    let p = MirBuilder::build(&program(vec![f])).unwrap();
    assert!(matches!(
        p.fns[0].body.blocks[0].terminator,
        MirTerminator::Return(Some(MirOperand::Constant(Literal::Int32(1))))
    ));
    let g = hfn("stop", vec![], Some(Type::Never), vec![sexpr(hlit(1))]);
    let p = MirBuilder::build(&program(vec![g])).unwrap();
    assert!(matches!(p.fns[0].body.blocks[0].terminator, MirTerminator::Unreachable));
}

#[test]
fn mir_returns_the_value_of_a_variable_or_a_computed_tail() {
    let f = hfn("id", vec![("x", Type::I32)], Some(Type::I32), vec![sexpr(hident("x", Type::I32))]);
    let p = MirBuilder::build(&program(vec![f])).unwrap();
    assert_eq!(p.fns[0].body.blocks.len(), 1);
    assert!(matches!(
        p.fns[0].body.blocks[0].terminator,
        MirTerminator::Return(Some(MirOperand::Move(MirPlace::Ssa(SsaLocal { base_id: 0, version: 0 }))))
    ));
    let sum = hexpr(
        HirExprKind::BinaryOp { op: BinaryOp::Add, left: Box::new(hident("x", Type::I32)), right: Box::new(hlit(1)) },
        Type::I32,
    );
    let g = hfn("inc", vec![("x", Type::I32)], Some(Type::I32), vec![slet("y", hlit(2)), sexpr(sum)]);
    let p = MirBuilder::build(&program(vec![g])).unwrap();
    let b0 = &p.fns[0].body.blocks[0];
    let dest = b0
        .stmts
        .iter()
        .find_map(|s| match s {
            MirStmt::Assign { dest: MirPlace::Ssa(d), value: MirRvalue::BinaryOp(BinaryOp::Add, _, _) } => Some(*d),
            _ => None,
        })
        .expect("the sum is computed in the entry block");
    assert!(matches!(b0.terminator, MirTerminator::Return(Some(MirOperand::Move(MirPlace::Ssa(d)))) if d == dest));
}

#[test]
fn mir_expression_statements_stay_in_the_block() {
    let f = hfn(
        "f",
        vec![],
        None,
        vec![sexpr(hcall("print", vec![hlit(7)], Type::Unit)), sret(None)],
    );
    let p = MirBuilder::build(&program(vec![f])).unwrap();
    assert!(matches!(
        &p.fns[0].body.blocks[0].stmts[0],
        MirStmt::ExprStmt(MirRvalue::Call { is_intrinsic: true, intrinsic_name: Some(IntrinsicFn::Print), args, .. })
            if matches!(args.as_slice(), [MirOperand::Constant(Literal::Int32(7))])
    ));
}

#[test]
fn mir_binary_operands_keep_their_order() {
    let diff = hexpr(
        HirExprKind::BinaryOp { op: BinaryOp::Sub, left: Box::new(hlit(5)), right: Box::new(hident("x", Type::I32)) },
        Type::I32,
    );
    let f = hfn("f", vec![("x", Type::I32)], Some(Type::I32), vec![sret(Some(diff))]);
    let p = MirBuilder::build(&program(vec![f])).unwrap();
    assert!(matches!(
        &p.fns[0].body.blocks[0].stmts[0],
        MirStmt::Assign {
            value: MirRvalue::BinaryOp(BinaryOp::Sub, MirOperand::Constant(Literal::Int32(5)), MirOperand::Move(MirPlace::Ssa(SsaLocal { base_id: 0, .. }))),
            ..
        }
    ));
}

#[test]
fn mir_variant_calls_keep_their_generic_arguments() {
    let mut call = hcall("Some", vec![hlit(5)], Type::Enum("Option".to_string()));
    if let HirExprKind::Call { generic_args, .. } = &mut call.kind {
        generic_args.push(Type::I32);
    }
    let f = hfn("f", vec![], None, vec![sexpr(call), sret(None)]);
    let mut prog = program(vec![f]);
    prog.enums.push(option_enum());
    let p = MirBuilder::build(&prog).unwrap();
    match &p.fns[0].body.blocks[0].stmts[0] {
        MirStmt::ExprStmt(MirRvalue::EnumVariantConstruction { generic_args, args, .. }) => {
            assert_eq!(generic_args, &vec![Type::I32]);
            assert!(matches!(args.as_slice(), [MirOperand::Constant(Literal::Int32(5))]));
        },
        other => panic!("a construction was expected, not {:?}", other),
    }
}

#[test]
fn mir_of_a_return_of_a_sum() {
    let sum = hexpr(
        HirExprKind::BinaryOp { op: BinaryOp::Add, left: Box::new(hident("x", Type::I32)), right: Box::new(hlit(1)) },
        Type::I32,
    );
    let f = hfn("inc", vec![("x", Type::I32)], Some(Type::I32), vec![sret(Some(sum))]);
    let p = MirBuilder::build(&program(vec![f])).unwrap();
    assert_eq!(p.fns.len(), 1);
    let body = &p.fns[0].body;
    assert_eq!(body.locals.len(), 2);
    assert!(body.locals[0].is_param);
    assert_eq!(body.locals[0].name, Some("x".to_string()));
    assert_eq!(body.locals[1].id, 1);
    assert!(body.locals[1].name.is_none());
    assert_eq!(body.blocks.len(), 2);
    match &body.blocks[0].stmts[0] {
        MirStmt::Assign { dest, value: MirRvalue::BinaryOp(BinaryOp::Add, MirOperand::Move(l), MirOperand::Constant(Literal::Int32(1))) } => {
            assert!(matches!(dest, MirPlace::Ssa(SsaLocal { base_id: 1, version: 1 })));
            assert!(matches!(l, MirPlace::Ssa(SsaLocal { base_id: 0, version: 0 })));
        },
        other => panic!("unexpected statement {:?}", other),
    }
    assert!(matches!(
        body.blocks[0].terminator,
        MirTerminator::Return(Some(MirOperand::Move(MirPlace::Ssa(SsaLocal { base_id: 1, version: 1 }))))
    ));
    assert!(matches!(body.blocks[1].terminator, MirTerminator::Return(None)));
    for (i, b) in body.blocks.iter().enumerate() {
        assert_eq!(b.id, i);
    }
}

#[test]
fn mir_falls_off_the_end_with_the_last_value_or_unreachable_for_never() {
    let f = hfn("g", vec![], Some(Type::Never), vec![sexpr(hcall("panic", vec![], Type::Never))]);
    let p = MirBuilder::build(&program(vec![f])).unwrap();
    let body = &p.fns[0].body;
    assert!(matches!(body.blocks[0].terminator, MirTerminator::Unreachable));
    assert_eq!(p.intrinsics_used, vec![IntrinsicFn::Panic]);
}

#[test]
fn mir_reports_undefined_variables() {
    let f = hfn("f", vec![], None, vec![sexpr(hident("y", Type::I32))]);
    assert_eq!(mir_err(program(vec![f])), "undefined variable `y`");
}

#[test]
fn mir_refuses_break_for_closures_and_ranges() {
    let f = hfn("f", vec![], None, vec![HirStmt::Loop { body: hblock(vec![HirStmt::Break { span: Span::default() }]), span: Span::default() }]);
    assert_eq!(mir_err(program(vec![f])), "MIR lowering for Break: 循环栈还没接上，下一轮跟 Continue 一起做");
    let g = hfn(
        "g",
        vec![],
        None,
        vec![HirStmt::For { var: "i".to_string(), iterable: hlit(0), body: hblock(vec![]), span: Span::default() }],
    );
    assert_eq!(
        mir_err(program(vec![g])),
        "HirStmt::For 不该走到 mir_builder 这一层——应由 elaborate.rs 先展开成 while，但 elaborate.rs 目前还是空实现"
    );
    let c = hexpr(HirExprKind::Closure { param: "a".to_string(), body: Box::new(hlit(1)) }, Type::Unit);
    let h = hfn("h", vec![], None, vec![sexpr(c)]);
    assert_eq!(mir_err(program(vec![h])), "MIR lowering for Closure: 捕获变量与闭包结构体生成策略还没设计");
    let r = hexpr(HirExprKind::Range { start: Box::new(hlit(0)), end: Box::new(hlit(3)) }, Type::Unit);
    let k = hfn("k", vec![], None, vec![sexpr(r)]);
    assert_eq!(
        mir_err(program(vec![k])),
        "MIR lowering for bare Range: Range 目前只应该在 for 循环展开后被消费，独立出现说明 elaborate.rs 该做的展开还没做"
    );
}

#[test]
fn mir_refuses_an_invalid_assignment_target() {
    let f = hfn(
        "f",
        vec![],
        None,
        vec![HirStmt::Assign { target: Box::new(hlit(1)), expr: hlit(2), span: Span::default() }],
    );
    assert_eq!(
        mir_err(program(vec![f])),
        "internal error: Literal is not a valid assignment target (sema.rs 的 is_assignable 应该已经拦住了这种情况，走到这里说明两边检查不一致)"
    );
}

#[test]
fn mir_assignment_draws_a_new_version() {
    let f = hfn(
        "f",
        vec![],
        None,
        vec![
            HirStmt::Let { name: "a".to_string(), ty: None, init: hlit(1), mutable: true, persist: false, span: Span::default() },
            HirStmt::Assign { target: Box::new(hident("a", Type::I32)), expr: hlit(2), span: Span::default() },
        ],
    );
    let p = MirBuilder::build(&program(vec![f])).unwrap();
    let stmts = &p.fns[0].body.blocks[0].stmts;
    assert!(matches!(&stmts[0], MirStmt::Assign { dest: MirPlace::Ssa(SsaLocal { base_id: 0, version: 1 }), .. }));
    assert!(matches!(&stmts[1], MirStmt::Assign { dest: MirPlace::Ssa(SsaLocal { base_id: 0, version: 2 }), .. }));
    assert!(matches!(&stmts[2], MirStmt::Drop { place: MirPlace::Ssa(SsaLocal { base_id: 0, version: 2 }) }));
}

#[test]
fn mir_if_joins_both_branches_in_a_phi() {
    let cond = hexpr(HirExprKind::Literal(Literal::Bool(true)), Type::Bool);
    let iff = hexpr(
        HirExprKind::If {
            kind: IfKind::Normal,
            cond: Box::new(cond),
            then_expr: Box::new(hlit(1)),
            else_expr: Some(Box::new(hlit(2))),
        },
        Type::I32,
    );
    let f = hfn("f", vec![], Some(Type::I32), vec![slet("v", iff)]);
    let p = MirBuilder::build(&program(vec![f])).unwrap();
    let body = &p.fns[0].body;
    assert_eq!(body.blocks.len(), 4);
    assert!(matches!(body.blocks[0].terminator, MirTerminator::If { then_block: 1, else_block: 2, .. }));
    assert!(matches!(body.blocks[1].terminator, MirTerminator::Goto(3)));
    assert!(matches!(body.blocks[2].terminator, MirTerminator::Goto(3)));
    match &body.blocks[3].stmts[0] {
        MirStmt::Assign { value: MirRvalue::Phi { values }, .. } => {
            assert_eq!(values.len(), 2);
            assert_eq!(values[0].0, 1);
            assert_eq!(values[1].0, 2);
        },
        other => panic!("a phi was expected, not {:?}", other),
    }
}

#[test]
fn mir_if_without_else_yields_unit() {
    let cond = hexpr(HirExprKind::Literal(Literal::Bool(true)), Type::Bool);
    let iff = hexpr(
        HirExprKind::If { kind: IfKind::Lack, cond: Box::new(cond), then_expr: Box::new(hexpr(HirExprKind::Literal(Literal::Unit), Type::Unit)), else_expr: None },
        Type::Unit,
    );
    let f = hfn("f", vec![], None, vec![sexpr(iff)]);
    let p = MirBuilder::build(&program(vec![f])).unwrap();
    match &p.fns[0].body.blocks[2].stmts[0] {
        MirStmt::Assign { value: MirRvalue::Use(MirOperand::Constant(Literal::Unit)), .. } => {},
        other => panic!("unit was expected, not {:?}", other),
    }
}

#[test]
fn mir_enum_match_switches_on_the_discriminant() {
    let opt = Type::Enum("Option".to_string());
    let m = hexpr(
        HirExprKind::Match {
            cond: Box::new(hident("o", opt.duplicate())),
            arms: vec![
                HirMatchArm {
                    pattern: Pattern::EnumVariantWithBinding {
                        enum_name: "Option".to_string(),
                        variant_name: "Some".to_string(),
                        binding: "v".to_string(),
                    },
                    expr: hident("v", Type::I32),
                },
                HirMatchArm {
                    pattern: Pattern::EnumVariant { enum_name: "Option".to_string(), variant_name: "None".to_string() },
                    expr: hlit(0),
                },
            ],
        },
        Type::I32,
    );
    let f = hfn("unwrap_or_zero", vec![("o", opt)], Some(Type::I32), vec![sret(Some(m))]);
    let mut prog = program(vec![f]);
    prog.enums.push(option_enum());
    let p = MirBuilder::build(&prog).unwrap();
    assert_eq!(p.enums.len(), 1);
    assert_eq!(p.enums[0].variants.len(), 2);
    let body = &p.fns[0].body;
    let switch = body.blocks.iter().find_map(|b| match &b.terminator {
        MirTerminator::Switch { targets, discr_ty, .. } => Some((targets.len(), matches!(discr_ty, Type::I64))),
        _ => None,
    });
    let (n, is_i64) = switch.expect("a switch was expected");
    assert_eq!(n, 2);
    assert!(is_i64);
    let reads_payload = body.blocks.iter().flat_map(|b| b.stmts.iter()).any(|s| {
        matches!(s, MirStmt::Assign { value: MirRvalue::Use(MirOperand::Move(MirPlace::EnumPayload { .. })), .. })
    });
    assert!(reads_payload);
}

#[test]
fn mir_enum_match_on_an_unknown_variant_is_refused() {
    let opt = Type::Enum("Option".to_string());
    let m = hexpr(
        HirExprKind::Match {
            cond: Box::new(hident("o", opt.duplicate())),
            arms: vec![HirMatchArm {
                pattern: Pattern::EnumVariant { enum_name: "Option".to_string(), variant_name: "Maybe".to_string() },
                expr: hlit(0),
            }],
        },
        Type::I32,
    );
    let f = hfn("f", vec![("o", opt)], Some(Type::I32), vec![sret(Some(m))]);
    let mut prog = program(vec![f]);
    prog.enums.push(option_enum());
    assert_eq!(mir_err(prog), "unknown enum variant: Option::Maybe");
}

#[test]
fn mir_struct_match_binds_fields_and_refuses_other_patterns() {
    let st = HirStruct {
        name: "P".to_string(),
        generic_params: vec![],
        fields: vec![HirField { name: "x".to_string(), ty: Type::I64 }],
    };
    let pt = Type::Struct("P".to_string());
    let good = hexpr(
        HirExprKind::Match {
            cond: Box::new(hident("p", pt.duplicate())),
            arms: vec![HirMatchArm {
                pattern: Pattern::Struct { struct_name: "P".to_string(), fields: vec![("x".to_string(), "a".to_string())] },
                expr: hident("a", Type::I64),
            }],
        },
        Type::I64,
    );
    let f = hfn("f", vec![("p", pt.duplicate())], Some(Type::I64), vec![sret(Some(good))]);
    let mut prog = program(vec![f]);
    prog.structs.push(st);
    let p = MirBuilder::build(&prog).unwrap();
    assert_eq!(p.structs[0].fields[0].0, "x");
    assert_eq!(p.structs[0].fields[0].1, Type::I64);
    let a_local = p.fns[0].body.locals.iter().find(|l| l.name == Some("a".to_string())).unwrap();
    assert_eq!(a_local.ty, Type::I64);

    let bad = hexpr(
        HirExprKind::Match {
            cond: Box::new(hident("p", pt.duplicate())),
            arms: vec![HirMatchArm { pattern: Pattern::IntLiteral(3), expr: hlit(0) }],
        },
        Type::I32,
    );
    let g = hfn("g", vec![("p", pt)], Some(Type::I32), vec![sret(Some(bad))]);
    let mut prog2 = program(vec![g]);
    prog2.structs.push(HirStruct { name: "P".to_string(), generic_params: vec![], fields: vec![] });
    assert_eq!(mir_err(prog2), "match 条件是结构体类型 `P`，但这个 arm 的模式是 IntLiteral(3)");
}

#[test]
fn mir_scalar_match_needs_a_wildcard() {
    let m = hexpr(
        HirExprKind::Match {
            cond: Box::new(hident("n", Type::U8)),
            arms: vec![HirMatchArm { pattern: Pattern::IntLiteral(300), expr: hlit(1) }],
        },
        Type::I32,
    );
    let f = hfn("f", vec![("n", Type::U8)], Some(Type::I32), vec![sret(Some(m))]);
    assert_eq!(
        mir_err(program(vec![f])),
        "match 条件是标量类型，但没有 Wildcard 兜底分支——标量字面量模式不可能自证穷尽，这应该在 sema 阶段就被拦下"
    );
}

#[test]
fn mir_scalar_match_truncates_literals_to_the_condition_type() {
    let m = hexpr(
        HirExprKind::Match {
            cond: Box::new(hident("n", Type::U8)),
            arms: vec![
                HirMatchArm { pattern: Pattern::IntLiteral(300), expr: hlit(1) },
                HirMatchArm { pattern: Pattern::Wildcard, expr: hlit(2) },
            ],
        },
        Type::I32,
    );
    let f = hfn("f", vec![("n", Type::U8)], Some(Type::I32), vec![sret(Some(m))]);
    let p = MirBuilder::build(&program(vec![f])).unwrap();
    let t = p.fns[0].body.blocks.iter().find_map(|b| match &b.terminator {
        MirTerminator::Switch { targets, .. } => Some(matches!(targets[0].0, Literal::UInt8(44))),
        _ => None,
    });
    assert_eq!(t, Some(true));
}

#[test]
fn mir_literal_pattern_on_a_non_integer_type_names_the_type() {
    let m = hexpr(
        HirExprKind::Match {
            cond: Box::new(hident("s", Type::Str)),
            arms: vec![
                HirMatchArm { pattern: Pattern::IntLiteral(1), expr: hlit(1) },
                HirMatchArm { pattern: Pattern::Wildcard, expr: hlit(2) },
            ],
        },
        Type::I32,
    );
    let f = hfn("f", vec![("s", Type::Str)], Some(Type::I32), vec![sret(Some(m))]);
    assert_eq!(
        mir_err(program(vec![f])),
        "match 条件是整数类型，但字面量模式配的类型是 Str——不是任何已知的整数类型，这本该在 sema 阶段就被拦下"
    );
}

#[test]
fn mir_bare_variants_construct_their_enum() {
    let f = hfn("f", vec![], None, vec![sexpr(hcall("Some", vec![hlit(5)], Type::Enum("Option".to_string())))]);
    let mut prog = program(vec![f]);
    prog.enums.push(option_enum());
    let p = MirBuilder::build(&prog).unwrap();
    // The construction is the body's last value: it lands in a temporary
    // that the function returns.
    match &p.fns[0].body.blocks[0].stmts[0] {
        MirStmt::Assign { value: MirRvalue::EnumVariantConstruction { enum_name, variant_name, args, .. }, .. } => {
            assert_eq!(enum_name, "Option");
            assert_eq!(variant_name, "Some");
            assert_eq!(args.len(), 1);
        },
        other => panic!("a construction was expected, not {:?}", other),
    }
}

#[test]
fn mir_built_in_constants_are_statics_and_functions_are_marked() {
    let f = hfn(
        "f",
        vec![],
        None,
        vec![
            sexpr(hcall("i128::MAX", vec![], Type::I128)),
            sexpr(hcall("relu", vec![hlit(1)], Type::I32)),
            sexpr(hcall("print", vec![hlit(1)], Type::Unit)),
            sexpr(hcall("relu", vec![hlit(2)], Type::I32)),
            sexpr(hcall("helper", vec![], Type::Unit)),
        ],
    );
    let p = MirBuilder::build(&program(vec![f])).unwrap();
    let stmts = &p.fns[0].body.blocks[0].stmts;
    assert!(matches!(&stmts[0], MirStmt::ExprStmt(MirRvalue::Use(MirOperand::Move(MirPlace::Static(n)))) if n == "i128::MAX"));
    assert!(matches!(&stmts[1], MirStmt::ExprStmt(MirRvalue::Call { is_intrinsic: true, intrinsic_name: Some(IntrinsicFn::Relu), .. })));
    assert!(matches!(&stmts[2], MirStmt::ExprStmt(MirRvalue::Call { is_intrinsic: true, intrinsic_name: Some(IntrinsicFn::Print), .. })));
    assert!(matches!(&stmts[4], MirStmt::Assign { value: MirRvalue::Call { is_intrinsic: false, intrinsic_name: None, .. }, .. }));
    assert!(matches!(&p.fns[0].body.blocks[0].terminator, MirTerminator::Return(Some(MirOperand::Move(_)))));
    assert_eq!(p.intrinsics_used, vec![IntrinsicFn::Print, IntrinsicFn::Relu]);
}

#[test]
fn mir_refuses_effects_in_forward_and_unsafe_calls_outside_unsafe() {
    let mut f = hfn("forward", vec![], None, vec![sexpr(hcall("print", vec![hlit(1)], Type::Unit))]);
    f.is_forward = true;
    let mut prog = program(vec![]);
    prog.models.push(HirModel {
        name: "M".to_string(),
        generic_params: vec![],
        fields: vec![],
        functions: vec![f],
        sensitivity: None,
        training_context_required: false,
        privacy_eps: None,
    });
    assert_eq!(mir_err(prog), "error[MD001]: side-effect `print` is not allowed in model block (forward method)");

    let g = hfn("g", vec![], None, vec![sexpr(hcall("from_utf8_unchecked", vec![hlit(1)], Type::Str))]);
    assert_eq!(
        mir_err(program(vec![g])),
        "call to unsafe intrinsic `from_utf8_unchecked` requires an `unsafe` block or `verify unsafe`"
    );

    let inside = HirStmt::UnsafeBlock {
        kind: UnsafeKind::Normal,
        body: hblock(vec![sexpr(hcall("from_utf8_unchecked", vec![hlit(1)], Type::Str))]),
        span: Span::default(),
    };
    let h = hfn("h", vec![], None, vec![inside]);
    let p = MirBuilder::build(&program(vec![h])).unwrap();
    assert!(matches!(&p.fns[0].body.blocks[0].stmts[0], MirStmt::EffectCheck { effect } if effect == "unsafe"));
    assert_eq!(p.intrinsics_used, vec![IntrinsicFn::FromUtf8Unchecked]);
}

#[test]
fn mir_method_calls_need_a_receiver() {
    let m = hexpr(
        HirExprKind::Call { qualifier: None, func: "len".to_string(), generic_args: vec![], args: vec![], is_method: true },
        Type::U64,
    );
    let f = hfn("f", vec![], None, vec![sexpr(m)]);
    assert_eq!(mir_err(program(vec![f])), "method call requires a receiver");
}

#[test]
fn mir_functions_come_in_program_order() {
    let a = hfn("a", vec![], None, vec![]);
    let b = hfn("b", vec![], None, vec![]);
    let mut prog = program(vec![a]);
    prog.models.push(HirModel {
        name: "M".to_string(),
        generic_params: vec![],
        fields: vec![],
        functions: vec![b],
        sensitivity: None,
        training_context_required: false,
        privacy_eps: None,
    });
    prog.impls.push(lib::hir::HirImplement {
        generic_params: vec![],
        target_type: Type::Struct("S".to_string()),
        interface_name: None,
        functions: vec![hfn("c", vec![], None, vec![])],
    });
    let p = MirBuilder::build(&prog).unwrap();
    let names: Vec<&str> = p.fns.iter().map(|f| f.name.as_str()).collect();
    assert_eq!(names, vec!["a", "b", "c"]);
    assert!(matches!(p.fns[0].body.blocks[0].terminator, MirTerminator::Return(None)));
}

#[test]
fn mir_assigns_every_version_once() {
    let cond = hexpr(HirExprKind::Literal(Literal::Bool(true)), Type::Bool);
    let iff = hexpr(
        HirExprKind::If {
            kind: IfKind::Normal,
            cond: Box::new(cond),
            then_expr: Box::new(hlit(1)),
            else_expr: Some(Box::new(hlit(2))),
        },
        Type::I32,
    );
    let sum = hexpr(
        HirExprKind::BinaryOp { op: BinaryOp::Add, left: Box::new(hident("x", Type::I32)), right: Box::new(hlit(1)) },
        Type::I32,
    );
    let f = hfn(
        "f",
        vec![("x", Type::I32)],
        None,
        vec![
            HirStmt::Let { name: "a".to_string(), ty: None, init: iff, mutable: true, persist: false, span: Span::default() },
            HirStmt::Assign { target: Box::new(hident("a", Type::I32)), expr: sum, span: Span::default() },
            HirStmt::Assign { target: Box::new(hident("a", Type::I32)), expr: hlit(7), span: Span::default() },
        ],
    );
    let p = MirBuilder::build(&program(vec![f])).unwrap();
    let mut seen: Vec<(usize, u32)> = Vec::new();
    for b in &p.fns[0].body.blocks {
        for s in &b.stmts {
            if let MirStmt::Assign { dest: MirPlace::Ssa(x), .. } = s {
                assert!(x.version >= 1);
                assert!(!seen.contains(&(x.base_id, x.version)));
                seen.push((x.base_id, x.version));
            }
        }
    }
    assert!(seen.len() >= 6);
}

#[test]
fn each_try_draws_fresh_names() {
    let opt_ty = Type::Generic("Option".to_string(), vec![Type::I32]);
    let f = hfn(
        "f",
        vec![("x", opt_ty.duplicate())],
        Some(opt_ty.duplicate()),
        vec![
            sexpr(hcall("try", vec![hident("x", opt_ty.duplicate())], Type::I32)),
            sexpr(hcall("try", vec![hident("x", opt_ty.duplicate())], Type::I32)),
        ],
    );
    let p = Elaborate::elaborate(program(vec![f])).unwrap();
    let mut bound: Vec<String> = Vec::new();
    for s in &p.fns[0].body.stmts {
        if let HirStmt::Expr { expr, .. } = s {
            if let HirExprKind::Match { arms, .. } = &expr.kind {
                for a in arms {
                    if let Pattern::EnumVariantWithBinding { binding, .. } = &a.pattern {
                        bound.push(binding.clone());
                    }
                }
            }
        }
    }
    assert_eq!(bound, vec!["__elab_0".to_string(), "__elab_1".to_string()]);
}

#[test]
fn mir_names_are_scoped_to_their_block() {
    // a `let` is seen by the statements after it, in its block and in nested ones
    let inner = hexpr(HirExprKind::Block(hblock(vec![sexpr(hident("x", Type::I32))])), Type::Unit);
    let ok = hfn("f", vec![], None, vec![slet("x", hlit(1)), sexpr(inner)]);
    assert!(MirBuilder::build(&program(vec![ok])).is_ok());
    // but not before it, nor outside the block that holds it
    let early = hfn("g", vec![], None, vec![sexpr(hident("x", Type::I32)), slet("x", hlit(1))]);
    assert_eq!(mir_err(program(vec![early])), "undefined variable `x`");
    let nested = hexpr(HirExprKind::Block(hblock(vec![slet("y", hlit(2))])), Type::Unit);
    let outside = hfn("h", vec![], None, vec![sexpr(nested), sexpr(hident("y", Type::I32))]);
    assert_eq!(mir_err(program(vec![outside])), "undefined variable `y`");
    // parameters are in scope in the body
    let param = hfn("k", vec![("p", Type::I32)], Some(Type::I32), vec![sret(Some(hident("p", Type::I32)))]);
    assert!(MirBuilder::build(&program(vec![param])).is_ok());
}

#[test]
fn mir_match_bindings_live_in_their_arm_only() {
    let tt = Type::Tuple(vec![Type::I32, Type::I32]);
    let m = hexpr(
        HirExprKind::Match {
            cond: Box::new(hident("t", tt.duplicate())),
            arms: vec![HirMatchArm {
                pattern: Pattern::Tuple(vec![Some("a".to_string()), None]),
                expr: hident("a", Type::I32),
            }],
        },
        Type::I32,
    );
    let f = hfn("f", vec![("t", tt.duplicate())], None, vec![sexpr(m), sexpr(hident("a", Type::I32))]);
    assert_eq!(mir_err(program(vec![f])), "undefined variable `a`");
}

#[test]
fn mir_tuple_pattern_longer_than_the_tuple_is_refused() {
    let tt = Type::Tuple(vec![Type::I32]);
    let m = hexpr(
        HirExprKind::Match {
            cond: Box::new(hident("t", tt.duplicate())),
            arms: vec![HirMatchArm {
                pattern: Pattern::Tuple(vec![None, Some("b".to_string())]),
                expr: hlit(0),
            }],
        },
        Type::I32,
    );
    let f = hfn("f", vec![("t", tt)], None, vec![sexpr(m)]);
    assert_eq!(mir_err(program(vec![f])), "tuple pattern has more bindings than the tuple type has elements");
}
