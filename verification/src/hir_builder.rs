//! Lowering of the syntax tree to the HIR: every expression gets its type
//! (from the type checker's table, `i32` where it has none), its privacy label
//! and the effects of its parts.
use vstd::prelude::*;
use vstd::string::*;
use std::collections::HashMap;
use crate::ast::{
    Block, CallArg, ConstDef, EnumDef, Expr, ExprKind, FnDef, GenericParam, ImplementDef,
    InterfaceDef, Item, Literal, ModelDef, ModelField, Param, PrivacyTag, PrivacyTagModel, Program,
    ProtoDef, ShapeDim, Stmt, StructDef, StructField, Type, TypeModel, literal_same, opt_tag_model,
    opt_type_model, pattern_same, strs_same, duplicate_strings,
};
use crate::hir::{
    EffectSet, HirBlock, HirCallArg, HirConst, HirEnum, HirEnumVariant, HirExpr, HirExprKind, HirField,
    HirFn, HirFnSig, HirGenericParam, HirImplement, HirInterface, HirMatchArm, HirModel, HirParam,
    HirProgram, HirProto, HirProtoVariant, HirStmt, HirStruct, Sensitivity, Span, no_effects,
    union_all, union_effects,
};
use crate::elaborate::kind_tag;
use crate::text::{same_text, sorted_texts, texts, insert_sorted};

verus! {

broadcast use vstd::std_specs::hash::group_hash_axioms;

/// The position that built nodes carry.
pub open spec fn default_span() -> Span {
    Span { line: 0, column: 0 }
}

/// The type the type checker recorded for expression `id`, `i32` when none.
pub open spec fn type_for(types: Map<usize, Type>, id: usize) -> TypeModel {
    if types.dom().contains(id) {
        types[id]@
    } else {
        TypeModel::I32
    }
}

/// The privacy label at the top of a type.
pub open spec fn top_tag(t: TypeModel) -> Option<PrivacyTagModel> {
    match t {
        TypeModel::Privacy(_, tag) => Some(tag),
        _ => None,
    }
}

pub open spec fn ast_kind_tag(k: ExprKind) -> int {
    match k {
        ExprKind::Literal(_) => 0,
        ExprKind::Ident(_) => 1,
        ExprKind::Sym(_) => 2,
        ExprKind::BinaryOp { .. } => 3,
        ExprKind::Call { .. } => 4,
        ExprKind::Block(_) => 5,
        ExprKind::StructInit { .. } => 6,
        ExprKind::FieldAccess { .. } => 7,
        ExprKind::Range { .. } => 8,
        ExprKind::EnumVariantAccess { .. } => 9,
        ExprKind::EnumVariantConstruction { .. } => 10,
        ExprKind::Match(_) => 11,
        ExprKind::Closure { .. } => 12,
        ExprKind::If { .. } => 13,
        ExprKind::ArrayLiteral(_) => 14,
        ExprKind::UnsafeBlock(_) => 15,
        ExprKind::Unary { .. } => 16,
        ExprKind::Cast { .. } => 17,
        ExprKind::Index { .. } => 18,
        ExprKind::LackSlice(_) => 19,
    }
}

pub open spec fn ast_arg_expr(a: CallArg) -> Expr {
    match a {
        CallArg::Positional(e) => e,
        CallArg::Named(_, e) => e,
    }
}

pub open spec fn hir_arg_expr(a: HirCallArg) -> HirExpr {
    match a {
        HirCallArg::Positional(e) => e,
        HirCallArg::Named(_, e) => e,
    }
}

/// `e` with I/O added.
pub open spec fn with_io(e: EffectSet) -> EffectSet {
    EffectSet { has_io: true, has_rng: e.has_rng, has_ai: e.has_ai, has_ffi: e.has_ffi, has_panic: e.has_panic }
}

/// The effects of each argument of a call.
pub open spec fn ast_args_effects(args: Vec<CallArg>) -> Seq<EffectSet>
    decreases args, 1int,
{
    Seq::new(
        args@.len(),
        |i: int|
            if 0 <= i < args@.len() {
                ast_effects(ast_arg_expr(args@[i]))
            } else {
                no_effects()
            },
    )
}

/// The effects of each field of a struct literal.
pub open spec fn ast_fields_effects(fields: Vec<(String, Expr)>) -> Seq<EffectSet>
    decreases fields, 1int,
{
    Seq::new(
        fields@.len(),
        |i: int|
            if 0 <= i < fields@.len() {
                ast_effects(fields@[i].1)
            } else {
                no_effects()
            },
    )
}

/// The effects of each element of an array literal.
pub open spec fn ast_elems_effects(es: Vec<Expr>) -> Seq<EffectSet>
    decreases es, 1int,
{
    Seq::new(
        es@.len(),
        |i: int|
            if 0 <= i < es@.len() {
                ast_effects(es@[i])
            } else {
                no_effects()
            },
    )
}

/// The effects of each arm of a `match`.
pub open spec fn ast_arms_effects(arms: Vec<crate::ast::MatchArm>) -> Seq<EffectSet>
    decreases arms, 1int,
{
    Seq::new(
        arms@.len(),
        |i: int|
            if 0 <= i < arms@.len() {
                ast_effects(*arms@[i].expr)
            } else {
                no_effects()
            },
    )
}

/// The effects of each statement of a block.
pub open spec fn ast_stmts_effects(b: Block) -> Seq<EffectSet>
    decreases b, 1int,
{
    Seq::new(
        b.stmts@.len(),
        |i: int|
            if 0 <= i < b.stmts@.len() {
                ast_stmt_effects(b.stmts@[i])
            } else {
                no_effects()
            },
    )
}

/// The effects of an expression: the union of those of its parts, and I/O
/// for a call of `print`.
pub open spec fn ast_effects(e: Expr) -> EffectSet
    decreases e, 2int,
{
    match e.kind {
        ExprKind::BinaryOp { left, right, .. } => union_all(seq![ast_effects(*left), ast_effects(*right)], 2),
        ExprKind::Call { func, args, .. } => {
            let m = union_all(ast_args_effects(args), args@.len() as int);
            if func@ == "print"@ {
                with_io(m)
            } else {
                m
            }
        },
        ExprKind::Block(b) => ast_block_effects(b),
        ExprKind::StructInit { fields, .. } => union_all(ast_fields_effects(fields), fields@.len() as int),
        ExprKind::FieldAccess { struct_expr, .. } => ast_effects(*struct_expr),
        ExprKind::Range { start, end } => union_all(seq![ast_effects(*start), ast_effects(*end)], 2),
        ExprKind::EnumVariantConstruction { args, .. } => union_all(ast_args_effects(args), args@.len() as int),
        ExprKind::Match(m) => union_all(seq![ast_effects(*m.cond)] + ast_arms_effects(m.arms), m.arms@.len() + 1int),
        ExprKind::Closure { body, .. } => ast_effects(*body),
        ExprKind::If { cond, then_expr, else_expr, .. } => match else_expr {
            Some(x) => union_all(seq![ast_effects(*cond), ast_effects(*then_expr), ast_effects(*x)], 3),
            None => union_all(seq![ast_effects(*cond), ast_effects(*then_expr)], 2),
        },
        ExprKind::ArrayLiteral(es) => union_all(ast_elems_effects(es), es@.len() as int),
        ExprKind::UnsafeBlock(u) => ast_block_effects(u.body),
        ExprKind::Unary { expr, .. } => ast_effects(*expr),
        ExprKind::Cast { expr, .. } => ast_effects(*expr),
        ExprKind::Index { expr, index } => union_all(seq![ast_effects(*expr), ast_effects(*index)], 2),
        _ => no_effects(),
    }
}

/// The effects of a block: the union of those of its statements.
pub open spec fn ast_block_effects(b: Block) -> EffectSet
    decreases b, 2int,
{
    union_all(ast_stmts_effects(b), b.stmts@.len() as int)
}

/// The effects of a statement: those of its expressions and of the blocks
/// it holds.
pub open spec fn ast_stmt_effects(s: Stmt) -> EffectSet
    decreases s, 2int,
{
    match s {
        Stmt::Let(l) => ast_effects(*l.init),
        Stmt::ExprStmt(e) => ast_effects(e),
        Stmt::Return(r) => match r {
            Some(e) => ast_effects(e),
            None => no_effects(),
        },
        Stmt::While(w) => union_effects(ast_effects(*w.cond), ast_block_effects(w.body)),
        Stmt::For(f) => union_effects(ast_effects(*f.iterable), ast_block_effects(f.body)),
        Stmt::Assign(a) => union_effects(ast_effects(*a.target), ast_effects(*a.expr)),
        Stmt::Loop(l) => ast_block_effects(l.body),
        Stmt::Break(_) => no_effects(),
        Stmt::UnsafeBlock(u) => ast_block_effects(u.body),
    }
}

/// The effects of each statement of a HIR block.
pub open spec fn hir_stmts_effects(b: HirBlock) -> Seq<EffectSet>
    decreases b, 1int,
{
    Seq::new(
        b.stmts@.len(),
        |i: int|
            if 0 <= i < b.stmts@.len() {
                hir_stmt_effects(b.stmts@[i])
            } else {
                no_effects()
            },
    )
}

/// The effects of a HIR statement: those of its expressions and of the
/// blocks it holds.
pub open spec fn hir_stmt_effects(s: HirStmt) -> EffectSet
    decreases s, 2int,
{
    match s {
        HirStmt::Let { init, .. } => init.effects,
        HirStmt::Expr { expr, .. } => expr.effects,
        HirStmt::Return { expr, .. } => match expr {
            Some(e) => e.effects,
            None => no_effects(),
        },
        HirStmt::Assign { target, expr, .. } => union_effects(target.effects, expr.effects),
        HirStmt::While { cond, body, .. } => union_effects(cond.effects, hir_block_effects(body)),
        HirStmt::For { iterable, body, .. } => union_effects(iterable.effects, hir_block_effects(body)),
        HirStmt::Loop { body, .. } => hir_block_effects(body),
        HirStmt::UnsafeBlock { body, .. } => hir_block_effects(body),
        HirStmt::Break { .. } => no_effects(),
    }
}

pub open spec fn hir_block_effects(b: HirBlock) -> EffectSet
    decreases b, 2int,
{
    union_all(hir_stmts_effects(b), b.stmts@.len() as int)
}

/// The effects of each argument of a HIR call.
pub open spec fn hir_args_effects(args: Vec<HirCallArg>) -> Seq<EffectSet> {
    Seq::new(args@.len(), |i: int| hir_arg_expr(args@[i]).effects)
}

/// `h` is the HIR of the expression `e`, given the type checker's types: the
/// recorded type and its privacy label, the effects, and the same shape all
/// the way down.
pub open spec fn built_expr(e: Expr, h: HirExpr, types: Map<usize, Type>) -> bool
    decreases e, 1int,
{
    &&& h.ty@ == type_for(types, e.id)
    &&& opt_tag_model(h.privacy_tag) == top_tag(type_for(types, e.id))
    &&& h.sensitivity == Sensitivity::Unknown
    &&& h.span == default_span()
    &&& h.effects == ast_effects(e)
    &&& kind_tag(h.kind) == ast_kind_tag(e.kind)
    &&& built_kind(e.kind, h.kind, types)
}

/// The HIR kind `h` has the parts of the AST kind `k`, each built.
pub open spec fn built_kind(k: ExprKind, h: HirExprKind, types: Map<usize, Type>) -> bool
    decreases k, 0int,
{
    match (k, h) {
        (ExprKind::Literal(a), HirExprKind::Literal(b)) => literal_same(b, a),
        (ExprKind::Ident(a), HirExprKind::Ident(b)) => b@ == a@,
        (ExprKind::Sym(a), HirExprKind::Sym(b)) => b@ == a@,
        (ExprKind::BinaryOp { op, left, right }, HirExprKind::BinaryOp { op: o, left: l, right: r }) => o
            == op && built_expr(*left, *l, types) && built_expr(*right, *r, types),
        (
            ExprKind::Call { qualifier, func, args, is_method },
            HirExprKind::Call { qualifier: q, func: f, generic_args: g, args: a, is_method: m },
        ) => crate::ast::opt_text(q) == crate::ast::opt_text(qualifier) && f@ == func@ && g@.len() == 0 && m == is_method
            && args_built(args@, a@, types),
        (ExprKind::Block(b), HirExprKind::Block(hb)) => built_block(b, hb, types),
        (
            ExprKind::StructInit { struct_name, fields },
            HirExprKind::StructInit { struct_name: s, generic_args: g, fields: f },
        ) => s@ == struct_name@ && g@.len() == 0 && fields_built(fields@, f@, types),
        (
            ExprKind::FieldAccess { struct_expr, field_name },
            HirExprKind::FieldAccess { struct_expr: s, field_name: f },
        ) => f@ == field_name@ && built_expr(*struct_expr, *s, types),
        (ExprKind::Range { start, end }, HirExprKind::Range { start: s, end: e }) => built_expr(
            *start,
            *s,
            types,
        ) && built_expr(*end, *e, types),
        (
            ExprKind::EnumVariantAccess { enum_name, variant_name },
            HirExprKind::EnumVariantAccess { enum_name: e, variant_name: v },
        ) => e@ == enum_name@ && v@ == variant_name@,
        (
            ExprKind::EnumVariantConstruction { enum_name, variant_name, args },
            HirExprKind::EnumVariantConstruction { enum_name: e, generic_args: g, variant_name: v, args: a },
        ) => e@ == enum_name@ && v@ == variant_name@ && g@.len() == 0 && args_built(args@, a@, types),
        (ExprKind::Match(m), HirExprKind::Match { cond, arms }) => built_expr(*m.cond, *cond, types)
            && arms_built(m.arms@, arms@, types),
        (ExprKind::Closure { param, body }, HirExprKind::Closure { param: p, body: b }) => p@ == param@
            && built_expr(*body, *b, types),
        (
            ExprKind::If { kind, cond, then_expr, else_expr },
            HirExprKind::If { kind: k2, cond: c, then_expr: t, else_expr: e },
        ) => k2 == kind && built_expr(*cond, *c, types) && built_expr(*then_expr, *t, types) && match (
            else_expr,
            e,
        ) {
            (Some(x), Some(y)) => built_expr(*x, *y, types),
            (None, None) => true,
            _ => false,
        },
        (ExprKind::ArrayLiteral(es), HirExprKind::ArrayLiteral(hs)) => exprs_built(es@, hs@, types),
        (ExprKind::UnsafeBlock(u), HirExprKind::UnsafeBlock { kind, body, span }) => kind == u.kind
            && span == default_span() && built_block(u.body, body, types),
        (ExprKind::Unary { op, expr }, HirExprKind::Unary { op: o, expr: x }) => o == op && built_expr(
            *expr,
            *x,
            types,
        ),
        (ExprKind::Cast { expr, ty }, HirExprKind::Cast { expr: x, ty: t }) => t@ == ty@ && built_expr(
            *expr,
            *x,
            types,
        ),
        (ExprKind::Index { expr, index }, HirExprKind::Index { expr: x, index: i }) => built_expr(
            *expr,
            *x,
            types,
        ) && built_expr(*index, *i, types),
        (ExprKind::LackSlice(t), HirExprKind::LackSlice(t2)) => t2@ == t@,
        _ => false,
    }
}

pub open spec fn args_built(a: Seq<CallArg>, h: Seq<HirCallArg>, types: Map<usize, Type>) -> bool
    decreases a, 0int,
{
    a.len() == h.len() && forall|i: int| 0 <= i < a.len() ==> built_arg(a[i], #[trigger] h[i], types)
}

pub open spec fn fields_built(a: Seq<(String, Expr)>, h: Seq<(String, HirExpr)>, types: Map<usize, Type>) -> bool
    decreases a, 0int,
{
    a.len() == h.len() && forall|i: int|
        0 <= i < a.len() ==> (#[trigger] h[i]).0@ == a[i].0@ && built_expr(a[i].1, h[i].1, types)
}

pub open spec fn exprs_built(a: Seq<Expr>, h: Seq<HirExpr>, types: Map<usize, Type>) -> bool
    decreases a, 0int,
{
    a.len() == h.len() && forall|i: int| 0 <= i < a.len() ==> built_expr(a[i], #[trigger] h[i], types)
}

pub open spec fn arms_built(a: Seq<crate::ast::MatchArm>, h: Seq<HirMatchArm>, types: Map<usize, Type>) -> bool
    decreases a, 0int,
{
    a.len() == h.len() && forall|i: int|
        0 <= i < a.len() ==> pattern_same((#[trigger] h[i]).pattern, a[i].pattern) && built_expr(
            *a[i].expr,
            h[i].expr,
            types,
        )
}

/// The statement `h` is the HIR of the statement `s`: the same variant,
/// with the same effects, and its parts built.
pub open spec fn built_stmt(s: Stmt, h: HirStmt, types: Map<usize, Type>) -> bool
    decreases s, 0int,
{
    &&& hir_stmt_effects(h) == ast_stmt_effects(s)
    &&& match (s, h) {
        (Stmt::Let(l), HirStmt::Let { name, ty, init, mutable, persist, span }) => name@ == l.name@
            && opt_type_model(ty) == opt_type_model(l.ty) && mutable == l.mutable && persist
            == l.persist && span == default_span() && built_expr(*l.init, init, types),
        (Stmt::ExprStmt(e), HirStmt::Expr { expr, span }) => span == default_span() && built_expr(
            e,
            expr,
            types,
        ),
        (Stmt::Return(e), HirStmt::Return { expr, span }) => span == default_span() && match (e, expr) {
            (Some(x), Some(y)) => built_expr(x, y, types),
            (None, None) => true,
            _ => false,
        },
        (Stmt::While(w), HirStmt::While { cond, body, span }) => span == default_span() && built_expr(
            *w.cond,
            cond,
            types,
        ) && built_block(w.body, body, types),
        (Stmt::For(f), HirStmt::For { var, iterable, body, span }) => span == default_span() && var@
            == f.var@ && built_expr(*f.iterable, iterable, types) && built_block(f.body, body, types),
        (Stmt::Assign(a), HirStmt::Assign { target, expr, span }) => span == default_span()
            && built_expr(*a.target, *target, types) && built_expr(*a.expr, expr, types),
        (Stmt::Loop(l), HirStmt::Loop { body, span }) => span == default_span() && built_block(
            l.body,
            body,
            types,
        ),
        (Stmt::Break(_), HirStmt::Break { span }) => span == default_span(),
        (Stmt::UnsafeBlock(u), HirStmt::UnsafeBlock { kind, body, span }) => span == default_span()
            && kind == u.kind && built_block(u.body, body, types),
        _ => false,
    }
}

/// The block `h` is the HIR of the block `b`, statement by statement.
pub open spec fn built_block(b: Block, h: HirBlock, types: Map<usize, Type>) -> bool
    decreases b, 1int,
{
    &&& h.span == default_span()
    &&& h.stmts@.len() == b.stmts@.len()
    &&& forall|i: int| 0 <= i < b.stmts@.len() ==> built_stmt(b.stmts@[i], #[trigger] h.stmts@[i], types)
    &&& hir_block_effects(h) == ast_block_effects(b)
}

pub open spec fn built_arg(a: CallArg, h: HirCallArg, types: Map<usize, Type>) -> bool
    decreases a, 0int,
{
    match (a, h) {
        (CallArg::Positional(e), HirCallArg::Positional(x)) => built_expr(e, x, types),
        (CallArg::Named(n, e), HirCallArg::Named(m, x)) => m@ == n@ && built_expr(e, x, types),
        _ => false,
    }
}

} // verus!

verus! {

/// The HIR builder.
pub struct HirBuilder;

impl HirBuilder {
    fn ok<T>(val: T) -> (r: Result<T, String>)
        ensures
            r == Ok::<T, String>(val),
    {
        Ok(val)
    }

    /// The generic parameters, with their bounds; their names are those that
    /// `TypeChecker::generic_param_names` reads off, in the same order.
    pub fn build_generic_params(generic_params: &[GenericParam]) -> (r: Vec<HirGenericParam>)
        ensures
            generics_built(generic_params@, r@),
            hir_names(r@) == crate::semantic::check_generic::param_names(generic_params@),
            r@.len() == generic_params@.len(),
            forall|i: int|
                0 <= i < generic_params@.len() ==> #[trigger] r@[i].name@ == crate::semantic::check_generic::generic_name(
                    generic_params@[i],
                ) && match generic_params@[i] {
                    GenericParam::Type { bounds, .. } => strs_same(r@[i].bounds@, bounds@),
                },
    {
        let mut out: Vec<HirGenericParam> = Vec::new();
        let mut i: usize = 0;
        while i < generic_params.len()
            invariant
                i <= generic_params@.len(),
                out@.len() == i,
                forall|j: int|
                    0 <= j < i ==> #[trigger] out@[j].name@ == crate::semantic::check_generic::generic_name(
                        generic_params@[j],
                    ) && match generic_params@[j] {
                        GenericParam::Type { bounds, .. } => strs_same(out@[j].bounds@, bounds@),
                    },
            decreases generic_params.len() - i,
        {
            let p = match &generic_params[i] {
                GenericParam::Type { name, bounds } => HirGenericParam {
                    name: name.clone(),
                    bounds: duplicate_strings(bounds),
                },
            };
            out.push(p);
            i += 1;
        }
        proof {
            law_generic_names_agree(generic_params@, out@);
        }
        out
    }

    /// The union of the effects of the given expressions.
    fn merge_effects(exprs: &Vec<&HirExpr>) -> (r: EffectSet)
        ensures
            r == union_all(exprs@.map_values(|e: &HirExpr| e.effects), exprs@.len() as int),
    {
        let ghost s = exprs@.map_values(|e: &HirExpr| e.effects);
        let mut acc = EffectSet::default();
        let mut i: usize = 0;
        while i < exprs.len()
            invariant
                i <= exprs@.len(),
                s == exprs@.map_values(|e: &HirExpr| e.effects),
                acc == union_all(s, i as int),
            decreases exprs.len() - i,
        {
            acc.merge_with(&exprs[i].effects);
            i += 1;
        }
        acc
    }

    /// The expression of a call argument.
    fn call_arg_expr(arg: &HirCallArg) -> (r: &HirExpr)
        ensures
            *r == hir_arg_expr(*arg),
    {
        match arg {
            HirCallArg::Positional(e) => e,
            HirCallArg::Named(_, e) => e,
        }
    }

    /// The union of the effects of the arguments.
    fn merge_effects_from_call_args(args: &Vec<HirCallArg>) -> (r: EffectSet)
        ensures
            r == union_all(hir_args_effects(*args), args@.len() as int),
    {
        let mut acc = EffectSet::default();
        let mut i: usize = 0;
        while i < args.len()
            invariant
                i <= args@.len(),
                acc == union_all(hir_args_effects(*args), i as int),
            decreases args.len() - i,
        {
            acc.merge_with(&Self::call_arg_expr(&args[i]).effects);
            i += 1;
        }
        acc
    }

    /// The arguments of a call, each lowered.
    fn build_call_args(args: &Vec<CallArg>, expr_types: &HashMap<usize, Type>) -> (r: Result<
        Vec<HirCallArg>,
        String,
    >)
        ensures
            r matches Ok(v) && v@.len() == args@.len() && forall|i: int|
                0 <= i < args@.len() ==> built_arg(args@[i], #[trigger] v@[i], expr_types@),
        decreases args, 0nat,
    {
        let mut out: Vec<HirCallArg> = Vec::new();
        let mut i: usize = 0;
        while i < args.len()
            invariant
                i <= args@.len(),
                out@.len() == i,
                forall|j: int| 0 <= j < i ==> built_arg(args@[j], #[trigger] out@[j], expr_types@),
            decreases args.len() - i,
        {
            proof {
                assert(decreases_to!(args => args@));
                assert(decreases_to!(args@ => args@[i as int]));
            }
            let a = match &args[i] {
                CallArg::Positional(e) => match Self::build_expr(e, expr_types) {
                    Ok(x) => HirCallArg::Positional(x),
                    Err(m) => return Err(m),
                },
                CallArg::Named(n, e) => match Self::build_expr(e, expr_types) {
                    Ok(x) => HirCallArg::Named(n.clone(), x),
                    Err(m) => return Err(m),
                },
            };
            out.push(a);
            i += 1;
        }
        Ok(out)
    }

    /// The union of the effects of a block's statements.
    fn merge_effects_from_block(block: &HirBlock) -> (r: EffectSet)
        ensures
            r == hir_block_effects(*block),
        decreases block, 0nat,
    {
        let mut merged = EffectSet::default();
        let mut i: usize = 0;
        while i < block.stmts.len()
            invariant
                i <= block.stmts@.len(),
                merged == union_all(hir_stmts_effects(*block), i as int),
            decreases block.stmts.len() - i,
        {
            proof {
                assert(decreases_to!(block => block.stmts));
                assert(decreases_to!(block.stmts => block.stmts@));
                assert(decreases_to!(block.stmts@ => block.stmts@[i as int]));
            }
            match &block.stmts[i] {
                HirStmt::Expr { expr, .. } => merged.merge_with(&expr.effects),
                HirStmt::Let { init, .. } => merged.merge_with(&init.effects),
                HirStmt::Return { expr: Some(e), .. } => merged.merge_with(&e.effects),
                HirStmt::Assign { target, expr, .. } => {
                    merged.merge_with(&target.effects);
                    merged.merge_with(&expr.effects);
                },
                HirStmt::While { cond, body, .. } => {
                    merged.merge_with(&cond.effects);
                    merged.merge_with(&Self::merge_effects_from_block(body));
                },
                HirStmt::For { iterable, body, .. } => {
                    merged.merge_with(&iterable.effects);
                    merged.merge_with(&Self::merge_effects_from_block(body));
                },
                HirStmt::Loop { body, .. } => {
                    merged.merge_with(&Self::merge_effects_from_block(body));
                },
                HirStmt::UnsafeBlock { body, .. } => {
                    merged.merge_with(&Self::merge_effects_from_block(body));
                },
                _ => {},
            }
            i += 1;
        }
        merged
    }

    /// A built expression: the label is read off the type.
    fn mk_expr(kind: HirExprKind, ty: Type, effects: EffectSet, span: Span) -> (r: HirExpr)
        ensures
            r.kind == kind,
            r.ty == ty,
            opt_tag_model(r.privacy_tag) == top_tag(ty@),
            r.sensitivity == Sensitivity::Unknown,
            r.effects == effects,
            r.span == span,
    {
        let privacy_tag = ty.privacy_tag();
        HirExpr { kind, ty, privacy_tag, sensitivity: Sensitivity::Unknown, effects, span }
    }

    /// The type the type checker recorded for an expression, `i32` when none.
    fn recorded_type(expr_types: &HashMap<usize, Type>, id: usize) -> (r: Type)
        ensures
            r@ == type_for(expr_types@, id),
    {
        match expr_types.get(&id) {
            Some(t) => t.duplicate(),
            None => Type::I32,
        }
    }
}

} // verus!

verus! {

impl HirBuilder {
    /// Lowers an expression.
    #[verifier::rlimit(100)]
    fn build_expr(expr: &Expr, expr_types: &HashMap<usize, Type>) -> (r: Result<HirExpr, String>)
        ensures
            r matches Ok(h) && built_expr(*expr, h, expr_types@),
        decreases expr, 0nat,
    {
        let ty = Self::recorded_type(expr_types, expr.id);
        let mut effects = EffectSet::default();
        let kind = match &expr.kind {
            ExprKind::Literal(lit) => HirExprKind::Literal(lit.duplicate()),
            ExprKind::Ident(name) => HirExprKind::Ident(name.clone()),
            ExprKind::Sym(name) => HirExprKind::Sym(name.clone()),
            ExprKind::BinaryOp { op, left, right } => {
                let l = match Self::build_expr(left, expr_types) {
                    Ok(x) => x,
                    Err(m) => return Err(m),
                };
                let r = match Self::build_expr(right, expr_types) {
                    Ok(x) => x,
                    Err(m) => return Err(m),
                };
                effects = Self::merge_two(&l, &r);
                HirExprKind::BinaryOp { op: *op, left: Box::new(l), right: Box::new(r) }
            },
            ExprKind::Call { qualifier, func, args, is_method } => {
                let hir_args = match Self::build_call_args(args, expr_types) {
                    Ok(v) => v,
                    Err(m) => return Err(m),
                };
                effects = Self::merge_effects_from_call_args(&hir_args);
                proof {
                    lemma_args_effects(*args, hir_args, expr_types@);
                }
                if same_text(func.as_str(), "print") {
                    effects.has_io = true;
                }
                HirExprKind::Call {
                    qualifier: crate::ast::duplicate_opt_string(qualifier),
                    func: func.clone(),
                    generic_args: Vec::new(),
                    args: hir_args,
                    is_method: *is_method,
                }
            },
            ExprKind::Block(block) => {
                let hb = match Self::build_block(block, expr_types) {
                    Ok(b) => b,
                    Err(m) => return Err(m),
                };
                effects = Self::merge_effects_from_block(&hb);
                HirExprKind::Block(hb)
            },
            ExprKind::StructInit { struct_name, fields } => {
                let (hir_fields, eff) = match Self::build_fields(fields, expr_types) {
                    Ok(p) => p,
                    Err(m) => return Err(m),
                };
                effects = eff;
                HirExprKind::StructInit {
                    struct_name: struct_name.clone(),
                    generic_args: Vec::new(),
                    fields: hir_fields,
                }
            },
            ExprKind::FieldAccess { struct_expr, field_name } => {
                let s = match Self::build_expr(struct_expr, expr_types) {
                    Ok(x) => x,
                    Err(m) => return Err(m),
                };
                effects = s.effects;
                HirExprKind::FieldAccess { struct_expr: Box::new(s), field_name: field_name.clone() }
            },
            ExprKind::Range { start, end } => {
                let s = match Self::build_expr(start, expr_types) {
                    Ok(x) => x,
                    Err(m) => return Err(m),
                };
                let e = match Self::build_expr(end, expr_types) {
                    Ok(x) => x,
                    Err(m) => return Err(m),
                };
                effects = Self::merge_two(&s, &e);
                HirExprKind::Range { start: Box::new(s), end: Box::new(e) }
            },
            ExprKind::EnumVariantAccess { enum_name, variant_name } => HirExprKind::EnumVariantAccess {
                enum_name: enum_name.clone(),
                variant_name: variant_name.clone(),
            },
            ExprKind::EnumVariantConstruction { enum_name, variant_name, args } => {
                let hir_args = match Self::build_call_args(args, expr_types) {
                    Ok(v) => v,
                    Err(m) => return Err(m),
                };
                effects = Self::merge_effects_from_call_args(&hir_args);
                proof {
                    lemma_args_effects(*args, hir_args, expr_types@);
                }
                HirExprKind::EnumVariantConstruction {
                    enum_name: enum_name.clone(),
                    generic_args: Vec::new(),
                    variant_name: variant_name.clone(),
                    args: hir_args,
                }
            },
            ExprKind::Match(match_expr) => {
                let cond = match Self::build_expr(&match_expr.cond, expr_types) {
                    Ok(x) => x,
                    Err(m) => return Err(m),
                };
                let (arms, eff) = match Self::build_arms(&match_expr.arms, expr_types, cond.effects) {
                    Ok(p) => p,
                    Err(m) => return Err(m),
                };
                effects = eff;
                HirExprKind::Match { cond: Box::new(cond), arms }
            },
            ExprKind::Closure { param, body } => {
                let b = match Self::build_expr(body, expr_types) {
                    Ok(x) => x,
                    Err(m) => return Err(m),
                };
                effects = b.effects;
                HirExprKind::Closure { param: param.clone(), body: Box::new(b) }
            },
            ExprKind::If { kind: if_kind, cond, then_expr, else_expr } => {
                let c = match Self::build_expr(cond, expr_types) {
                    Ok(x) => x,
                    Err(m) => return Err(m),
                };
                let t = match Self::build_expr(then_expr, expr_types) {
                    Ok(x) => x,
                    Err(m) => return Err(m),
                };
                let e = match else_expr {
                    Some(x) => match Self::build_expr(x, expr_types) {
                        Ok(h) => Some(Box::new(h)),
                        Err(m) => return Err(m),
                    },
                    None => None,
                };
                effects = match &e {
                    Some(x) => Self::merge_three(&c, &t, x),
                    None => Self::merge_two(&c, &t),
                };
                HirExprKind::If { kind: *if_kind, cond: Box::new(c), then_expr: Box::new(t), else_expr: e }
            },
            ExprKind::ArrayLiteral(elements) => {
                let (hir_elements, eff) = match Self::build_exprs(elements, expr_types) {
                    Ok(p) => p,
                    Err(m) => return Err(m),
                };
                effects = eff;
                HirExprKind::ArrayLiteral(hir_elements)
            },
            ExprKind::UnsafeBlock(unsafe_block) => {
                let body = match Self::build_block(&unsafe_block.body, expr_types) {
                    Ok(b) => b,
                    Err(m) => return Err(m),
                };
                effects = Self::merge_effects_from_block(&body);
                HirExprKind::UnsafeBlock { kind: unsafe_block.kind, body, span: Span::default() }
            },
            ExprKind::Unary { op, expr: inner } => {
                let x = match Self::build_expr(inner, expr_types) {
                    Ok(x) => x,
                    Err(m) => return Err(m),
                };
                effects = x.effects;
                HirExprKind::Unary { op: *op, expr: Box::new(x) }
            },
            ExprKind::Cast { expr: inner, ty: cast_ty } => {
                let x = match Self::build_expr(inner, expr_types) {
                    Ok(x) => x,
                    Err(m) => return Err(m),
                };
                effects = x.effects;
                HirExprKind::Cast { expr: Box::new(x), ty: cast_ty.duplicate() }
            },
            ExprKind::Index { expr: base, index } => {
                let b = match Self::build_expr(base, expr_types) {
                    Ok(x) => x,
                    Err(m) => return Err(m),
                };
                let i = match Self::build_expr(index, expr_types) {
                    Ok(x) => x,
                    Err(m) => return Err(m),
                };
                effects = Self::merge_two(&b, &i);
                HirExprKind::Index { expr: Box::new(b), index: Box::new(i) }
            },
            ExprKind::LackSlice(t) => HirExprKind::LackSlice(t.duplicate()),
        };
        assert(built_kind(expr.kind, kind, expr_types@));
        Ok(Self::mk_expr(kind, ty, effects, Span::default()))
    }

    /// The union of the effects of two expressions.
    fn merge_two(a: &HirExpr, b: &HirExpr) -> (r: EffectSet)
        ensures
            r == union_all(seq![a.effects, b.effects], 2),
    {
        let mut v: Vec<&HirExpr> = Vec::new();
        v.push(a);
        v.push(b);
        let r = Self::merge_effects(&v);
        assert(v@.map_values(|e: &HirExpr| e.effects) =~= seq![a.effects, b.effects]);
        r
    }

    /// The union of the effects of three expressions.
    fn merge_three(a: &HirExpr, b: &HirExpr, c: &HirExpr) -> (r: EffectSet)
        ensures
            r == union_all(seq![a.effects, b.effects, c.effects], 3),
    {
        let mut v: Vec<&HirExpr> = Vec::new();
        v.push(a);
        v.push(b);
        v.push(c);
        let r = Self::merge_effects(&v);
        assert(v@.map_values(|e: &HirExpr| e.effects) =~= seq![a.effects, b.effects, c.effects]);
        r
    }

    /// The fields of a struct literal, each lowered, with the union of
    /// their effects.
    fn build_fields(fields: &Vec<(String, Expr)>, expr_types: &HashMap<usize, Type>) -> (r: Result<
        (Vec<(String, HirExpr)>, EffectSet),
        String,
    >)
        ensures
            r matches Ok(p) && p.0@.len() == fields@.len() && (forall|i: int|
                0 <= i < fields@.len() ==> #[trigger] p.0@[i].0@ == fields@[i].0@ && built_expr(
                    fields@[i].1,
                    p.0@[i].1,
                    expr_types@,
                )) && p.1 == union_all(ast_fields_effects(*fields), fields@.len() as int),
        decreases fields, 0nat,
    {
        let mut out: Vec<(String, HirExpr)> = Vec::new();
        let mut acc = EffectSet::default();
        let mut i: usize = 0;
        while i < fields.len()
            invariant
                i <= fields@.len(),
                out@.len() == i,
                acc == union_all(ast_fields_effects(*fields), i as int),
                forall|j: int|
                    0 <= j < i ==> #[trigger] out@[j].0@ == fields@[j].0@ && built_expr(
                        fields@[j].1,
                        out@[j].1,
                        expr_types@,
                    ),
            decreases fields.len() - i,
        {
            proof {
                assert(decreases_to!(fields => fields@));
                assert(decreases_to!(fields@ => fields@[i as int]));
                assert(decreases_to!(fields@[i as int] => fields@[i as int].1));
            }
            let e = match Self::build_expr(&fields[i].1, expr_types) {
                Ok(x) => x,
                Err(m) => return Err(m),
            };
            acc.merge_with(&e.effects);
            out.push((fields[i].0.clone(), e));
            i += 1;
        }
        Ok((out, acc))
    }

    /// The elements of an array literal, each lowered, with the union of
    /// their effects.
    fn build_exprs(elements: &Vec<Expr>, expr_types: &HashMap<usize, Type>) -> (r: Result<
        (Vec<HirExpr>, EffectSet),
        String,
    >)
        ensures
            r matches Ok(p) && p.0@.len() == elements@.len() && (forall|i: int|
                0 <= i < elements@.len() ==> built_expr(elements@[i], #[trigger] p.0@[i], expr_types@))
                && p.1 == union_all(ast_elems_effects(*elements), elements@.len() as int),
        decreases elements, 0nat,
    {
        let mut out: Vec<HirExpr> = Vec::new();
        let mut acc = EffectSet::default();
        let mut i: usize = 0;
        while i < elements.len()
            invariant
                i <= elements@.len(),
                out@.len() == i,
                acc == union_all(ast_elems_effects(*elements), i as int),
                forall|j: int| 0 <= j < i ==> built_expr(elements@[j], #[trigger] out@[j], expr_types@),
            decreases elements.len() - i,
        {
            proof {
                assert(decreases_to!(elements => elements@));
                assert(decreases_to!(elements@ => elements@[i as int]));
            }
            let e = match Self::build_expr(&elements[i], expr_types) {
                Ok(x) => x,
                Err(m) => return Err(m),
            };
            acc.merge_with(&e.effects);
            out.push(e);
            i += 1;
        }
        Ok((out, acc))
    }

    /// The arms of a `match`, each lowered, with the union of `first` and
    /// the effects of the arms.
    fn build_arms(
        arms: &Vec<crate::ast::MatchArm>,
        expr_types: &HashMap<usize, Type>,
        first: EffectSet,
    ) -> (r: Result<(Vec<HirMatchArm>, EffectSet), String>)
        ensures
            r matches Ok(p) && p.0@.len() == arms@.len() && (forall|i: int|
                0 <= i < arms@.len() ==> pattern_same(#[trigger] p.0@[i].pattern, arms@[i].pattern)
                    && built_expr(*arms@[i].expr, p.0@[i].expr, expr_types@)) && p.1 == union_all(seq![first] + ast_arms_effects(*arms), arms@.len() + 1int),
        decreases arms, 0nat,
    {
        let mut out: Vec<HirMatchArm> = Vec::new();
        let mut acc = EffectSet::default();
        acc.merge_with(&first);
        proof {
            let t = seq![first] + ast_arms_effects(*arms);
            assert(t[0] == first);
            assert(union_all(t, 0) == no_effects());
            assert(union_all(t, 1) == union_effects(union_all(t, 0), t[0]));
        }
        let mut i: usize = 0;
        while i < arms.len()
            invariant
                i <= arms@.len(),
                out@.len() == i,
                acc == union_all(seq![first] + ast_arms_effects(*arms), i + 1),
                forall|j: int|
                    0 <= j < i ==> pattern_same(#[trigger] out@[j].pattern, arms@[j].pattern)
                        && built_expr(*arms@[j].expr, out@[j].expr, expr_types@),
            decreases arms.len() - i,
        {
            proof {
                assert(decreases_to!(arms => arms@));
                assert(decreases_to!(arms@ => arms@[i as int]));
                assert(decreases_to!(arms@[i as int] => arms@[i as int].expr));
            }
            let e = match Self::build_expr(&arms[i].expr, expr_types) {
                Ok(x) => x,
                Err(m) => return Err(m),
            };
            acc.merge_with(&e.effects);
            out.push(HirMatchArm { pattern: arms[i].pattern.duplicate(), expr: e });
            i += 1;
        }
        Ok((out, acc))
    }

    /// Lowers the statements of a block, each at the default position.
    fn build_block(block: &Block, expr_types: &HashMap<usize, Type>) -> (r: Result<HirBlock, String>)
        ensures
            r matches Ok(h) && built_block(*block, h, expr_types@),
        decreases block, 0nat,
    {
        let mut stmts: Vec<HirStmt> = Vec::new();
        let mut i: usize = 0;
        while i < block.stmts.len()
            invariant
                i <= block.stmts@.len(),
                stmts@.len() == i,
                forall|j: int| 0 <= j < i ==> built_stmt(block.stmts@[j], #[trigger] stmts@[j], expr_types@),
            decreases block.stmts.len() - i,
        {
            proof {
                assert(decreases_to!(block => block.stmts));
                assert(decreases_to!(block.stmts => block.stmts@));
                assert(decreases_to!(block.stmts@ => block.stmts@[i as int]));
            }
            let s = match Self::build_stmt(&block.stmts[i], expr_types) {
                Ok(s) => s,
                Err(m) => return Err(m),
            };
            stmts.push(s);
            i += 1;
        }
        let h = HirBlock { stmts, span: Span::default() };
        proof {
            assert(hir_stmts_effects(h) =~= ast_stmts_effects(*block));
        }
        Ok(h)
    }

    /// Lowers one statement.
    fn build_stmt(stmt: &Stmt, expr_types: &HashMap<usize, Type>) -> (r: Result<HirStmt, String>)
        ensures
            r matches Ok(h) && built_stmt(*stmt, h, expr_types@),
        decreases stmt, 0nat,
    {
        match stmt {
            Stmt::Let(let_stmt) => {
                let init = match Self::build_expr(&let_stmt.init, expr_types) {
                    Ok(x) => x,
                    Err(m) => return Err(m),
                };
                Ok(
                    HirStmt::Let {
                        name: let_stmt.name.clone(),
                        ty: crate::ast::duplicate_opt_type(&let_stmt.ty),
                        init,
                        mutable: let_stmt.mutable,
                        persist: let_stmt.persist,
                        span: Span::default(),
                    },
                )
            },
            Stmt::ExprStmt(e) => {
                let expr = match Self::build_expr(e, expr_types) {
                    Ok(x) => x,
                    Err(m) => return Err(m),
                };
                Ok(HirStmt::Expr { expr, span: Span::default() })
            },
            Stmt::Return(expr_opt) => {
                let expr = match expr_opt {
                    Some(e) => match Self::build_expr(e, expr_types) {
                        Ok(x) => Some(x),
                        Err(m) => return Err(m),
                    },
                    None => None,
                };
                Ok(HirStmt::Return { expr, span: Span::default() })
            },
            Stmt::While(while_stmt) => {
                let cond = match Self::build_expr(&while_stmt.cond, expr_types) {
                    Ok(x) => x,
                    Err(m) => return Err(m),
                };
                let body = match Self::build_block(&while_stmt.body, expr_types) {
                    Ok(b) => b,
                    Err(m) => return Err(m),
                };
                Ok(HirStmt::While { cond, body, span: Span::default() })
            },
            Stmt::For(for_stmt) => {
                let iterable = match Self::build_expr(&for_stmt.iterable, expr_types) {
                    Ok(x) => x,
                    Err(m) => return Err(m),
                };
                let body = match Self::build_block(&for_stmt.body, expr_types) {
                    Ok(b) => b,
                    Err(m) => return Err(m),
                };
                Ok(HirStmt::For { var: for_stmt.var.clone(), iterable, body, span: Span::default() })
            },
            Stmt::Assign(assign_stmt) => {
                let target = match Self::build_expr(&assign_stmt.target, expr_types) {
                    Ok(x) => x,
                    Err(m) => return Err(m),
                };
                let expr = match Self::build_expr(&assign_stmt.expr, expr_types) {
                    Ok(x) => x,
                    Err(m) => return Err(m),
                };
                Ok(HirStmt::Assign { target: Box::new(target), expr, span: Span::default() })
            },
            Stmt::Loop(loop_stmt) => {
                let body = match Self::build_block(&loop_stmt.body, expr_types) {
                    Ok(b) => b,
                    Err(m) => return Err(m),
                };
                Ok(HirStmt::Loop { body, span: Span::default() })
            },
            Stmt::Break(_) => Ok(HirStmt::Break { span: Span::default() }),
            Stmt::UnsafeBlock(unsafe_block) => {
                let body = match Self::build_block(&unsafe_block.body, expr_types) {
                    Ok(b) => b,
                    Err(m) => return Err(m),
                };
                Ok(HirStmt::UnsafeBlock { kind: unsafe_block.kind, body, span: Span::default() })
            },
        }
    }
}

/// Arguments lowered one by one have, together, the effects of the
/// arguments they came from.
proof fn lemma_args_effects(args: Vec<CallArg>, hir_args: Vec<HirCallArg>, types: Map<usize, Type>)
    requires
        hir_args@.len() == args@.len(),
        forall|i: int| 0 <= i < args@.len() ==> built_arg(args@[i], #[trigger] hir_args@[i], types),
    ensures
        hir_args_effects(hir_args) =~= ast_args_effects(args),
{
    assert forall|i: int| 0 <= i < args@.len() implies hir_arg_expr(hir_args@[i]).effects == ast_effects(
        ast_arg_expr(args@[i]),
    ) by {
        assert(built_arg(args@[i], hir_args@[i], types));
    }
}

} // verus!

verus! {

// ===== items =====

/// The HIR generic parameters `h` carry the names and bounds of `g`.
pub open spec fn generics_built(g: Seq<GenericParam>, h: Seq<HirGenericParam>) -> bool {
    &&& h.len() == g.len()
    &&& forall|i: int|
        0 <= i < g.len() ==> #[trigger] h[i].name@ == crate::semantic::check_generic::generic_name(g[i])
            && match g[i] {
            GenericParam::Type { bounds, .. } => strs_same(h[i].bounds@, bounds@),
        }
}

/// Name and type, entry by entry.
pub open spec fn params_built(a: Seq<Param>, h: Seq<HirParam>) -> bool {
    h.len() == a.len() && forall|i: int| 0 <= i < a.len() ==> #[trigger] h[i].name@ == a[i].name@ && h[i].ty@ == a[i].ty@
}

pub open spec fn built_fn(f: FnDef, h: HirFn, types: Map<usize, Type>, in_model: bool) -> bool {
    &&& h.name@ == f.name@
    &&& generics_built(f.generic_params@, h.generic_params@)
    &&& params_built(f.params@, h.params@)
    &&& opt_type_model(h.return_type) == opt_type_model(f.return_type)
    &&& built_block(f.body, h.body, types)
    &&& h.effects == ast_block_effects(f.body)
    &&& h.sensitivity is None
    &&& h.is_forward == (f.name@ == "forward"@ && in_model)
}

fn build_params(params: &Vec<Param>) -> (r: Vec<HirParam>)
    ensures
        params_built(params@, r@),
{
    let mut out: Vec<HirParam> = Vec::new();
    let mut i: usize = 0;
    while i < params.len()
        invariant
            i <= params@.len(),
            out@.len() == i,
            forall|j: int| 0 <= j < i ==> #[trigger] out@[j].name@ == params@[j].name@ && out@[j].ty@ == params@[j].ty@,
        decreases params.len() - i,
    {
        out.push(HirParam { name: params[i].name.clone(), ty: params[i].ty.duplicate() });
        i += 1;
    }
    out
}

pub open spec fn struct_fields_built(a: Seq<StructField>, h: Seq<HirField>) -> bool {
    h.len() == a.len() && forall|i: int| 0 <= i < a.len() ==> #[trigger] h[i].name@ == a[i].name@ && h[i].ty@ == a[i].ty@
}

pub open spec fn model_fields_built(a: Seq<ModelField>, h: Seq<HirField>) -> bool {
    h.len() == a.len() && forall|i: int| 0 <= i < a.len() ==> #[trigger] h[i].name@ == a[i].name@ && h[i].ty@ == a[i].ty@
}

fn build_struct_fields(fields: &Vec<StructField>) -> (r: Vec<HirField>)
    ensures
        struct_fields_built(fields@, r@),
{
    let mut out: Vec<HirField> = Vec::new();
    let mut i: usize = 0;
    while i < fields.len()
        invariant
            i <= fields@.len(),
            out@.len() == i,
            forall|j: int| 0 <= j < i ==> #[trigger] out@[j].name@ == fields@[j].name@ && out@[j].ty@ == fields@[j].ty@,
        decreases fields.len() - i,
    {
        out.push(HirField { name: fields[i].name.clone(), ty: fields[i].ty.duplicate() });
        i += 1;
    }
    out
}

fn build_model_fields(fields: &Vec<ModelField>) -> (r: Vec<HirField>)
    ensures
        model_fields_built(fields@, r@),
{
    let mut out: Vec<HirField> = Vec::new();
    let mut i: usize = 0;
    while i < fields.len()
        invariant
            i <= fields@.len(),
            out@.len() == i,
            forall|j: int| 0 <= j < i ==> #[trigger] out@[j].name@ == fields@[j].name@ && out@[j].ty@ == fields@[j].ty@,
        decreases fields.len() - i,
    {
        out.push(HirField { name: fields[i].name.clone(), ty: fields[i].ty.duplicate() });
        i += 1;
    }
    out
}

pub open spec fn built_struct(s: StructDef, h: HirStruct) -> bool {
    &&& h.name@ == s.name@
    &&& generics_built(s.generic_params@, h.generic_params@)
    &&& struct_fields_built(s.fields@, h.fields@)
}

pub open spec fn built_enum(e: EnumDef, h: HirEnum) -> bool {
    &&& h.name@ == e.name@
    &&& generics_built(e.generic_params@, h.generic_params@)
    &&& h.variants@.len() == e.variants@.len()
    &&& forall|i: int|
        0 <= i < e.variants@.len() ==> #[trigger] h.variants@[i].name@ == e.variants@[i].name@
            && opt_type_model(h.variants@[i].ty) == opt_type_model(e.variants@[i].ty)
}

pub open spec fn built_proto(p: ProtoDef, h: HirProto) -> bool {
    &&& h.name@ == p.name@
    &&& h.variants@.len() == p.variants@.len()
    &&& forall|i: int|
        0 <= i < p.variants@.len() ==> #[trigger] h.variants@[i].name@ == p.variants@[i].name@
            && opt_type_model(h.variants@[i].ty) == opt_type_model(p.variants@[i].ty)
}

pub open spec fn built_const(c: ConstDef, h: HirConst, types: Map<usize, Type>) -> bool {
    &&& h.name@ == c.name@
    &&& h.ty@ == c.ty@
    &&& built_expr(*c.value, h.value, types)
}

pub open spec fn fns_built(fs: Seq<FnDef>, h: Seq<HirFn>, types: Map<usize, Type>, in_model: bool) -> bool {
    h.len() == fs.len() && forall|i: int| 0 <= i < fs.len() ==> built_fn(fs[i], #[trigger] h[i], types, in_model)
}

pub open spec fn built_impl(imp: ImplementDef, h: HirImplement, types: Map<usize, Type>) -> bool {
    &&& generics_built(imp.generic_params@, h.generic_params@)
    &&& h.target_type@ == imp.target_type@
    &&& crate::ast::opt_text(h.interface_name) == crate::ast::opt_text(imp.interface_name)
    &&& fns_built(imp.functions@, h.functions@, types, false)
}

pub open spec fn built_iface(i: InterfaceDef, h: HirInterface) -> bool {
    &&& h.name@ == i.name@
    &&& generics_built(i.generic_params@, h.generic_params@)
    &&& h.methods@.len() == i.methods@.len()
    &&& forall|k: int|
        0 <= k < i.methods@.len() ==> #[trigger] h.methods@[k].name@ == i.methods@[k].name@
            && generics_built(i.methods@[k].generic_params@, h.methods@[k].generic_params@)
            && params_built(i.methods@[k].params@, h.methods@[k].params@)
            && opt_type_model(h.methods@[k].return_type) == opt_type_model(i.methods@[k].return_type)
}

// ===== models: symbolic dimensions and privacy of `forward` =====

/// The position of the first function named `forward` in `fs[i..]`.
pub open spec fn first_forward(fs: Seq<FnDef>, i: int) -> Option<int>
    decreases fs.len() - i,
{
    if i < 0 || i >= fs.len() {
        None
    } else if fs[i].name@ == "forward"@ {
        Some(i)
    } else {
        first_forward(fs, i + 1)
    }
}

/// The name of a symbolic dimension.
pub open spec fn dim_sym(d: ShapeDim) -> Option<Seq<char>> {
    match d {
        ShapeDim::Sym(s) => Some(s@),
        _ => None,
    }
}

/// The symbolic dimensions of a tensor type, looking through privacy
/// labels.
pub open spec fn type_syms(t: Type) -> Set<Seq<char>>
    decreases t,
{
    match t {
        Type::Tensor { shape, .. } => Set::new(
            |x: Seq<char>| exists|i: int| 0 <= i < shape@.len() && #[trigger] dim_sym(shape@[i]) == Some(x),
        ),
        Type::Privacy(inner, _) => type_syms(*inner),
        _ => Set::empty(),
    }
}

pub open spec fn opt_type_syms(t: Option<Type>) -> Set<Seq<char>> {
    match t {
        Some(t) => type_syms(t),
        None => Set::empty(),
    }
}

/// The symbolic dimensions of the return type and the parameters of `f`.
pub open spec fn fn_syms(f: FnDef) -> Set<Seq<char>> {
    opt_type_syms(f.return_type).union(
        Set::new(|x: Seq<char>| exists|i: int| 0 <= i < f.params@.len() && #[trigger] type_syms(f.params@[i].ty).contains(x)),
    )
}

/// A parameter labelled with a differential-privacy budget.
pub open spec fn dp_param(p: Param) -> bool {
    p.ty matches Type::Privacy(_, PrivacyTag::Differential { .. })
}

/// The `eps` of the first differentially private parameter in `ps[i..]`.
pub open spec fn first_dp_eps(ps: Seq<Param>, i: int) -> Option<Seq<char>>
    decreases ps.len() - i,
{
    if i < 0 || i >= ps.len() {
        None
    } else {
        match ps[i].ty {
            Type::Privacy(_, PrivacyTag::Differential { eps, .. }) => Some(eps@),
            _ => first_dp_eps(ps, i + 1),
        }
    }
}

pub open spec fn hir_names(h: Seq<HirGenericParam>) -> Seq<Seq<char>> {
    h.map_values(|g: HirGenericParam| g.name@)
}

/// The names that the type checker reads off generic parameters are those
/// that the HIR builder gives them, in the same order.
pub proof fn law_generic_names_agree(g: Seq<GenericParam>, h: Seq<HirGenericParam>)
    requires
        generics_built(g, h),
    ensures
        hir_names(h) == crate::semantic::check_generic::param_names(g),
{
    assert(hir_names(h) =~= crate::semantic::check_generic::param_names(g));
}

pub open spec fn built_model(m: ModelDef, h: HirModel, types: Map<usize, Type>) -> bool {
    let fwd = first_forward(m.functions@, 0);
    &&& h.name@ == m.name@
    &&& sorted_texts(hir_names(h.generic_params@))
    &&& hir_names(h.generic_params@).to_set() == match fwd {
        Some(k) => fn_syms(m.functions@[k]),
        None => Set::empty(),
    }
    &&& forall|i: int| 0 <= i < h.generic_params@.len() ==> (#[trigger] h.generic_params@[i]).bounds@.len() == 0
    &&& model_fields_built(m.fields@, h.fields@)
    &&& fns_built(m.functions@, h.functions@, types, true)
    &&& h.sensitivity is None
    &&& h.training_context_required == match fwd {
        Some(k) => exists|i: int| 0 <= i < m.functions@[k].params@.len() && dp_param(#[trigger] m.functions@[k].params@[i]),
        None => false,
    }
    &&& crate::ast::opt_text(h.privacy_eps) == match fwd {
        Some(k) => first_dp_eps(m.functions@[k].params@, 0),
        None => None,
    }
}

} // verus!

verus! {

impl HirBuilder {
    /// Lowers a function; `in_model` says whether it belongs to a model.
    fn build_fn(f: &FnDef, expr_types: &HashMap<usize, Type>, in_model: bool) -> (r: Result<HirFn, String>)
        ensures
            r matches Ok(h) && built_fn(*f, h, expr_types@, in_model),
    {
        let params = build_params(&f.params);
        let body = match Self::build_block(&f.body, expr_types) {
            Ok(b) => b,
            Err(m) => return Err(m),
        };
        let return_type = crate::ast::duplicate_opt_type(&f.return_type);
        let effects = Self::merge_effects_from_block(&body);
        let sensitivity = None;
        let is_forward = same_text(f.name.as_str(), "forward") && in_model;
        Ok(
            HirFn {
                name: f.name.clone(),
                generic_params: Self::build_generic_params(f.generic_params.as_slice()),
                params,
                return_type,
                body,
                effects,
                sensitivity,
                is_forward,
            },
        )
    }

    /// Lowers each function of a list.
    fn build_fns(fns: &Vec<FnDef>, expr_types: &HashMap<usize, Type>, in_model: bool) -> (r: Result<
        Vec<HirFn>,
        String,
    >)
        ensures
            r matches Ok(v) && fns_built(fns@, v@, expr_types@, in_model),
    {
        let mut out: Vec<HirFn> = Vec::new();
        let mut i: usize = 0;
        while i < fns.len()
            invariant
                i <= fns@.len(),
                out@.len() == i,
                forall|j: int| 0 <= j < i ==> built_fn(fns@[j], #[trigger] out@[j], expr_types@, in_model),
            decreases fns.len() - i,
        {
            let h = match Self::build_fn(&fns[i], expr_types, in_model) {
                Ok(h) => h,
                Err(m) => return Err(m),
            };
            out.push(h);
            i += 1;
        }
        Ok(out)
    }

    fn build_struct(s: &StructDef) -> (r: Result<HirStruct, String>)
        ensures
            r matches Ok(h) && built_struct(*s, h),
    {
        let generic_params = Self::build_generic_params(s.generic_params.as_slice());
        let fields = build_struct_fields(&s.fields);
        let h = HirStruct { name: s.name.clone(), generic_params, fields };
        assert(generics_built(s.generic_params@, h.generic_params@));
        assert(struct_fields_built(s.fields@, h.fields@));
        Ok(h)
    }

    fn build_enum(e: &EnumDef) -> (r: Result<HirEnum, String>)
        ensures
            r matches Ok(h) && built_enum(*e, h),
    {
        let generic_params = Self::build_generic_params(e.generic_params.as_slice());
        let mut variants: Vec<HirEnumVariant> = Vec::new();
        let mut i: usize = 0;
        while i < e.variants.len()
            invariant
                i <= e.variants@.len(),
                variants@.len() == i,
                forall|j: int|
                    0 <= j < i ==> #[trigger] variants@[j].name@ == e.variants@[j].name@ && opt_type_model(
                        variants@[j].ty,
                    ) == opt_type_model(e.variants@[j].ty),
            decreases e.variants.len() - i,
        {
            variants.push(
                HirEnumVariant {
                    name: e.variants[i].name.clone(),
                    ty: crate::ast::duplicate_opt_type(&e.variants[i].ty),
                },
            );
            i += 1;
        }
        Ok(HirEnum { name: e.name.clone(), generic_params, variants })
    }

    fn build_proto(p: &ProtoDef) -> (r: Result<HirProto, String>)
        ensures
            r matches Ok(h) && built_proto(*p, h),
    {
        let mut variants: Vec<HirProtoVariant> = Vec::new();
        let mut i: usize = 0;
        while i < p.variants.len()
            invariant
                i <= p.variants@.len(),
                variants@.len() == i,
                forall|j: int|
                    0 <= j < i ==> #[trigger] variants@[j].name@ == p.variants@[j].name@ && opt_type_model(
                        variants@[j].ty,
                    ) == opt_type_model(p.variants@[j].ty),
            decreases p.variants.len() - i,
        {
            variants.push(
                HirProtoVariant {
                    name: p.variants[i].name.clone(),
                    ty: crate::ast::duplicate_opt_type(&p.variants[i].ty),
                },
            );
            i += 1;
        }
        Ok(HirProto { name: p.name.clone(), variants })
    }

    fn build_const(c: &ConstDef, expr_types: &HashMap<usize, Type>) -> (r: Result<HirConst, String>)
        ensures
            r matches Ok(h) && built_const(*c, h, expr_types@),
    {
        let value = match Self::build_expr(&c.value, expr_types) {
            Ok(v) => v,
            Err(m) => return Err(m),
        };
        Ok(HirConst { name: c.name.clone(), ty: c.ty.duplicate(), value })
    }

    fn build_implement(imp: &ImplementDef, expr_types: &HashMap<usize, Type>) -> (r: Result<
        HirImplement,
        String,
    >)
        ensures
            r matches Ok(h) && built_impl(*imp, h, expr_types@),
    {
        let functions = match Self::build_fns(&imp.functions, expr_types, false) {
            Ok(v) => v,
            Err(m) => return Err(m),
        };
        Ok(
            HirImplement {
                generic_params: Self::build_generic_params(imp.generic_params.as_slice()),
                target_type: imp.target_type.duplicate(),
                interface_name: crate::ast::duplicate_opt_string(&imp.interface_name),
                functions,
            },
        )
    }

    fn build_interface(iface: &InterfaceDef) -> (r: Result<HirInterface, String>)
        ensures
            r matches Ok(h) && built_iface(*iface, h),
    {
        let mut methods: Vec<HirFnSig> = Vec::new();
        let mut i: usize = 0;
        while i < iface.methods.len()
            invariant
                i <= iface.methods@.len(),
                methods@.len() == i,
                forall|k: int|
                    0 <= k < i ==> #[trigger] methods@[k].name@ == iface.methods@[k].name@
                        && generics_built(iface.methods@[k].generic_params@, methods@[k].generic_params@)
                        && params_built(iface.methods@[k].params@, methods@[k].params@)
                        && opt_type_model(methods@[k].return_type) == opt_type_model(
                        iface.methods@[k].return_type,
                    ),
            decreases iface.methods.len() - i,
        {
            let sig = &iface.methods[i];
            let h = HirFnSig {
                name: sig.name.clone(),
                generic_params: Self::build_generic_params(sig.generic_params.as_slice()),
                params: build_params(&sig.params),
                return_type: crate::ast::duplicate_opt_type(&sig.return_type),
            };
            assert(generics_built(sig.generic_params@, h.generic_params@));
            methods.push(h);
            i += 1;
        }
        Ok(
            HirInterface {
                name: iface.name.clone(),
                generic_params: Self::build_generic_params(iface.generic_params.as_slice()),
                methods,
            },
        )
    }

    /// Adds the symbolic dimensions of an optional type to `syms`.
    fn collect_syms_from_type(ty_opt: &Option<Type>, syms: &mut Vec<String>)
        requires
            sorted_texts(texts(old(syms)@)),
        ensures
            sorted_texts(texts(final(syms)@)),
            texts(final(syms)@).to_set() == texts(old(syms)@).to_set().union(opt_type_syms(*ty_opt)),
    {
        if let Some(ty) = ty_opt {
            Self::collect_syms_from_type_inner(ty, syms);
        } else {
            assert(texts(syms@).to_set() =~= texts(syms@).to_set().union(Set::empty()));
        }
    }

    /// Adds the symbolic dimensions of a tensor type, looking through
    /// privacy labels, to `syms`.
    fn collect_syms_from_type_inner(ty: &Type, syms: &mut Vec<String>)
        requires
            sorted_texts(texts(old(syms)@)),
        ensures
            sorted_texts(texts(final(syms)@)),
            texts(final(syms)@).to_set() == texts(old(syms)@).to_set().union(type_syms(*ty)),
        decreases ty,
    {
        match ty {
            Type::Tensor { shape, .. } => {
                let ghost start = texts(syms@).to_set();
                let mut i: usize = 0;
                while i < shape.len()
                    invariant
                        i <= shape@.len(),
                        sorted_texts(texts(syms@)),
                        texts(syms@).to_set() == start.union(
                            Set::new(
                                |x: Seq<char>|
                                    exists|j: int| 0 <= j < i && #[trigger] dim_sym(shape@[j]) == Some(x),
                            ),
                        ),
                    decreases shape.len() - i,
                {
                    let ghost before = texts(syms@).to_set();
                    if let ShapeDim::Sym(s) = &shape[i] {
                        insert_sorted(syms, s.clone());
                    }
                    proof {
                        let old_set = Set::new(
                            |x: Seq<char>| exists|j: int| 0 <= j < i && #[trigger] dim_sym(shape@[j]) == Some(x),
                        );
                        let new_set = Set::new(
                            |x: Seq<char>|
                                exists|j: int| 0 <= j < i + 1 && #[trigger] dim_sym(shape@[j]) == Some(x),
                        );
                        assert forall|x: Seq<char>| new_set.contains(x) == (old_set.contains(x) || dim_sym(
                            shape@[i as int],
                        ) == Some(x)) by {
                            if new_set.contains(x) {
                                let j = choose|j: int| 0 <= j < i + 1 && #[trigger] dim_sym(shape@[j]) == Some(x);
                                if j < i {
                                    assert(old_set.contains(x));
                                }
                            }
                            if old_set.contains(x) {
                                let j = choose|j: int| 0 <= j < i && #[trigger] dim_sym(shape@[j]) == Some(x);
                                assert(dim_sym(shape@[j]) == Some(x));
                            }
                            if dim_sym(shape@[i as int]) == Some(x) {
                                assert(dim_sym(shape@[i as int]) == Some(x));
                            }
                        }
                        assert(texts(syms@).to_set() =~= start.union(new_set));
                    }
                    i += 1;
                }
                proof {
                    assert(Set::new(
                        |x: Seq<char>|
                            exists|j: int| 0 <= j < i && #[trigger] dim_sym(shape@[j]) == Some(x),
                    ) =~= type_syms(*ty));
                }
            },
            Type::Privacy(inner, _) => Self::collect_syms_from_type_inner(inner, syms),
            _ => {
                assert(texts(syms@).to_set() =~= texts(syms@).to_set().union(Set::empty()));
            },
        }
    }
}

} // verus!

verus! {

/// The position of the first function named `forward`.
fn find_forward(fns: &Vec<FnDef>) -> (r: Option<usize>)
    ensures
        match r {
            Some(k) => first_forward(fns@, 0) == Some(k as int) && k < fns@.len(),
            None => first_forward(fns@, 0) is None,
        },
{
    let mut i: usize = 0;
    while i < fns.len()
        invariant
            i <= fns@.len(),
            first_forward(fns@, 0) == first_forward(fns@, i as int),
        decreases fns.len() - i,
    {
        if same_text(fns[i].name.as_str(), "forward") {
            return Some(i);
        }
        i += 1;
    }
    None
}

/// Whether some parameter carries a differential-privacy label.
fn any_dp_param(params: &Vec<Param>) -> (r: bool)
    ensures
        r == exists|i: int| 0 <= i < params@.len() && dp_param(#[trigger] params@[i]),
{
    let mut i: usize = 0;
    while i < params.len()
        invariant
            i <= params@.len(),
            forall|j: int| 0 <= j < i ==> !dp_param(#[trigger] params@[j]),
        decreases params.len() - i,
    {
        match &params[i].ty {
            Type::Privacy(_, PrivacyTag::Differential { .. }) => {
                assert(dp_param(params@[i as int]));
                return true;
            },
            _ => {},
        }
        i += 1;
    }
    false
}

/// The `eps` of the first differentially private parameter.
fn first_dp_eps_of(params: &Vec<Param>) -> (r: Option<String>)
    ensures
        crate::ast::opt_text(r) == first_dp_eps(params@, 0),
{
    let mut i: usize = 0;
    while i < params.len()
        invariant
            i <= params@.len(),
            first_dp_eps(params@, 0) == first_dp_eps(params@, i as int),
        decreases params.len() - i,
    {
        match &params[i].ty {
            Type::Privacy(_, PrivacyTag::Differential { eps, .. }) => {
                return Some(eps.clone());
            },
            _ => {},
        }
        i += 1;
    }
    None
}

impl HirBuilder {
    /// Lowers a model: its generic parameters are the symbolic dimensions
    /// of `forward`, sorted and without repeats; it needs a training
    /// context when a parameter of `forward` has a differential-privacy
    /// label, whose `eps` it records.
    fn build_model(m: &ModelDef, expr_types: &HashMap<usize, Type>) -> (r: Result<HirModel, String>)
        ensures
            r matches Ok(h) && built_model(*m, h, expr_types@),
    {
        let forward = find_forward(&m.functions);
        let mut syms: Vec<String> = Vec::new();
        assert(texts(syms@).to_set() =~= Set::empty());
        if let Some(k) = forward {
            let fwd = &m.functions[k];
            Self::collect_syms_from_type(&fwd.return_type, &mut syms);
            let mut i: usize = 0;
            while i < fwd.params.len()
                invariant
                    i <= fwd.params@.len(),
                    sorted_texts(texts(syms@)),
                    texts(syms@).to_set() == opt_type_syms(fwd.return_type).union(
                        Set::new(
                            |x: Seq<char>|
                                exists|j: int| 0 <= j < i && #[trigger] type_syms(fwd.params@[j].ty).contains(x),
                        ),
                    ),
                decreases fwd.params.len() - i,
            {
                let t = Some(fwd.params[i].ty.duplicate());
                Self::collect_syms_from_type(&t, &mut syms);
                proof {
                    assert(type_syms(t.unwrap()) == type_syms(fwd.params@[i as int].ty)) by {
                        lemma_type_syms_model(t.unwrap(), fwd.params@[i as int].ty);
                    }
                    let a = Set::new(
                        |x: Seq<char>|
                            exists|j: int| 0 <= j < i && #[trigger] type_syms(fwd.params@[j].ty).contains(x),
                    );
                    let b = Set::new(
                        |x: Seq<char>|
                            exists|j: int| 0 <= j < i + 1 && #[trigger] type_syms(fwd.params@[j].ty).contains(x),
                    );
                    assert(b =~= a.union(type_syms(fwd.params@[i as int].ty))) by {
                        assert forall|x: Seq<char>| b.contains(x) implies a.union(type_syms(fwd.params@[i as int].ty)).contains(x) by {
                            let j = choose|j: int| 0 <= j < i + 1 && #[trigger] type_syms(fwd.params@[j].ty).contains(x);
                            if j < i {
                                assert(a.contains(x));
                            }
                        }
                        assert forall|x: Seq<char>| a.contains(x) implies b.contains(x) by {
                            let j = choose|j: int| 0 <= j < i && #[trigger] type_syms(fwd.params@[j].ty).contains(x);
                            assert(type_syms(fwd.params@[j].ty).contains(x));
                        }
                        assert forall|x: Seq<char>| type_syms(fwd.params@[i as int].ty).contains(x) implies b.contains(x) by {
                            assert(type_syms(fwd.params@[i as int].ty).contains(x));
                        }
                    }
                    assert(texts(syms@).to_set() =~= opt_type_syms(fwd.return_type).union(b));
                }
                i += 1;
            }
        }
        let ghost names = texts(syms@);
        let mut generic_params: Vec<HirGenericParam> = Vec::new();
        let mut i: usize = 0;
        while i < syms.len()
            invariant
                i <= syms@.len(),
                names == texts(syms@),
                generic_params@.len() == i,
                forall|j: int| 0 <= j < i ==> #[trigger] generic_params@[j].name@ == names[j] && generic_params@[j].bounds@.len() == 0,
            decreases syms.len() - i,
        {
            generic_params.push(HirGenericParam { name: syms[i].clone(), bounds: Vec::new() });
            i += 1;
        }
        assert(hir_names(generic_params@) =~= names);
        let fields = build_model_fields(&m.fields);
        let functions = match Self::build_fns(&m.functions, expr_types, true) {
            Ok(v) => v,
            Err(e) => return Err(e),
        };
        let training_context_required = match forward {
            Some(k) => any_dp_param(&m.functions[k].params),
            None => false,
        };
        let privacy_eps = match forward {
            Some(k) => first_dp_eps_of(&m.functions[k].params),
            None => None,
        };
        let h = HirModel {
            name: m.name.clone(),
            generic_params,
            fields,
            functions,
            sensitivity: None,
            training_context_required,
            privacy_eps,
        };
        proof {
            let fwd = first_forward(m.functions@, 0);
            assert(sorted_texts(hir_names(h.generic_params@)));
            assert(hir_names(h.generic_params@).to_set() == match fwd {
                Some(k) => fn_syms(m.functions@[k]),
                None => Set::empty(),
            });
            assert forall|i: int| 0 <= i < h.generic_params@.len() implies (#[trigger] h.generic_params@[i]).bounds@.len() == 0 by {
                assert(h.generic_params@[i].name@ == names[i]);
            }
            assert(h.training_context_required == match fwd {
                Some(k) => exists|i: int| 0 <= i < m.functions@[k].params@.len() && dp_param(#[trigger] m.functions@[k].params@[i]),
                None => false,
            });
        }
        Ok(h)
    }
}

/// Types with the same model have the same symbolic dimensions.
proof fn lemma_type_syms_model(a: Type, b: Type)
    requires
        a@ == b@,
    ensures
        type_syms(a) == type_syms(b),
    decreases a,
{
    match (a, b) {
        (Type::Tensor { shape: s1, .. }, Type::Tensor { shape: s2, .. }) => {
            assert(crate::ast::shapes_model(s1@) == crate::ast::shapes_model(s2@));
            assert forall|i: int| 0 <= i < s1@.len() implies dim_sym(s1@[i]) == dim_sym(s2@[i]) by {
                assert(crate::ast::shapes_model(s1@)[i] == crate::ast::shapes_model(s2@)[i]);
            }
            assert(type_syms(a) =~= type_syms(b));
        },
        (Type::Privacy(i1, _), Type::Privacy(i2, _)) => lemma_type_syms_model(*i1, *i2),
        _ => {},
    }
}

} // verus!

verus! {

// ===== the program =====

/// The `ModelDef` items among `items[..n]`, in order.
pub open spec fn items_models(items: Seq<Item>, n: int) -> Seq<ModelDef>
    decreases n,
{
    if n <= 0 || n > items.len() {
        seq![]
    } else {
        items_models(items, n - 1) + match items[n - 1] {
            Item::ModelDef(x) => seq![x],
            _ => seq![],
        }
    }
}

/// The `FnDef` items among `items[..n]`, in order.
pub open spec fn items_fns(items: Seq<Item>, n: int) -> Seq<FnDef>
    decreases n,
{
    if n <= 0 || n > items.len() {
        seq![]
    } else {
        items_fns(items, n - 1) + match items[n - 1] {
            Item::FnDef(x) => seq![x],
            _ => seq![],
        }
    }
}

/// The `StructDef` items among `items[..n]`, in order.
pub open spec fn items_structs(items: Seq<Item>, n: int) -> Seq<StructDef>
    decreases n,
{
    if n <= 0 || n > items.len() {
        seq![]
    } else {
        items_structs(items, n - 1) + match items[n - 1] {
            Item::StructDef(x) => seq![x],
            _ => seq![],
        }
    }
}

/// The `EnumDef` items among `items[..n]`, in order.
pub open spec fn items_enums(items: Seq<Item>, n: int) -> Seq<EnumDef>
    decreases n,
{
    if n <= 0 || n > items.len() {
        seq![]
    } else {
        items_enums(items, n - 1) + match items[n - 1] {
            Item::EnumDef(x) => seq![x],
            _ => seq![],
        }
    }
}

/// The `ConstDef` items among `items[..n]`, in order.
pub open spec fn items_consts(items: Seq<Item>, n: int) -> Seq<ConstDef>
    decreases n,
{
    if n <= 0 || n > items.len() {
        seq![]
    } else {
        items_consts(items, n - 1) + match items[n - 1] {
            Item::ConstDef(x) => seq![x],
            _ => seq![],
        }
    }
}

/// The `ProtoDef` items among `items[..n]`, in order.
pub open spec fn items_protos(items: Seq<Item>, n: int) -> Seq<ProtoDef>
    decreases n,
{
    if n <= 0 || n > items.len() {
        seq![]
    } else {
        items_protos(items, n - 1) + match items[n - 1] {
            Item::ProtoDef(x) => seq![x],
            _ => seq![],
        }
    }
}

/// The `ImplementDef` items among `items[..n]`, in order.
pub open spec fn items_impls(items: Seq<Item>, n: int) -> Seq<ImplementDef>
    decreases n,
{
    if n <= 0 || n > items.len() {
        seq![]
    } else {
        items_impls(items, n - 1) + match items[n - 1] {
            Item::Implement(x) => seq![x],
            _ => seq![],
        }
    }
}

/// The `InterfaceDef` items among `items[..n]`, in order.
pub open spec fn items_interfaces(items: Seq<Item>, n: int) -> Seq<InterfaceDef>
    decreases n,
{
    if n <= 0 || n > items.len() {
        seq![]
    } else {
        items_interfaces(items, n - 1) + match items[n - 1] {
            Item::Interface(x) => seq![x],
            _ => seq![],
        }
    }
}

/// `h` is the HIR of the program: each kind of item in its own list, in
/// the order of the program; `use` items are left out.
pub open spec fn built_program(p: Program, h: HirProgram, types: Map<usize, Type>) -> bool {
    let n = p.items@.len() as int;
    &&& h.models@.len() == items_models(p.items@, n).len()
    &&& forall|i: int| 0 <= i < h.models@.len() ==> #[trigger] built_model(items_models(p.items@, n)[i], h.models@[i], types)
    &&& h.fns@.len() == items_fns(p.items@, n).len()
    &&& forall|i: int| 0 <= i < h.fns@.len() ==> #[trigger] built_fn(items_fns(p.items@, n)[i], h.fns@[i], types, false)
    &&& h.structs@.len() == items_structs(p.items@, n).len()
    &&& forall|i: int| 0 <= i < h.structs@.len() ==> #[trigger] built_struct(items_structs(p.items@, n)[i], h.structs@[i])
    &&& h.enums@.len() == items_enums(p.items@, n).len()
    &&& forall|i: int| 0 <= i < h.enums@.len() ==> #[trigger] built_enum(items_enums(p.items@, n)[i], h.enums@[i])
    &&& h.consts@.len() == items_consts(p.items@, n).len()
    &&& forall|i: int| 0 <= i < h.consts@.len() ==> #[trigger] built_const(items_consts(p.items@, n)[i], h.consts@[i], types)
    &&& h.protos@.len() == items_protos(p.items@, n).len()
    &&& forall|i: int| 0 <= i < h.protos@.len() ==> #[trigger] built_proto(items_protos(p.items@, n)[i], h.protos@[i])
    &&& h.impls@.len() == items_impls(p.items@, n).len()
    &&& forall|i: int| 0 <= i < h.impls@.len() ==> #[trigger] built_impl(items_impls(p.items@, n)[i], h.impls@[i], types)
    &&& h.interfaces@.len() == items_interfaces(p.items@, n).len()
    &&& forall|i: int| 0 <= i < h.interfaces@.len() ==> #[trigger] built_iface(items_interfaces(p.items@, n)[i], h.interfaces@[i])
}

impl HirBuilder {
    /// Lowers a program, item by item.
    pub fn build(program: &Program, expr_types: &HashMap<usize, Type>) -> (r: Result<HirProgram, String>)
        ensures
            r matches Ok(h) && built_program(*program, h, expr_types@),
    {
        let ghost types = expr_types@;
        let mut models: Vec<HirModel> = Vec::new();
        let mut fns: Vec<HirFn> = Vec::new();
        let mut structs: Vec<HirStruct> = Vec::new();
        let mut enums: Vec<HirEnum> = Vec::new();
        let mut consts: Vec<HirConst> = Vec::new();
        let mut protos: Vec<HirProto> = Vec::new();
        let mut impls: Vec<HirImplement> = Vec::new();
        let mut interfaces: Vec<HirInterface> = Vec::new();
        let mut i: usize = 0;
        while i < program.items.len()
            invariant
                i <= program.items@.len(),
                types == expr_types@,
                models@.len() == items_models(program.items@, i as int).len(),
                forall|j: int| 0 <= j < models@.len() ==> #[trigger] built_model(items_models(program.items@, i as int)[j], models@[j], types),
                fns@.len() == items_fns(program.items@, i as int).len(),
                forall|j: int| 0 <= j < fns@.len() ==> #[trigger] built_fn(items_fns(program.items@, i as int)[j], fns@[j], types, false),
                structs@.len() == items_structs(program.items@, i as int).len(),
                forall|j: int| 0 <= j < structs@.len() ==> #[trigger] built_struct(items_structs(program.items@, i as int)[j], structs@[j]),
                enums@.len() == items_enums(program.items@, i as int).len(),
                forall|j: int| 0 <= j < enums@.len() ==> #[trigger] built_enum(items_enums(program.items@, i as int)[j], enums@[j]),
                consts@.len() == items_consts(program.items@, i as int).len(),
                forall|j: int| 0 <= j < consts@.len() ==> #[trigger] built_const(items_consts(program.items@, i as int)[j], consts@[j], types),
                protos@.len() == items_protos(program.items@, i as int).len(),
                forall|j: int| 0 <= j < protos@.len() ==> #[trigger] built_proto(items_protos(program.items@, i as int)[j], protos@[j]),
                impls@.len() == items_impls(program.items@, i as int).len(),
                forall|j: int| 0 <= j < impls@.len() ==> #[trigger] built_impl(items_impls(program.items@, i as int)[j], impls@[j], types),
                interfaces@.len() == items_interfaces(program.items@, i as int).len(),
                forall|j: int| 0 <= j < interfaces@.len() ==> #[trigger] built_iface(items_interfaces(program.items@, i as int)[j], interfaces@[j]),
            decreases program.items.len() - i,
        {
            match &program.items[i] {
                Item::ModelDef(m) => {
                    let h = match Self::build_model(m, expr_types) {
                        Ok(h) => h,
                        Err(m) => return Err(m),
                    };
                    models.push(h);
                },
                Item::FnDef(f) => {
                    let h = match Self::build_fn(f, expr_types, false) {
                        Ok(h) => h,
                        Err(m) => return Err(m),
                    };
                    fns.push(h);
                },
                Item::StructDef(s) => {
                    let h = match Self::build_struct(s) {
                        Ok(h) => h,
                        Err(m) => return Err(m),
                    };
                    structs.push(h);
                },
                Item::EnumDef(e) => {
                    let h = match Self::build_enum(e) {
                        Ok(h) => h,
                        Err(m) => return Err(m),
                    };
                    enums.push(h);
                },
                Item::ConstDef(c) => {
                    let h = match Self::build_const(c, expr_types) {
                        Ok(h) => h,
                        Err(m) => return Err(m),
                    };
                    consts.push(h);
                },
                Item::ProtoDef(p) => {
                    let h = match Self::build_proto(p) {
                        Ok(h) => h,
                        Err(m) => return Err(m),
                    };
                    protos.push(h);
                },
                Item::Implement(imp) => {
                    let h = match Self::build_implement(imp, expr_types) {
                        Ok(h) => h,
                        Err(m) => return Err(m),
                    };
                    impls.push(h);
                },
                Item::Interface(iface) => {
                    let h = match Self::build_interface(iface) {
                        Ok(h) => h,
                        Err(m) => return Err(m),
                    };
                    interfaces.push(h);
                },
                Item::Use(_) => {},
            }
            proof {
                let k = i as int;
                assert(items_models(program.items@, k + 1) =~= items_models(program.items@, k) + match program.items@[k] { Item::ModelDef(x) => seq![x], _ => seq![] });
                assert(items_fns(program.items@, k + 1) =~= items_fns(program.items@, k) + match program.items@[k] { Item::FnDef(x) => seq![x], _ => seq![] });
                assert(items_structs(program.items@, k + 1) =~= items_structs(program.items@, k) + match program.items@[k] { Item::StructDef(x) => seq![x], _ => seq![] });
                assert(items_enums(program.items@, k + 1) =~= items_enums(program.items@, k) + match program.items@[k] { Item::EnumDef(x) => seq![x], _ => seq![] });
                assert(items_consts(program.items@, k + 1) =~= items_consts(program.items@, k) + match program.items@[k] { Item::ConstDef(x) => seq![x], _ => seq![] });
                assert(items_protos(program.items@, k + 1) =~= items_protos(program.items@, k) + match program.items@[k] { Item::ProtoDef(x) => seq![x], _ => seq![] });
                assert(items_impls(program.items@, k + 1) =~= items_impls(program.items@, k) + match program.items@[k] { Item::Implement(x) => seq![x], _ => seq![] });
                assert(items_interfaces(program.items@, k + 1) =~= items_interfaces(program.items@, k) + match program.items@[k] { Item::Interface(x) => seq![x], _ => seq![] });
            }
            i += 1;
        }
        Ok(HirProgram { models, fns, structs, enums, consts, protos, impls, interfaces })
    }
}

} // verus!
