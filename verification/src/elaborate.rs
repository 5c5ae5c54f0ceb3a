//! Elaboration of the HIR: `for` loops become a `loop` over an iterator,
//! and `try(x)` (the `?` operator) becomes a `match` that returns early.
use vstd::prelude::*;
use vstd::string::*;
use crate::ast::{Literal, Pattern, Type, TypeModel, duplicate_opt_type, opt_type_model, opt_tag_model};
use crate::hir::{
    EffectSet, HirBlock, HirCallArg, HirExpr, HirExprKind, HirFn, HirImplement, HirMatchArm,
    HirModel, HirProgram, HirStmt, Sensitivity, Span, no_effects, union_all,
};
use crate::text::{decimal_text, push_decimal, same_text};

verus! {

// ===== what elaboration rewrites =====

/// A call `try(x)`: unqualified, not a method, with one argument.
pub open spec fn is_try_call(e: HirExpr) -> bool {
    match e.kind {
        HirExprKind::Call { qualifier, func, args, is_method, .. } => {
            &&& qualifier is None
            &&& !is_method
            &&& func@ == "try"@
            &&& args@.len() == 1
        },
        _ => false,
    }
}

/// The argument of a `try` call.
pub open spec fn try_arg(e: HirExpr) -> HirExpr {
    match e.kind {
        HirExprKind::Call { args, .. } => match args@[0] {
            HirCallArg::Positional(x) => x,
            HirCallArg::Named(_, x) => x,
        },
        _ => e,
    }
}

/// Elaboration meets a `try` call in `e`: at `e` itself, or in any part of
/// it.
pub open spec fn meets_try_expr(e: HirExpr) -> bool
    decreases e, 0int,
{
    if is_try_call(e) {
        true
    } else {
        match e.kind {
            HirExprKind::Literal(_) => false,
            HirExprKind::Ident(_) => false,
            HirExprKind::Sym(_) => false,
            HirExprKind::BinaryOp { left, right, .. } => meets_try_expr(*left) || meets_try_expr(*right),
            HirExprKind::Call { args, .. } => meets_try_args(args@, 0),
            HirExprKind::Block(b) => meets_try_block(b),
            HirExprKind::StructInit { fields, .. } => meets_try_fields(fields@, 0),
            HirExprKind::FieldAccess { struct_expr, .. } => meets_try_expr(*struct_expr),
            HirExprKind::Range { start, end } => meets_try_expr(*start) || meets_try_expr(*end),
            HirExprKind::EnumVariantAccess { .. } => false,
            HirExprKind::EnumVariantConstruction { args, .. } => meets_try_args(args@, 0),
            HirExprKind::Match { cond, arms } => meets_try_expr(*cond) || meets_try_arms(arms@, 0),
            HirExprKind::Closure { body, .. } => meets_try_expr(*body),
            HirExprKind::If { cond, then_expr, else_expr, .. } => meets_try_expr(*cond) || meets_try_expr(*then_expr) || match else_expr {
                Some(x) => meets_try_expr(*x),
                None => false,
            },
            HirExprKind::ArrayLiteral(es) => meets_try_exprs(es@, 0),
            HirExprKind::UnsafeBlock { body, .. } => meets_try_block(body),
            HirExprKind::Unary { expr, .. } => meets_try_expr(*expr),
            HirExprKind::Cast { expr, .. } => meets_try_expr(*expr),
            HirExprKind::Index { expr, index } => meets_try_expr(*expr) || meets_try_expr(*index),
            HirExprKind::LackSlice(_) => false,
        }
    }
}

pub open spec fn meets_try_block(b: HirBlock) -> bool
    decreases b, 0int,
{
    meets_try_stmts(b.stmts@, 0)
}

pub open spec fn meets_try_stmt(s: HirStmt) -> bool
    decreases s, 0int,
{
    match s {
        HirStmt::Let { init, .. } => meets_try_expr(init),
        HirStmt::Expr { expr, .. } => meets_try_expr(expr),
        HirStmt::Return { expr, .. } => match expr {
            Some(x) => meets_try_expr(x),
            None => false,
        },
        HirStmt::While { cond, body, .. } => meets_try_expr(cond) || meets_try_block(body),
        HirStmt::For { iterable, body, .. } => meets_try_expr(iterable) || meets_try_block(body),
        HirStmt::Assign { target, expr, .. } => meets_try_expr(*target) || meets_try_expr(expr),
        HirStmt::Loop { body, .. } => meets_try_block(body),
        HirStmt::Break { .. } => false,
        HirStmt::UnsafeBlock { body, .. } => meets_try_block(body),
    }
}

pub open spec fn meets_try_stmts(s: Seq<HirStmt>, i: int) -> bool
    decreases s, s.len() - i,
{
    if 0 <= i < s.len() {
        (meets_try_stmt(s[i])) || meets_try_stmts(s, i + 1)
    } else {
        false
    }
}

pub open spec fn meets_try_args(s: Seq<HirCallArg>, i: int) -> bool
    decreases s, s.len() - i,
{
    if 0 <= i < s.len() {
        (match s[i] {
            HirCallArg::Positional(x) => meets_try_expr(x),
            HirCallArg::Named(_, x) => meets_try_expr(x),
        }) || meets_try_args(s, i + 1)
    } else {
        false
    }
}

pub open spec fn meets_try_arms(s: Seq<HirMatchArm>, i: int) -> bool
    decreases s, s.len() - i,
{
    if 0 <= i < s.len() {
        (meets_try_expr(s[i].expr)) || meets_try_arms(s, i + 1)
    } else {
        false
    }
}

pub open spec fn meets_try_fields(s: Seq<(String, HirExpr)>, i: int) -> bool
    decreases s, s.len() - i,
{
    if 0 <= i < s.len() {
        (meets_try_expr(s[i].1)) || meets_try_fields(s, i + 1)
    } else {
        false
    }
}

pub open spec fn meets_try_exprs(s: Seq<HirExpr>, i: int) -> bool
    decreases s, s.len() - i,
{
    if 0 <= i < s.len() {
        (meets_try_expr(s[i])) || meets_try_exprs(s, i + 1)
    } else {
        false
    }
}

/// The number of fresh names that elaborating `e` draws: one per `for`,
/// and `k` per `try`.
pub open spec fn temps_expr(e: HirExpr, k: nat) -> nat
    decreases e, 0int,
{
    if is_try_call(e) {
        match e.kind {
            HirExprKind::Call { args, .. } => if args@.len() == 1 {
                match args@[0] {
                    HirCallArg::Positional(x) => temps_expr(x, k) + k,
                    HirCallArg::Named(_, x) => temps_expr(x, k) + k,
                }
            } else {
                k
            },
            _ => k,
        }
    } else {
        match e.kind {
            HirExprKind::Literal(_) => 0,
            HirExprKind::Ident(_) => 0,
            HirExprKind::Sym(_) => 0,
            HirExprKind::BinaryOp { left, right, .. } => temps_expr(*left, k) + temps_expr(*right, k),
            HirExprKind::Call { args, .. } => temps_args(args@, 0, k),
            HirExprKind::Block(b) => temps_block(b, k),
            HirExprKind::StructInit { fields, .. } => temps_fields(fields@, 0, k),
            HirExprKind::FieldAccess { struct_expr, .. } => temps_expr(*struct_expr, k),
            HirExprKind::Range { start, end } => temps_expr(*start, k) + temps_expr(*end, k),
            HirExprKind::EnumVariantAccess { .. } => 0,
            HirExprKind::EnumVariantConstruction { args, .. } => temps_args(args@, 0, k),
            HirExprKind::Match { cond, arms } => temps_expr(*cond, k) + temps_arms(arms@, 0, k),
            HirExprKind::Closure { body, .. } => temps_expr(*body, k),
            HirExprKind::If { cond, then_expr, else_expr, .. } => temps_expr(*cond, k) + temps_expr(*then_expr, k) + match else_expr {
                Some(x) => temps_expr(*x, k),
                None => 0,
            },
            HirExprKind::ArrayLiteral(es) => temps_exprs(es@, 0, k),
            HirExprKind::UnsafeBlock { body, .. } => temps_block(body, k),
            HirExprKind::Unary { expr, .. } => temps_expr(*expr, k),
            HirExprKind::Cast { expr, .. } => temps_expr(*expr, k),
            HirExprKind::Index { expr, index } => temps_expr(*expr, k) + temps_expr(*index, k),
            HirExprKind::LackSlice(_) => 0,
        }
    }
}

pub open spec fn temps_block(b: HirBlock, k: nat) -> nat
    decreases b, 0int,
{
    temps_stmts(b.stmts@, 0, k)
}

pub open spec fn temps_stmt(s: HirStmt, k: nat) -> nat
    decreases s, 0int,
{
    match s {
        HirStmt::Let { init, .. } => temps_expr(init, k),
        HirStmt::Expr { expr, .. } => temps_expr(expr, k),
        HirStmt::Return { expr, .. } => match expr {
            Some(x) => temps_expr(x, k),
            None => 0,
        },
        HirStmt::While { cond, body, .. } => temps_expr(cond, k) + temps_block(body, k),
        HirStmt::For { iterable, body, .. } => temps_expr(iterable, k) + temps_block(body, k) + 1,
        HirStmt::Assign { target, expr, .. } => temps_expr(*target, k) + temps_expr(expr, k),
        HirStmt::Loop { body, .. } => temps_block(body, k),
        HirStmt::Break { .. } => 0,
        HirStmt::UnsafeBlock { body, .. } => temps_block(body, k),
    }
}

pub open spec fn temps_stmts(s: Seq<HirStmt>, i: int, k: nat) -> nat
    decreases s, s.len() - i,
{
    if 0 <= i < s.len() {
        (temps_stmt(s[i], k)) + temps_stmts(s, i + 1, k)
    } else {
        0
    }
}

pub open spec fn temps_args(s: Seq<HirCallArg>, i: int, k: nat) -> nat
    decreases s, s.len() - i,
{
    if 0 <= i < s.len() {
        (match s[i] {
            HirCallArg::Positional(x) => temps_expr(x, k),
            HirCallArg::Named(_, x) => temps_expr(x, k),
        }) + temps_args(s, i + 1, k)
    } else {
        0
    }
}

pub open spec fn temps_arms(s: Seq<HirMatchArm>, i: int, k: nat) -> nat
    decreases s, s.len() - i,
{
    if 0 <= i < s.len() {
        (temps_expr(s[i].expr, k)) + temps_arms(s, i + 1, k)
    } else {
        0
    }
}

pub open spec fn temps_fields(s: Seq<(String, HirExpr)>, i: int, k: nat) -> nat
    decreases s, s.len() - i,
{
    if 0 <= i < s.len() {
        (temps_expr(s[i].1, k)) + temps_fields(s, i + 1, k)
    } else {
        0
    }
}

pub open spec fn temps_exprs(s: Seq<HirExpr>, i: int, k: nat) -> nat
    decreases s, s.len() - i,
{
    if 0 <= i < s.len() {
        (temps_expr(s[i], k)) + temps_exprs(s, i + 1, k)
    } else {
        0
    }
}
// ===== the function being elaborated =====

/// The name of the generic type that a function returns, if it returns one.
pub open spec fn ret_generic(ret: Option<TypeModel>) -> Option<Seq<char>> {
    match ret {
        Some(TypeModel::Generic(n, _)) => Some(n),
        _ => None,
    }
}

pub open spec fn returns_result(ret: Option<TypeModel>) -> bool {
    ret_generic(ret) == Some("Result"@)
}

pub open spec fn returns_option(ret: Option<TypeModel>) -> bool {
    ret_generic(ret) == Some("Option"@)
}

/// `try` may be used in a function returning `Result` or `Option`.
pub open spec fn supports_try_in(ret: Option<TypeModel>) -> bool {
    returns_result(ret) || returns_option(ret)
}

/// The fresh names one `try` draws: the temporary, and for `Result` also
/// the error's.
pub open spec fn try_cost(ret: Option<TypeModel>) -> nat {
    if returns_result(ret) {
        2
    } else if returns_option(ret) {
        1
    } else {
        0
    }
}

/// The `n`-th fresh name.
pub open spec fn fresh_name(n: nat) -> Seq<char> {
    "__elab_"@ + decimal_text(n)
}

/// Fresh names drawn at different counter values differ, so the
/// temporaries that elaboration introduces never collide with each other.
pub proof fn law_fresh_names_distinct(a: nat, b: nat)
    requires
        a != b,
    ensures
        fresh_name(a) != fresh_name(b),
{
    reveal_strlit("__elab_");
    assert("__elab_"@.len() == 7);
    if fresh_name(a) == fresh_name(b) {
        assert(fresh_name(a).skip(7) =~= decimal_text(a));
        assert(fresh_name(b).skip(7) =~= decimal_text(b));
        crate::text::law_decimal_text_injective(a, b);
    }
}

/// The error type `E` of a function returning `Result<T, E>`.
pub open spec fn result_error_type(ret: Option<TypeModel>) -> TypeModel {
    match ret {
        Some(TypeModel::Generic(n, args)) => if n == "Result"@ && args.len() == 2 {
            args[1]
        } else {
            TypeModel::Never
        },
        _ => TypeModel::Never,
    }
}

/// The value type that `try` yields: `T` of `Result<T, E>` or `Option<T>`.
pub open spec fn try_value_type(ret: Option<TypeModel>) -> TypeModel {
    match ret {
        Some(TypeModel::Generic(n, args)) => if n == "Result"@ && args.len() == 2 {
            args[0]
        } else if n == "Option"@ && args.len() == 1 {
            args[0]
        } else {
            TypeModel::Never
        },
        _ => TypeModel::Never,
    }
}

/// The text of a function's return type in error messages.
pub open spec fn return_type_debug(ret: Option<TypeModel>) -> Seq<char> {
    crate::show::opt_type_text(ret)
}

fn debug_return_type(ret: &Option<Type>) -> (r: String)
    ensures
        r@ == return_type_debug(opt_type_model(*ret)),
{
    crate::show::opt_type_string(ret)
}

/// The error for a `try` in a function that returns neither `Result` nor
/// `Option`.
pub open spec fn try_error_text(ret: Option<TypeModel>) -> Seq<char> {
    "`?` cannot be used in a function that returns "@ + return_type_debug(ret)
        + "; only functions returning `Result<T, E>` or `Option<T>` support `?`"@
}

/// Elaboration succeeds unless it meets a `try` where `try` is not allowed.
pub open spec fn elab_ok(meets: bool, ret: Option<TypeModel>) -> bool {
    !(meets && !supports_try_in(ret))
}

pub open spec fn elem_type(t: TypeModel) -> TypeModel
    decreases t,
{
    match t {
        TypeModel::Generic(_, args) => if args.len() == 1 {
            args[0]
        } else {
            TypeModel::Never
        },
        TypeModel::Ref { inner, .. } => elem_type(*inner),
        TypeModel::Slice(inner) => *inner,
        _ => TypeModel::Never,
    }
}

/// The element type of a container: `T` of a one-argument generic, of a
/// slice, or behind a reference; `!` for anything else.
pub fn extract_elem_type(ty: &Type) -> (r: Type)
    ensures
        r@ == elem_type(ty@),
    decreases ty,
{
    match ty {
        Type::Generic(_, args) => {
            if args.len() == 1 {
                assert(ty@->Generic_1[0] == args@[0]@);
                args[0].duplicate()
            } else {
                assert(ty@->Generic_1.len() == args@.len());
                Type::Never
            }
        },
        Type::Ref { inner, .. } => extract_elem_type(inner),
        Type::Slice(inner) => inner.duplicate(),
        _ => Type::Never,
    }
}

pub open spec fn enum_pattern(p: Pattern, e: Seq<char>, v: Seq<char>) -> bool {
    p matches Pattern::EnumVariant { enum_name, variant_name } && enum_name@ == e && variant_name@ == v
}

pub open spec fn binding_pattern(p: Pattern, e: Seq<char>, v: Seq<char>, b: Seq<char>) -> bool {
    p matches Pattern::EnumVariantWithBinding { enum_name, variant_name, binding }
        && enum_name@ == e && variant_name@ == v && binding@ == b
}

/// `Some(binding)`.
pub fn some_pattern(binding: &str) -> (r: Pattern)
    ensures
        binding_pattern(r, "Option"@, "Some"@, binding@),
{
    Pattern::EnumVariantWithBinding {
        enum_name: String::from_str("Option"),
        variant_name: String::from_str("Some"),
        binding: String::from_str(binding),
    }
}

/// `None`.
pub fn none_pattern() -> (r: Pattern)
    ensures
        enum_pattern(r, "Option"@, "None"@),
{
    Pattern::EnumVariant {
        enum_name: String::from_str("Option"),
        variant_name: String::from_str("None"),
    }
}

/// `Ok(binding)`.
pub fn ok_pattern(binding: &str) -> (r: Pattern)
    ensures
        binding_pattern(r, "Result"@, "Ok"@, binding@),
{
    Pattern::EnumVariantWithBinding {
        enum_name: String::from_str("Result"),
        variant_name: String::from_str("Ok"),
        binding: String::from_str(binding),
    }
}

/// `Err(binding)`.
pub fn err_pattern(binding: &str) -> (r: Pattern)
    ensures
        binding_pattern(r, "Result"@, "Err"@, binding@),
{
    Pattern::EnumVariantWithBinding {
        enum_name: String::from_str("Result"),
        variant_name: String::from_str("Err"),
        binding: String::from_str(binding),
    }
}

fn duplicate_opt_tag(t: &Option<crate::ast::PrivacyTag>) -> (r: Option<crate::ast::PrivacyTag>)
    ensures
        opt_tag_model(r) == opt_tag_model(*t),
{
    match t {
        Some(t) => Some(t.duplicate()),
        None => None,
    }
}

/// The state of elaboration within one function: its return type, and the
/// counter of fresh names.
pub struct ElaborateContext {
    pub return_ty: Option<Type>,
    pub temp_counter: usize,
}

impl ElaborateContext {
    pub open spec fn ret(&self) -> Option<TypeModel> {
        opt_type_model(self.return_ty)
    }

    pub open spec fn cost(&self) -> nat {
        try_cost(self.ret())
    }

    pub fn new(return_ty: Option<Type>) -> (r: Self)
        ensures
            r.return_ty == return_ty,
            r.temp_counter == 0,
    {
        ElaborateContext { return_ty, temp_counter: 0 }
    }

    /// A fresh name: `__elab_` followed by the counter, which then advances.
    pub fn next_temp(&mut self) -> (r: String)
        requires
            old(self).temp_counter < usize::MAX,
        ensures
            r@ == fresh_name(old(self).temp_counter as nat),
            final(self).temp_counter == old(self).temp_counter + 1,
            final(self).return_ty == old(self).return_ty,
    {
        let id = self.temp_counter;
        self.temp_counter += 1;
        let mut s = String::from_str("__elab_");
        push_decimal(&mut s, id);
        s
    }

    /// Whether the function returns `Result` or `Option`.
    pub fn supports_try(&self) -> (r: bool)
        ensures
            r == supports_try_in(self.ret()),
    {
        match &self.return_ty {
            Some(Type::Generic(name, _)) => same_text(name.as_str(), "Result") || same_text(
                name.as_str(),
                "Option",
            ),
            _ => false,
        }
    }

    pub fn is_result(&self) -> (r: bool)
        ensures
            r == returns_result(self.ret()),
    {
        match &self.return_ty {
            Some(Type::Generic(name, _)) => same_text(name.as_str(), "Result"),
            _ => false,
        }
    }

    pub fn is_option(&self) -> (r: bool)
        ensures
            r == returns_option(self.ret()),
    {
        match &self.return_ty {
            Some(Type::Generic(name, _)) => same_text(name.as_str(), "Option"),
            _ => false,
        }
    }

    /// `E` of a `Result<T, E>` return type; `!` otherwise.
    pub fn error_type(&self) -> (r: Type)
        ensures
            r@ == result_error_type(self.ret()),
    {
        match &self.return_ty {
            Some(Type::Generic(name, args)) => {
                let ghost t = self.return_ty.unwrap();
                assert(t@->Generic_1 =~= crate::ast::types_model(args@));
                if same_text(name.as_str(), "Result") && args.len() == 2 {
                    args[1].duplicate()
                } else {
                    Type::Never
                }
            },
            _ => Type::Never,
        }
    }

    /// `T` of a `Result<T, E>` or `Option<T>` return type; `!` otherwise.
    pub fn value_type(&self) -> (r: Type)
        ensures
            r@ == try_value_type(self.ret()),
    {
        match &self.return_ty {
            Some(Type::Generic(name, args)) => {
                let ghost t = self.return_ty.unwrap();
                assert(t@->Generic_1 =~= crate::ast::types_model(args@));
                if same_text(name.as_str(), "Result") && args.len() == 2 {
                    args[0].duplicate()
                } else if same_text(name.as_str(), "Option") && args.len() == 1 {
                    args[0].duplicate()
                } else {
                    Type::Never
                }
            },
            _ => Type::Never,
        }
    }

    /// A synthesized expression: no privacy label, unknown sensitivity.
    pub fn mk_expr(&self, kind: HirExprKind, ty: Type, effects: EffectSet, span: Span) -> (r: HirExpr)
        ensures
            r == (HirExpr {
                kind,
                ty,
                privacy_tag: None,
                sensitivity: Sensitivity::Unknown,
                effects,
                span,
            }),
    {
        HirExpr { kind, ty, privacy_tag: None, sensitivity: Sensitivity::Unknown, effects, span }
    }

    /// A synthesized expression without effects.
    pub fn mk_expr_default(&self, kind: HirExprKind, ty: Type, span: Span) -> (r: HirExpr)
        ensures
            r == (HirExpr {
                kind,
                ty,
                privacy_tag: None,
                sensitivity: Sensitivity::Unknown,
                effects: no_effects(),
                span,
            }),
    {
        self.mk_expr(kind, ty, EffectSet::default(), span)
    }

    /// A method call `func(args)` without effects of its own.
    pub fn mk_call(&self, func: &str, args: Vec<HirCallArg>, ty: Type, span: Span) -> (r: HirExpr)
        ensures
            r.kind matches HirExprKind::Call { qualifier, func: f, generic_args, args: a, is_method }
                && qualifier is None && f@ == func@ && generic_args@.len() == 0 && a == args
                && is_method,
            r.ty == ty,
            r.privacy_tag is None,
            r.effects == no_effects(),
            r.span == span,
    {
        self.mk_expr_default(
            HirExprKind::Call {
                qualifier: None,
                func: String::from_str(func),
                generic_args: Vec::new(),
                args,
                is_method: true,
            },
            ty,
            span,
        )
    }

    /// A synthesized use of the variable `name`.
    pub fn mk_ident(&self, name: &str, ty: Type, span: Span) -> (r: HirExpr)
        ensures
            r.kind matches HirExprKind::Ident(n) && n@ == name@,
            r.ty == ty,
            r.privacy_tag is None,
            r.effects == no_effects(),
            r.span == span,
    {
        self.mk_expr_default(HirExprKind::Ident(String::from_str(name)), ty, span)
    }

    /// A use of `name` bound to the value of `from`: it keeps the type, the
    /// privacy label, the effects and the position of `from`.
    pub fn mk_bound_ident(&self, name: &str, from: &HirExpr) -> (r: HirExpr)
        ensures
            r.kind matches HirExprKind::Ident(n) && n@ == name@,
            r.ty@ == from.ty@,
            opt_tag_model(r.privacy_tag) == opt_tag_model(from.privacy_tag),
            r.sensitivity == Sensitivity::Unknown,
            r.effects == from.effects,
            r.span == from.span,
    {
        HirExpr {
            kind: HirExprKind::Ident(String::from_str(name)),
            ty: from.ty.duplicate(),
            privacy_tag: duplicate_opt_tag(&from.privacy_tag),
            sensitivity: Sensitivity::Unknown,
            effects: from.effects,
            span: from.span,
        }
    }

    /// A block of the statements `stmts` that does not complete normally,
    /// so its type is `!`.
    pub fn mk_diverging_block(&self, stmts: Vec<HirStmt>, span: Span) -> (r: HirExpr)
        ensures
            r == (HirExpr {
                kind: HirExprKind::Block(HirBlock { stmts, span }),
                ty: Type::Never,
                privacy_tag: None,
                sensitivity: Sensitivity::Unknown,
                effects: no_effects(),
                span,
            }),
    {
        self.mk_expr_default(HirExprKind::Block(HirBlock { stmts, span }), Type::Never, span)
    }
}

} // verus!

verus! {

// ===== what elaboration keeps =====

/// The variant of an expression kind, as a number.
pub open spec fn kind_tag(k: HirExprKind) -> int {
    match k {
        HirExprKind::Literal(_) => 0,
        HirExprKind::Ident(_) => 1,
        HirExprKind::Sym(_) => 2,
        HirExprKind::BinaryOp { .. } => 3,
        HirExprKind::Call { .. } => 4,
        HirExprKind::Block(_) => 5,
        HirExprKind::StructInit { .. } => 6,
        HirExprKind::FieldAccess { .. } => 7,
        HirExprKind::Range { .. } => 8,
        HirExprKind::EnumVariantAccess { .. } => 9,
        HirExprKind::EnumVariantConstruction { .. } => 10,
        HirExprKind::Match { .. } => 11,
        HirExprKind::Closure { .. } => 12,
        HirExprKind::If { .. } => 13,
        HirExprKind::ArrayLiteral(_) => 14,
        HirExprKind::UnsafeBlock { .. } => 15,
        HirExprKind::Unary { .. } => 16,
        HirExprKind::Cast { .. } => 17,
        HirExprKind::Index { .. } => 18,
        HirExprKind::LackSlice(_) => 19,
    }
}

/// How an elaborated expression relates to the expression before, for a function
/// returning `ret`: a `try` call became its expansion, a `match` on its
/// argument elaborated in turn; anything else kept its variant, type, label, effects,
/// position and data, with each part elaborated in turn.
pub open spec fn expr_kept(before: HirExpr, after: HirExpr, ret: Option<TypeModel>) -> bool
    decreases before, 1int,
{
    if is_try_call(before) {
        match before.kind {
            HirExprKind::Call { args, .. } => args@.len() == 1 && exists|n: nat, a: HirExpr|
                try_expanded(after, a, ret, n) && match args@[0] {
                    HirCallArg::Positional(x) => expr_kept(x, a, ret),
                    HirCallArg::Named(_, x) => expr_kept(x, a, ret),
                },
            _ => false,
        }
    } else {
        &&& after.ty == before.ty
        &&& after.privacy_tag == before.privacy_tag
        &&& after.sensitivity == before.sensitivity
        &&& after.effects == before.effects
        &&& after.span == before.span
        &&& kind_kept(before.kind, after.kind, ret)
    }
}

/// The kind `after` is `before` with each of its parts elaborated.
pub open spec fn kind_kept(before: HirExprKind, after: HirExprKind, ret: Option<TypeModel>) -> bool
    decreases before, 0int,
{
    match (before, after) {
        (HirExprKind::BinaryOp { op, left, right }, HirExprKind::BinaryOp { op: o, left: l, right: r }) => o
            == op && expr_kept(*left, *l, ret) && expr_kept(*right, *r, ret),
        (
            HirExprKind::Call { qualifier, func, generic_args, args, is_method },
            HirExprKind::Call { qualifier: q, func: f, generic_args: g, args: a, is_method: m },
        ) => q == qualifier && f == func && g == generic_args && m == is_method && args_kept(
            args@,
            a@,
            ret,
        ),
        (HirExprKind::Block(b), HirExprKind::Block(b2)) => block_kept(b, b2, ret),
        (
            HirExprKind::StructInit { struct_name, generic_args, fields },
            HirExprKind::StructInit { struct_name: s, generic_args: g, fields: f },
        ) => s == struct_name && g == generic_args && fields_kept(fields@, f@, ret),
        (
            HirExprKind::FieldAccess { struct_expr, field_name },
            HirExprKind::FieldAccess { struct_expr: s, field_name: f },
        ) => f == field_name && expr_kept(*struct_expr, *s, ret),
        (HirExprKind::Range { start, end }, HirExprKind::Range { start: s, end: e }) => expr_kept(
            *start,
            *s,
            ret,
        ) && expr_kept(*end, *e, ret),
        (
            HirExprKind::EnumVariantConstruction { enum_name, generic_args, variant_name, args },
            HirExprKind::EnumVariantConstruction { enum_name: e, generic_args: g, variant_name: v, args: a },
        ) => e == enum_name && g == generic_args && v == variant_name && args_kept(args@, a@, ret),
        (HirExprKind::Match { cond, arms }, HirExprKind::Match { cond: c, arms: a }) => expr_kept(
            *cond,
            *c,
            ret,
        ) && arms_kept(arms@, a@, ret),
        (HirExprKind::Closure { param, body }, HirExprKind::Closure { param: p, body: b }) => p == param
            && expr_kept(*body, *b, ret),
        (
            HirExprKind::If { kind, cond, then_expr, else_expr },
            HirExprKind::If { kind: k, cond: c, then_expr: t, else_expr: e },
        ) => k == kind && expr_kept(*cond, *c, ret) && expr_kept(*then_expr, *t, ret) && match (
            else_expr,
            e,
        ) {
            (Some(x), Some(y)) => expr_kept(*x, *y, ret),
            (None, None) => true,
            _ => false,
        },
        (HirExprKind::ArrayLiteral(es), HirExprKind::ArrayLiteral(hs)) => exprs_kept(es@, hs@, ret),
        (
            HirExprKind::UnsafeBlock { kind, body, span },
            HirExprKind::UnsafeBlock { kind: k, body: b, span: s },
        ) => k == kind && s == span && block_kept(body, b, ret),
        (HirExprKind::Unary { op, expr }, HirExprKind::Unary { op: o, expr: x }) => o == op && expr_kept(
            *expr,
            *x,
            ret,
        ),
        (HirExprKind::Cast { expr, ty }, HirExprKind::Cast { expr: x, ty: t }) => t == ty && expr_kept(
            *expr,
            *x,
            ret,
        ),
        (HirExprKind::Index { expr, index }, HirExprKind::Index { expr: x, index: i }) => expr_kept(
            *expr,
            *x,
            ret,
        ) && expr_kept(*index, *i, ret),
        (HirExprKind::Literal(_), _) => after == before,
        (HirExprKind::Ident(_), _) => after == before,
        (HirExprKind::Sym(_), _) => after == before,
        (HirExprKind::EnumVariantAccess { .. }, _) => after == before,
        (HirExprKind::LackSlice(_), _) => after == before,
        _ => false,
    }
}

pub open spec fn args_kept(before: Seq<HirCallArg>, after: Seq<HirCallArg>, ret: Option<TypeModel>) -> bool
    decreases before, 0int,
{
    after.len() == before.len() && forall|i: int|
        0 <= i < before.len() ==> arg_kept(before[i], #[trigger] after[i], ret)
}

pub open spec fn arms_kept(before: Seq<HirMatchArm>, after: Seq<HirMatchArm>, ret: Option<TypeModel>) -> bool
    decreases before, 0int,
{
    after.len() == before.len() && forall|i: int|
        0 <= i < before.len() ==> (#[trigger] after[i]).pattern == before[i].pattern && expr_kept(
            before[i].expr,
            after[i].expr,
            ret,
        )
}

pub open spec fn fields_kept(before: Seq<(String, HirExpr)>, after: Seq<(String, HirExpr)>, ret: Option<TypeModel>) -> bool
    decreases before, 0int,
{
    after.len() == before.len() && forall|i: int|
        0 <= i < before.len() ==> (#[trigger] after[i]).0 == before[i].0 && expr_kept(
            before[i].1,
            after[i].1,
            ret,
        )
}

pub open spec fn exprs_kept(before: Seq<HirExpr>, after: Seq<HirExpr>, ret: Option<TypeModel>) -> bool
    decreases before, 0int,
{
    after.len() == before.len() && forall|i: int|
        0 <= i < before.len() ==> expr_kept(before[i], #[trigger] after[i], ret)
}

/// How an elaborated statement relates to the statement before: a `for`
/// became its expansion around its iterable and body, each elaborated in
/// turn; anything else kept its variant and data, with each part elaborated
/// in turn.
pub open spec fn stmt_kept(before: HirStmt, after: HirStmt, ret: Option<TypeModel>) -> bool
    decreases before, 0int,
{
    match before {
        HirStmt::For { var, iterable, body, span } => exists|n: nat, it: HirExpr, bd: HirBlock|
            for_expansion(after, var@, it, bd, span, n) && expr_kept(iterable, it, ret) && block_kept(
                body,
                bd,
                ret,
            ),
        HirStmt::Let { name, ty, init, mutable, persist, span } => match after {
            HirStmt::Let { name: n, ty: t, init: i, mutable: m, persist: p, span: s } => n == name
                && t == ty && m == mutable && p == persist && s == span && expr_kept(init, i, ret),
            _ => false,
        },
        HirStmt::Expr { expr, span } => match after {
            HirStmt::Expr { expr: e, span: s } => s == span && expr_kept(expr, e, ret),
            _ => false,
        },
        HirStmt::Return { expr, span } => match after {
            HirStmt::Return { expr: e, span: s } => s == span && match (expr, e) {
                (Some(x), Some(y)) => expr_kept(x, y, ret),
                (None, None) => true,
                _ => false,
            },
            _ => false,
        },
        HirStmt::While { cond, body, span } => match after {
            HirStmt::While { cond: c, body: b, span: s } => s == span && expr_kept(cond, c, ret)
                && block_kept(body, b, ret),
            _ => false,
        },
        HirStmt::Assign { target, expr, span } => match after {
            HirStmt::Assign { target: t, expr: e, span: s } => s == span && expr_kept(*target, *t, ret)
                && expr_kept(expr, e, ret),
            _ => false,
        },
        HirStmt::Loop { body, span } => match after {
            HirStmt::Loop { body: b, span: s } => s == span && block_kept(body, b, ret),
            _ => false,
        },
        HirStmt::Break { .. } => after == before,
        HirStmt::UnsafeBlock { kind, body, span } => match after {
            HirStmt::UnsafeBlock { kind: k, body: b, span: s } => k == kind && s == span && block_kept(
                body,
                b,
                ret,
            ),
            _ => false,
        },
    }
}

pub open spec fn block_kept(before: HirBlock, after: HirBlock, ret: Option<TypeModel>) -> bool
    decreases before, 1int,
{
    &&& after.span == before.span
    &&& after.stmts@.len() == before.stmts@.len()
    &&& forall|i: int|
        0 <= i < before.stmts@.len() ==> stmt_kept(before.stmts@[i], #[trigger] after.stmts@[i], ret)
}

pub open spec fn arg_kept(before: HirCallArg, after: HirCallArg, ret: Option<TypeModel>) -> bool
    decreases before, 0int,
{
    match before {
        HirCallArg::Positional(e) => match after {
            HirCallArg::Positional(e2) => expr_kept(e, e2, ret),
            _ => false,
        },
        HirCallArg::Named(n, e) => match after {
            HirCallArg::Named(n2, e2) => n2 == n && expr_kept(e, e2, ret),
            _ => false,
        },
    }
}

pub open spec fn arm_kept(before: HirMatchArm, after: HirMatchArm, ret: Option<TypeModel>) -> bool {
    after.pattern == before.pattern && expr_kept(before.expr, after.expr, ret)
}

pub open spec fn field_kept(before: (String, HirExpr), after: (String, HirExpr), ret: Option<TypeModel>) -> bool {
    after.0 == before.0 && expr_kept(before.1, after.1, ret)
}

// ===== what elaboration leaves =====

/// No `try` call and no `for` loop is left in `e`, at any depth.
pub open spec fn sugar_free_expr(e: HirExpr) -> bool
    decreases e, 1int,
{
    !is_try_call(e) && sugar_free_kind(e.kind)
}

pub open spec fn sugar_free_kind(k: HirExprKind) -> bool
    decreases k, 0int,
{
    match k {
        HirExprKind::BinaryOp { left, right, .. } => sugar_free_expr(*left) && sugar_free_expr(*right),
        HirExprKind::Call { args, .. } => sugar_free_args(args@),
        HirExprKind::Block(b) => sugar_free_block(b),
        HirExprKind::StructInit { fields, .. } => sugar_free_fields(fields@),
        HirExprKind::FieldAccess { struct_expr, .. } => sugar_free_expr(*struct_expr),
        HirExprKind::Range { start, end } => sugar_free_expr(*start) && sugar_free_expr(*end),
        HirExprKind::EnumVariantConstruction { args, .. } => sugar_free_args(args@),
        HirExprKind::Match { cond, arms } => sugar_free_expr(*cond) && sugar_free_arms(arms@),
        HirExprKind::Closure { body, .. } => sugar_free_expr(*body),
        HirExprKind::If { cond, then_expr, else_expr, .. } => sugar_free_expr(*cond) && sugar_free_expr(
            *then_expr,
        ) && match else_expr {
            Some(x) => sugar_free_expr(*x),
            None => true,
        },
        HirExprKind::ArrayLiteral(es) => sugar_free_exprs(es@),
        HirExprKind::UnsafeBlock { body, .. } => sugar_free_block(body),
        HirExprKind::Unary { expr, .. } => sugar_free_expr(*expr),
        HirExprKind::Cast { expr, .. } => sugar_free_expr(*expr),
        HirExprKind::Index { expr, index } => sugar_free_expr(*expr) && sugar_free_expr(*index),
        _ => true,
    }
}

pub open spec fn sugar_free_args(s: Seq<HirCallArg>) -> bool
    decreases s, 0int,
{
    forall|i: int| 0 <= i < s.len() ==> sugar_free_arg(#[trigger] s[i])
}

pub open spec fn sugar_free_arg(a: HirCallArg) -> bool
    decreases a, 0int,
{
    match a {
        HirCallArg::Positional(x) => sugar_free_expr(x),
        HirCallArg::Named(_, x) => sugar_free_expr(x),
    }
}

pub open spec fn sugar_free_arms(s: Seq<HirMatchArm>) -> bool
    decreases s, 0int,
{
    forall|i: int| 0 <= i < s.len() ==> sugar_free_expr(#[trigger] s[i].expr)
}

pub open spec fn sugar_free_fields(s: Seq<(String, HirExpr)>) -> bool
    decreases s, 0int,
{
    forall|i: int| 0 <= i < s.len() ==> sugar_free_expr(#[trigger] s[i].1)
}

pub open spec fn sugar_free_exprs(s: Seq<HirExpr>) -> bool
    decreases s, 0int,
{
    forall|i: int| 0 <= i < s.len() ==> sugar_free_expr(#[trigger] s[i])
}

/// No `try` call and no `for` loop is left in `s`, at any depth.
pub open spec fn sugar_free_stmt(s: HirStmt) -> bool
    decreases s, 0int,
{
    match s {
        HirStmt::For { .. } => false,
        HirStmt::Let { init, .. } => sugar_free_expr(init),
        HirStmt::Expr { expr, .. } => sugar_free_expr(expr),
        HirStmt::Return { expr, .. } => match expr {
            Some(x) => sugar_free_expr(x),
            None => true,
        },
        HirStmt::While { cond, body, .. } => sugar_free_expr(cond) && sugar_free_block(body),
        HirStmt::Assign { target, expr, .. } => sugar_free_expr(*target) && sugar_free_expr(expr),
        HirStmt::Loop { body, .. } => sugar_free_block(body),
        HirStmt::Break { .. } => true,
        HirStmt::UnsafeBlock { body, .. } => sugar_free_block(body),
    }
}

pub open spec fn sugar_free_block(b: HirBlock) -> bool
    decreases b, 1int,
{
    forall|i: int| 0 <= i < b.stmts@.len() ==> sugar_free_stmt(#[trigger] b.stmts@[i])
}

/// `sugar_free_expr`, left folded where it is not revealed.
#[verifier::opaque]
pub open spec fn part_sugar_free(e: HirExpr) -> bool {
    sugar_free_expr(e)
}

/// No `try` call and no `for` loop is left in any function body of `fs`.
pub open spec fn fns_sugar_free(fs: Seq<HirFn>) -> bool {
    forall|i: int| 0 <= i < fs.len() ==> sugar_free_block(#[trigger] fs[i].body)
}

/// No `try` call and no `for` loop is left in any function body of `p`:
/// free functions, model functions and the functions of implementations.
pub open spec fn program_sugar_free(p: HirProgram) -> bool {
    &&& fns_sugar_free(p.fns@)
    &&& forall|i: int| 0 <= i < p.models@.len() ==> fns_sugar_free(#[trigger] p.models@[i].functions@)
    &&& forall|i: int| 0 <= i < p.impls@.len() ==> fns_sugar_free(#[trigger] p.impls@[i].functions@)
}

// ===== the shapes that expansion builds =====

pub open spec fn ident_named(e: HirExpr, name: Seq<char>) -> bool {
    match e.kind {
        HirExprKind::Ident(n) => n@ == name,
        _ => false,
    }
}

/// `init` is `iterable.into_iter()`.
pub open spec fn into_iter_call(init: HirExpr, iterable: HirExpr, span: Span) -> bool {
    &&& match init.kind {
        HirExprKind::Call { qualifier, func, generic_args, args, is_method } => {
            &&& qualifier is None
            &&& func@ == "into_iter"@
            &&& generic_args@.len() == 0
            &&& args@ == seq![HirCallArg::Positional(iterable)]
            &&& is_method
        },
        _ => false,
    }
    &&& init.ty@ == iterable.ty@
    &&& init.effects == iterable.effects
    &&& init.span == span
}

/// `s` is `let mut name = iterable.into_iter();`.
pub open spec fn into_iter_let(s: HirStmt, name: Seq<char>, iterable: HirExpr, span: Span) -> bool {
    match s {
        HirStmt::Let { name: n, ty, init, mutable, persist, span: sp } => {
            &&& n@ == name
            &&& ty is None
            &&& mutable
            &&& !persist
            &&& sp == span
            &&& into_iter_call(init, iterable, span)
        },
        _ => false,
    }
}

/// `cond` is `iter_var.next()`.
pub open spec fn next_call(cond: HirExpr, iter_var: Seq<char>, iterable_ty: Type, effects: EffectSet) -> bool {
    &&& match cond.kind {
        HirExprKind::Call { func, args, is_method, .. } => {
            &&& func@ == "next"@
            &&& is_method
            &&& args@.len() == 1
            &&& match args@[0] {
                HirCallArg::Positional(it) => ident_named(it, iter_var) && it.ty@ == iterable_ty@,
                _ => false,
            }
        },
        _ => false,
    }
    &&& cond.effects == effects
}

/// `m` matches on `iter_var.next()`, of type `Option<E>` for `E` the
/// element type of `iterable`, and its second arm is `{ break }`. Left
/// folded where it is not revealed.
#[verifier::opaque]
pub open spec fn matches_next_of(m: HirExpr, iter_var: Seq<char>, iterable: HirExpr) -> bool {
    match m.kind {
        HirExprKind::Match { cond, arms } => {
            &&& next_call(*cond, iter_var, iterable.ty, iterable.effects)
            &&& cond.ty@ == TypeModel::Generic("Option"@, seq![elem_type(iterable.ty@)])
            &&& arms@.len() == 2
            &&& match arms@[1].expr.kind {
                HirExprKind::Block(b) => b.stmts@.len() == 1 && b.stmts@[0] is Break,
                _ => false,
            }
        },
        _ => false,
    }
}

/// `m` is `match _ { Some(var) => { body }, None => { break } }`, with no
/// sugar in what it matches on nor in its second arm.
pub open spec fn next_match_arms(m: HirExpr, var: Seq<char>, body: HirBlock) -> bool {
    match m.kind {
        HirExprKind::Match { cond, arms } => {
            &&& part_sugar_free(*cond)
            &&& part_sugar_free(arms@[1].expr)
            &&& arms@.len() == 2
            &&& binding_pattern(arms@[0].pattern, "Option"@, "Some"@, var)
            &&& arms@[0].expr.kind == HirExprKind::Block(body)
            &&& arms@[0].expr.ty == Type::Unit
            &&& arms@[0].expr.effects == block_effects(body)
            &&& enum_pattern(arms@[1].pattern, "Option"@, "None"@)
            &&& arms@[1].expr.ty == Type::Never
            &&& arms@[1].expr.effects == no_effects()
        },
        _ => false,
    }
}

/// `r` is the expansion of `for var in iterable { body }` with the fresh
/// name number `n`.
pub open spec fn for_expansion(
    r: HirStmt,
    var: Seq<char>,
    iterable: HirExpr,
    body: HirBlock,
    span: Span,
    n: nat,
) -> bool {
    match r {
        HirStmt::Expr { expr: outer, span: s } => {
            &&& s == span
            &&& outer.ty == Type::Unit
            &&& outer.span == span
            &&& match outer.kind {
                HirExprKind::Block(b) => {
                    &&& b.stmts@.len() == 3
                    &&& into_iter_let(b.stmts@[0], fresh_name(n), iterable, span)
                    &&& unit_stmt(b.stmts@[2], span)
                    &&& match b.stmts@[1] {
                        HirStmt::Loop { body: lb, .. } => lb.stmts@.len() == 1 && match lb.stmts@[0] {
                            HirStmt::Expr { expr: m, .. } => next_match_arms(m, var, body)
                                && matches_next_of(m, fresh_name(n), iterable),
                            _ => false,
                        },
                        _ => false,
                    }
                },
                _ => false,
            }
        },
        _ => false,
    }
}

/// `b` is a block `{ return Q::F(..n args); }`.
pub open spec fn early_return(b: HirExprKind, q: Seq<char>, f: Seq<char>, n: nat) -> bool {
    match b {
        HirExprKind::Block(b) => b.stmts@.len() == 1 && match b.stmts@[0] {
            HirStmt::Return { expr: Some(v), .. } => match v.kind {
                HirExprKind::Call { qualifier: Some(qq), func, args, is_method, .. } => {
                    &&& qq@ == q
                    &&& func@ == f
                    &&& !is_method
                    &&& args@.len() == n
                },
                _ => false,
            },
            _ => false,
        },
        _ => false,
    }
}

/// The value that a block `{ return v; }` returns.
pub open spec fn returned_value(b: HirExprKind) -> Option<HirExpr> {
    match b {
        HirExprKind::Block(b) => if b.stmts@.len() == 1 {
            match b.stmts@[0] {
                HirStmt::Return { expr: Some(v), .. } => Some(v),
                _ => None,
            }
        } else {
            None
        },
        _ => None,
    }
}

/// `v` is a call whose one argument is `name.into()`.
pub open spec fn passes_into_of(v: HirExpr, name: Seq<char>) -> bool {
    match v.kind {
        HirExprKind::Call { args, .. } => args@.len() == 1 && match args@[0] {
            HirCallArg::Positional(c) => match c.kind {
                HirExprKind::Call { qualifier, func, generic_args, args: a, is_method } => {
                    &&& qualifier is None
                    &&& func@ == "into"@
                    &&& generic_args@.len() == 0
                    &&& is_method
                    &&& a@.len() == 1
                    &&& match a@[0] {
                        HirCallArg::Positional(x) => ident_named(x, name),
                        _ => false,
                    }
                },
                _ => false,
            },
            _ => false,
        },
        _ => false,
    }
}

/// The `try` expansion `e` has no privacy label and unknown sensitivity,
/// and its second arm returns a value of the
/// function's return type `ret`; for a `Result`, that value is
/// `Result::Err(e.into())` with `e` the error that the arm binds, the fresh
/// name number `n + 1`. Left folded where it is not revealed.
#[verifier::opaque]
pub open spec fn try_returns(e: HirExpr, ret: Option<TypeModel>, n: nat) -> bool {
    &&& e.privacy_tag is None
    &&& e.sensitivity == Sensitivity::Unknown
    &&& returned_value(second_arm(e).expr.kind) matches Some(v) && Some(v.ty@) == ret
    &&& returns_result(ret) ==> (returned_value(second_arm(e).expr.kind) matches Some(v)
        && passes_into_of(v, fresh_name(n + 1)))
}

/// `s` is the statement `();`. Left folded where it is not revealed.
#[verifier::opaque]
pub open spec fn unit_stmt(s: HirStmt, span: Span) -> bool {
    match s {
        HirStmt::Expr { expr, span: sp } => {
            &&& sp == span
            &&& expr.kind == HirExprKind::Literal(Literal::Unit)
            &&& expr.ty == Type::Unit
            &&& expr.privacy_tag is None
            &&& expr.effects == no_effects()
            &&& expr.span == span
        },
        _ => false,
    }
}

/// `e` is `match expr { E::V(temp) => temp, E::W.. => { return ..; } }`
/// as `try` builds it.
pub open spec fn try_match(
    e: HirExpr,
    expr: HirExpr,
    enum_name: Seq<char>,
    value_variant: Seq<char>,
    temp: Seq<char>,
) -> bool {
    &&& match e.kind {
        HirExprKind::Match { cond, arms } => {
            &&& *cond == expr
            &&& arms@.len() == 2
            &&& binding_pattern(arms@[0].pattern, enum_name, value_variant, temp)
            &&& ident_named(arms@[0].expr, temp)
            &&& arms@[0].expr.ty@ == expr.ty@
            &&& arms@[1].expr.ty == Type::Never
        },
        _ => false,
    }
    &&& e.span == expr.span
    &&& e.effects == union_all(seq![expr.effects, expr.effects, no_effects()], 3)
}

/// The second arm of a `match`.
pub open spec fn second_arm(e: HirExpr) -> HirMatchArm {
    match e.kind {
        HirExprKind::Match { arms, .. } => arms@[1],
        _ => arbitrary(),
    }
}

/// `e` is the expansion of `try(expr)` in a function returning `ret`, with
/// fresh names from number `n` on: `match expr { Ok(t) => t, Err(e) => {
/// return Result::Err(e.into()); } }` for a `Result`, `match expr {
/// Some(t) => t, None => { return Option::None; } }` for an `Option`.
pub open spec fn try_expanded(e: HirExpr, expr: HirExpr, ret: Option<TypeModel>, n: nat) -> bool {
    &&& e.ty@ == try_value_type(ret)
    &&& part_sugar_free(second_arm(e).expr)
    &&& try_returns(e, ret, n)
    &&& if returns_result(ret) {
        &&& try_match(e, expr, "Result"@, "Ok"@, fresh_name(n))
        &&& binding_pattern(second_arm(e).pattern, "Result"@, "Err"@, fresh_name(n + 1))
        &&& early_return(second_arm(e).expr.kind, "Result"@, "Err"@, 1)
    } else {
        &&& try_match(e, expr, "Option"@, "Some"@, fresh_name(n))
        &&& enum_pattern(second_arm(e).pattern, "Option"@, "None"@)
        &&& early_return(second_arm(e).expr.kind, "Option"@, "None"@, 0)
    }
}

/// The expressions of a block's statements, read statement by statement
/// and into nested blocks of statements (not into expressions).
pub open spec fn stmt_exprs_spec(s: HirStmt) -> Seq<HirExpr>
    decreases s, 0int,
{
    match s {
        HirStmt::Expr { expr, .. } => seq![expr],
        HirStmt::Let { init, .. } => seq![init],
        HirStmt::Return { expr, .. } => match expr {
            Some(e) => seq![e],
            None => seq![],
        },
        HirStmt::While { cond, body, .. } => seq![cond] + stmts_exprs_spec(body.stmts@, 0),
        HirStmt::For { body, .. } => stmts_exprs_spec(body.stmts@, 0),
        HirStmt::Loop { body, .. } => stmts_exprs_spec(body.stmts@, 0),
        HirStmt::Assign { target, expr, .. } => seq![*target, expr],
        HirStmt::UnsafeBlock { body, .. } => stmts_exprs_spec(body.stmts@, 0),
        HirStmt::Break { .. } => seq![],
    }
}

pub open spec fn stmts_exprs_spec(s: Seq<HirStmt>, i: int) -> Seq<HirExpr>
    decreases s, s.len() - i,
{
    if 0 <= i < s.len() {
        stmt_exprs_spec(s[i]) + stmts_exprs_spec(s, i + 1)
    } else {
        seq![]
    }
}

/// The union of the effects of `block_exprs` of a block.
pub open spec fn block_effects(b: HirBlock) -> EffectSet {
    let es = stmts_exprs_spec(b.stmts@, 0);
    union_all(es.map_values(|e: HirExpr| e.effects), es.len() as int)
}

/// A function that elaboration rejects: it meets `try` but returns neither
/// `Result` nor `Option`.
pub open spec fn fn_fails(f: HirFn) -> bool {
    meets_try_block(f.body) && !supports_try_in(opt_type_model(f.return_type))
}

/// Elaborating `f` draws at most `usize::MAX` fresh names.
pub open spec fn fn_fits(f: HirFn) -> bool {
    temps_block(f.body, try_cost(opt_type_model(f.return_type))) <= usize::MAX
}

pub open spec fn fn_kept(before: HirFn, after: HirFn) -> bool {
    &&& after.name == before.name
    &&& after.generic_params == before.generic_params
    &&& after.params == before.params
    &&& after.return_type == before.return_type
    &&& after.effects == before.effects
    &&& after.sensitivity == before.sensitivity
    &&& after.is_forward == before.is_forward
    &&& block_kept(before.body, after.body, opt_type_model(before.return_type))
}

pub open spec fn all_fit(fs: Seq<HirFn>) -> bool {
    forall|i: int| 0 <= i < fs.len() ==> fn_fits(#[trigger] fs[i])
}

pub open spec fn any_fails(fs: Seq<HirFn>) -> bool {
    exists|i: int| 0 <= i < fs.len() && fn_fails(#[trigger] fs[i])
}

/// Some function in `fs` fails with the error `m`.
pub open spec fn fails_with(fs: Seq<HirFn>, m: Seq<char>) -> bool {
    exists|i: int|
        0 <= i < fs.len() && fn_fails(#[trigger] fs[i]) && m == try_error_text(
            opt_type_model(fs[i].return_type),
        )
}

pub open spec fn all_kept(before: Seq<HirFn>, after: Seq<HirFn>) -> bool {
    &&& after.len() == before.len()
    &&& forall|i: int| 0 <= i < before.len() ==> fn_kept(before[i], #[trigger] after[i])
}

/// Some function of the program elaboration rejects.
pub open spec fn program_fails(p: HirProgram) -> bool {
    ||| any_fails(p.fns@)
    ||| exists|i: int| 0 <= i < p.models@.len() && any_fails(#[trigger] p.models@[i].functions@)
    ||| exists|i: int| 0 <= i < p.impls@.len() && any_fails(#[trigger] p.impls@[i].functions@)
}

/// Some function of the program fails with the error `m`.
pub open spec fn program_fails_with(p: HirProgram, m: Seq<char>) -> bool {
    ||| fails_with(p.fns@, m)
    ||| exists|i: int| 0 <= i < p.models@.len() && fails_with(#[trigger] p.models@[i].functions@, m)
    ||| exists|i: int| 0 <= i < p.impls@.len() && fails_with(#[trigger] p.impls@[i].functions@, m)
}

/// Elaborating any function of the program draws at most `usize::MAX`
/// fresh names.
pub open spec fn program_fits(p: HirProgram) -> bool {
    &&& all_fit(p.fns@)
    &&& forall|i: int| 0 <= i < p.models@.len() ==> all_fit(#[trigger] p.models@[i].functions@)
    &&& forall|i: int| 0 <= i < p.impls@.len() ==> all_fit(#[trigger] p.impls@[i].functions@)
}

pub open spec fn model_kept(before: HirModel, after: HirModel) -> bool {
    &&& after.name == before.name
    &&& after.generic_params == before.generic_params
    &&& after.fields == before.fields
    &&& after.sensitivity == before.sensitivity
    &&& after.training_context_required == before.training_context_required
    &&& after.privacy_eps == before.privacy_eps
    &&& all_kept(before.functions@, after.functions@)
}

pub open spec fn impl_kept(before: HirImplement, after: HirImplement) -> bool {
    &&& after.generic_params == before.generic_params
    &&& after.target_type == before.target_type
    &&& after.interface_name == before.interface_name
    &&& all_kept(before.functions@, after.functions@)
}

/// Elaboration rewrites the bodies of functions only; everything else of
/// the program is as it was.
pub open spec fn program_kept(before: HirProgram, after: HirProgram) -> bool {
    &&& all_kept(before.fns@, after.fns@)
    &&& after.models@.len() == before.models@.len()
    &&& forall|i: int| 0 <= i < before.models@.len() ==> model_kept(before.models@[i], #[trigger] after.models@[i])
    &&& after.impls@.len() == before.impls@.len()
    &&& forall|i: int| 0 <= i < before.impls@.len() ==> impl_kept(before.impls@[i], #[trigger] after.impls@[i])
    &&& after.structs == before.structs
    &&& after.enums == before.enums
    &&& after.consts == before.consts
    &&& after.protos == before.protos
    &&& after.interfaces == before.interfaces
}

} // verus!

verus! {

// ===== elaboration leaves no sugar =====

proof fn lemma_kept_expr_sugar_free(before: HirExpr, after: HirExpr, ret: Option<TypeModel>)
    requires
        expr_kept(before, after, ret),
    ensures
        sugar_free_expr(after),
    decreases before, 1int,
{
    if is_try_call(before) {
        match before.kind {
            HirExprKind::Call { args, .. } => {
                let (n, a) = choose|n: nat, a: HirExpr|
                    try_expanded(after, a, ret, n) && match args@[0] {
                        HirCallArg::Positional(x) => expr_kept(x, a, ret),
                        HirCallArg::Named(_, x) => expr_kept(x, a, ret),
                    };
                match args@[0] {
                    HirCallArg::Positional(x) => lemma_kept_expr_sugar_free(x, a, ret),
                    HirCallArg::Named(_, x) => lemma_kept_expr_sugar_free(x, a, ret),
                }
                reveal(part_sugar_free);
                match after.kind {
                    HirExprKind::Match { cond, arms } => {
                        assert(*cond == a);
                        assert(sugar_free_expr(arms@[0].expr));
                        assert(sugar_free_expr(arms@[1].expr));
                        assert(sugar_free_arms(arms@));
                    },
                    _ => {},
                }
            },
            _ => {},
        }
    } else {
        lemma_kept_kind_sugar_free(before.kind, after.kind, ret);
        match (before.kind, after.kind) {
            (HirExprKind::Call { args, .. }, HirExprKind::Call { args: a, .. }) => {
                assert(kind_kept(before.kind, after.kind, ret));
                assert(args_kept(args@, a@, ret));
                assert(a@.len() == args@.len());
            },
            _ => {},
        }
        assert(!is_try_call(after));
    }
}

proof fn lemma_kept_kind_sugar_free(before: HirExprKind, after: HirExprKind, ret: Option<TypeModel>)
    requires
        kind_kept(before, after, ret),
    ensures
        sugar_free_kind(after),
    decreases before, 0int,
{
    match (before, after) {
        (HirExprKind::BinaryOp { left, right, .. }, HirExprKind::BinaryOp { left: l, right: r, .. }) => {
            lemma_kept_expr_sugar_free(*left, *l, ret);
            lemma_kept_expr_sugar_free(*right, *r, ret);
        },
        (HirExprKind::Call { args, .. }, HirExprKind::Call { args: a, .. }) => {
            lemma_kept_args_sugar_free(args@, a@, ret);
        },
        (HirExprKind::Block(b), HirExprKind::Block(b2)) => {
            lemma_kept_block_sugar_free(b, b2, ret);
        },
        (HirExprKind::StructInit { fields, .. }, HirExprKind::StructInit { fields: f, .. }) => {
            lemma_kept_fields_sugar_free(fields@, f@, ret);
        },
        (HirExprKind::FieldAccess { struct_expr, .. }, HirExprKind::FieldAccess { struct_expr: x, .. }) => {
            lemma_kept_expr_sugar_free(*struct_expr, *x, ret);
        },
        (HirExprKind::Range { start, end }, HirExprKind::Range { start: a, end: b }) => {
            lemma_kept_expr_sugar_free(*start, *a, ret);
            lemma_kept_expr_sugar_free(*end, *b, ret);
        },
        (
            HirExprKind::EnumVariantConstruction { args, .. },
            HirExprKind::EnumVariantConstruction { args: a, .. },
        ) => {
            lemma_kept_args_sugar_free(args@, a@, ret);
        },
        (HirExprKind::Match { cond, arms }, HirExprKind::Match { cond: c, arms: a }) => {
            lemma_kept_expr_sugar_free(*cond, *c, ret);
            lemma_kept_arms_sugar_free(arms@, a@, ret);
        },
        (HirExprKind::Closure { body, .. }, HirExprKind::Closure { body: b, .. }) => {
            lemma_kept_expr_sugar_free(*body, *b, ret);
        },
        (
            HirExprKind::If { cond, then_expr, else_expr, .. },
            HirExprKind::If { cond: c, then_expr: t, else_expr: e, .. },
        ) => {
            lemma_kept_expr_sugar_free(*cond, *c, ret);
            lemma_kept_expr_sugar_free(*then_expr, *t, ret);
            match (else_expr, e) {
                (Some(x), Some(y)) => lemma_kept_expr_sugar_free(*x, *y, ret),
                _ => {},
            }
        },
        (HirExprKind::ArrayLiteral(es), HirExprKind::ArrayLiteral(hs)) => {
            lemma_kept_exprs_sugar_free(es@, hs@, ret);
        },
        (HirExprKind::UnsafeBlock { body, .. }, HirExprKind::UnsafeBlock { body: b, .. }) => {
            lemma_kept_block_sugar_free(body, b, ret);
        },
        (HirExprKind::Unary { expr, .. }, HirExprKind::Unary { expr: x, .. }) => {
            lemma_kept_expr_sugar_free(*expr, *x, ret);
        },
        (HirExprKind::Cast { expr, .. }, HirExprKind::Cast { expr: x, .. }) => {
            lemma_kept_expr_sugar_free(*expr, *x, ret);
        },
        (HirExprKind::Index { expr, index }, HirExprKind::Index { expr: x, index: i }) => {
            lemma_kept_expr_sugar_free(*expr, *x, ret);
            lemma_kept_expr_sugar_free(*index, *i, ret);
        },
        _ => {},
    }
}

proof fn lemma_kept_args_sugar_free(before: Seq<HirCallArg>, after: Seq<HirCallArg>, ret: Option<TypeModel>)
    requires
        args_kept(before, after, ret),
    ensures
        sugar_free_args(after),
    decreases before, 0int,
{
    assert forall|i: int| 0 <= i < after.len() implies sugar_free_arg(#[trigger] after[i]) by {
        match before[i] {
            HirCallArg::Positional(x) => match after[i] {
                HirCallArg::Positional(y) => lemma_kept_expr_sugar_free(x, y, ret),
                _ => {},
            },
            HirCallArg::Named(_, x) => match after[i] {
                HirCallArg::Named(_, y) => lemma_kept_expr_sugar_free(x, y, ret),
                _ => {},
            },
        }
    }
}

proof fn lemma_kept_arms_sugar_free(before: Seq<HirMatchArm>, after: Seq<HirMatchArm>, ret: Option<TypeModel>)
    requires
        arms_kept(before, after, ret),
    ensures
        sugar_free_arms(after),
    decreases before, 0int,
{
    assert forall|i: int| 0 <= i < after.len() implies sugar_free_expr(#[trigger] after[i].expr) by {
        lemma_kept_expr_sugar_free(before[i].expr, after[i].expr, ret);
    }
}

proof fn lemma_kept_fields_sugar_free(
    before: Seq<(String, HirExpr)>,
    after: Seq<(String, HirExpr)>,
    ret: Option<TypeModel>,
)
    requires
        fields_kept(before, after, ret),
    ensures
        sugar_free_fields(after),
    decreases before, 0int,
{
    assert forall|i: int| 0 <= i < after.len() implies sugar_free_expr(#[trigger] after[i].1) by {
        lemma_kept_expr_sugar_free(before[i].1, after[i].1, ret);
    }
}

proof fn lemma_kept_exprs_sugar_free(before: Seq<HirExpr>, after: Seq<HirExpr>, ret: Option<TypeModel>)
    requires
        exprs_kept(before, after, ret),
    ensures
        sugar_free_exprs(after),
    decreases before, 0int,
{
    assert forall|i: int| 0 <= i < after.len() implies sugar_free_expr(#[trigger] after[i]) by {
        lemma_kept_expr_sugar_free(before[i], after[i], ret);
    }
}

proof fn lemma_kept_block_sugar_free(before: HirBlock, after: HirBlock, ret: Option<TypeModel>)
    requires
        block_kept(before, after, ret),
    ensures
        sugar_free_block(after),
    decreases before, 1int,
{
    assert forall|i: int| 0 <= i < after.stmts@.len() implies sugar_free_stmt(#[trigger] after.stmts@[i]) by {
        lemma_kept_stmt_sugar_free(before.stmts@[i], after.stmts@[i], ret);
    }
}

proof fn lemma_kept_stmt_sugar_free(before: HirStmt, after: HirStmt, ret: Option<TypeModel>)
    requires
        stmt_kept(before, after, ret),
    ensures
        sugar_free_stmt(after),
    decreases before, 0int,
{
    match before {
        HirStmt::For { var, iterable, body, span } => {
            let (n, it, bd) = choose|n: nat, it: HirExpr, bd: HirBlock|
                for_expansion(after, var@, it, bd, span, n) && expr_kept(iterable, it, ret)
                    && block_kept(body, bd, ret);
            lemma_kept_expr_sugar_free(iterable, it, ret);
            lemma_kept_block_sugar_free(body, bd, ret);
            reveal(part_sugar_free);
            reveal(unit_stmt);
            match after {
                HirStmt::Expr { expr: outer, .. } => match outer.kind {
                    HirExprKind::Block(b) => {
                        let s0 = b.stmts@[0];
                        match s0 {
                            HirStmt::Let { init, .. } => match init.kind {
                                HirExprKind::Call { args, .. } => {
                                    assert(sugar_free_arg(args@[0]));
                                    assert(sugar_free_args(args@));
                                    assert(sugar_free_expr(init));
                                },
                                _ => {},
                            },
                            _ => {},
                        }
                        assert(sugar_free_stmt(s0));
                        match b.stmts@[1] {
                            HirStmt::Loop { body: lb, .. } => match lb.stmts@[0] {
                                HirStmt::Expr { expr: m, .. } => match m.kind {
                                    HirExprKind::Match { cond, arms } => {
                                        assert(sugar_free_expr(arms@[0].expr));
                                        assert(sugar_free_arms(arms@));
                                        assert(sugar_free_expr(m));
                                        assert(sugar_free_stmt(lb.stmts@[0]));
                                        assert(sugar_free_block(lb));
                                    },
                                    _ => {},
                                },
                                _ => {},
                            },
                            _ => {},
                        }
                        assert(sugar_free_stmt(b.stmts@[1]));
                        match b.stmts@[2] {
                            HirStmt::Expr { expr: u, .. } => {
                                assert(sugar_free_kind(u.kind));
                                assert(sugar_free_expr(u));
                            },
                            _ => {},
                        }
                        assert(sugar_free_stmt(b.stmts@[2]));
                        assert(sugar_free_block(b));
                        assert(sugar_free_expr(outer));
                    },
                    _ => {},
                },
                _ => {},
            }
        },
        HirStmt::Let { init, .. } => match after {
            HirStmt::Let { init: i, .. } => lemma_kept_expr_sugar_free(init, i, ret),
            _ => {},
        },
        HirStmt::Expr { expr, .. } => match after {
            HirStmt::Expr { expr: e, .. } => lemma_kept_expr_sugar_free(expr, e, ret),
            _ => {},
        },
        HirStmt::Return { expr, .. } => match (expr, after) {
            (Some(x), HirStmt::Return { expr: Some(y), .. }) => lemma_kept_expr_sugar_free(x, y, ret),
            _ => {},
        },
        HirStmt::While { cond, body, .. } => match after {
            HirStmt::While { cond: c, body: b, .. } => {
                lemma_kept_expr_sugar_free(cond, c, ret);
                lemma_kept_block_sugar_free(body, b, ret);
            },
            _ => {},
        },
        HirStmt::Assign { target, expr, .. } => match after {
            HirStmt::Assign { target: t, expr: e, .. } => {
                lemma_kept_expr_sugar_free(*target, *t, ret);
                lemma_kept_expr_sugar_free(expr, e, ret);
            },
            _ => {},
        },
        HirStmt::Loop { body, .. } => match after {
            HirStmt::Loop { body: b, .. } => lemma_kept_block_sugar_free(body, b, ret),
            _ => {},
        },
        HirStmt::Break { .. } => {},
        HirStmt::UnsafeBlock { body, .. } => match after {
            HirStmt::UnsafeBlock { body: b, .. } => lemma_kept_block_sugar_free(body, b, ret),
            _ => {},
        },
    }
}

proof fn lemma_kept_fns_sugar_free(before: Seq<HirFn>, after: Seq<HirFn>)
    requires
        all_kept(before, after),
    ensures
        fns_sugar_free(after),
{
    assert forall|i: int| 0 <= i < after.len() implies sugar_free_block(#[trigger] after[i].body) by {
        assert(fn_kept(before[i], after[i]));
        lemma_kept_block_sugar_free(before[i].body, after[i].body, opt_type_model(before[i].return_type));
    }
}

/// What elaboration gives back holds no `for` loop and no `try` call, in
/// any function body and at any depth.
pub proof fn law_elaboration_leaves_no_sugar(before: HirProgram, after: HirProgram)
    requires
        program_kept(before, after),
    ensures
        program_sugar_free(after),
{
    lemma_kept_fns_sugar_free(before.fns@, after.fns@);
    assert forall|i: int| 0 <= i < after.models@.len() implies fns_sugar_free(
        #[trigger] after.models@[i].functions@,
    ) by {
        assert(model_kept(before.models@[i], after.models@[i]));
        lemma_kept_fns_sugar_free(before.models@[i].functions@, after.models@[i].functions@);
    }
    assert forall|i: int| 0 <= i < after.impls@.len() implies fns_sugar_free(
        #[trigger] after.impls@[i].functions@,
    ) by {
        assert(impl_kept(before.impls@[i], after.impls@[i]));
        lemma_kept_fns_sugar_free(before.impls@[i].functions@, after.impls@[i].functions@);
    }
}

pub open spec fn deref_seq<'a>(v: Seq<&'a HirExpr>) -> Seq<HirExpr> {
    v.map_values(|r: &'a HirExpr| *r)
}

fn unwrap_or_never(t: &Option<Type>) -> (r: Type)
    ensures
        r@ == match opt_type_model(*t) {
            Some(m) => m,
            None => TypeModel::Never,
        },
{
    match t {
        Some(t) => t.duplicate(),
        None => Type::Never,
    }
}

/// The elaborator.
pub struct Elaborate;

impl Elaborate {
    /// Elaborates one expression.
    #[verifier::rlimit(100)]
    fn elaborate_expr(expr: HirExpr, ctx: &mut ElaborateContext) -> (r: Result<HirExpr, String>)
        requires
            old(ctx).temp_counter + temps_expr(expr, old(ctx).cost()) <= usize::MAX,
        ensures
            final(ctx).return_ty == old(ctx).return_ty,
            r is Ok <==> elab_ok(meets_try_expr(expr), old(ctx).ret()),
            r matches Ok(e) ==> final(ctx).temp_counter == old(ctx).temp_counter + temps_expr(
                expr,
                old(ctx).cost(),
            ) && expr_kept(expr, e, old(ctx).ret()),
            r matches Err(m) ==> m@ == try_error_text(old(ctx).ret()),
        decreases expr, 0nat,
    {
        let ghost g = expr;
        let ghost k = ctx.cost();
        proof {
            reveal_with_fuel(expr_kept, 3);
        }
        let HirExpr { kind, ty, privacy_tag, sensitivity, effects, span } = expr;
        match kind {
            HirExprKind::Call { qualifier, func, generic_args, args, is_method } => {
                if qualifier.is_none() && !is_method && same_text(func.as_str(), "try") && args.len()
                    == 1 {
                    let ghost args0 = args@;
                    proof {
                        assert(decreases_to!(g => args));
                        assert(decreases_to!(args => args@));
                        assert(decreases_to!(args@ => args@[0]));
                    }
                    let mut args = args;
                    let a = args.remove(0);
                    assert(a == args0[0]);
                    let arg = match a {
                        HirCallArg::Positional(e) => e,
                        HirCallArg::Named(_, e) => e,
                    };
                    let arg2 = match Self::elaborate_expr(arg, ctx) {
                        Ok(v) => v,
                        Err(e) => return Err(e),
                    };
                    let r = Self::expand_try(arg2, ctx);
                    proof {
                        assert(r matches Ok(e) ==> try_expanded(e, arg2, old(ctx).ret(), (old(ctx).temp_counter + temps_expr(arg, k)) as nat));
                    }
                    return r;
                }
                let new_args = match Self::elaborate_call_args(args, ctx) {
                    Ok(v) => v,
                    Err(e) => return Err(e),
                };
                Ok(
                    HirExpr {
                        kind: HirExprKind::Call {
                            qualifier,
                            func,
                            generic_args,
                            args: new_args,
                            is_method,
                        },
                        ty,
                        privacy_tag,
                        sensitivity,
                        effects,
                        span,
                    },
                )
            },
            HirExprKind::Literal(l) => Ok(
                HirExpr { kind: HirExprKind::Literal(l), ty, privacy_tag, sensitivity, effects, span },
            ),
            HirExprKind::Ident(n) => Ok(
                HirExpr { kind: HirExprKind::Ident(n), ty, privacy_tag, sensitivity, effects, span },
            ),
            HirExprKind::Sym(n) => Ok(
                HirExpr { kind: HirExprKind::Sym(n), ty, privacy_tag, sensitivity, effects, span },
            ),
            HirExprKind::BinaryOp { op, left, right } => {
                let left = match Self::elaborate_boxed(left, ctx) {
                    Ok(v) => v,
                    Err(e) => return Err(e),
                };
                let right = match Self::elaborate_boxed(right, ctx) {
                    Ok(v) => v,
                    Err(e) => return Err(e),
                };
                Ok(
                    HirExpr {
                        kind: HirExprKind::BinaryOp { op, left, right },
                        ty,
                        privacy_tag,
                        sensitivity,
                        effects,
                        span,
                    },
                )
            },
            HirExprKind::Unary { op, expr: inner } => {
                let inner = match Self::elaborate_boxed(inner, ctx) {
                    Ok(v) => v,
                    Err(e) => return Err(e),
                };
                Ok(
                    HirExpr {
                        kind: HirExprKind::Unary { op, expr: inner },
                        ty,
                        privacy_tag,
                        sensitivity,
                        effects,
                        span,
                    },
                )
            },
            HirExprKind::Cast { expr: inner, ty: cast_ty } => {
                let inner = match Self::elaborate_boxed(inner, ctx) {
                    Ok(v) => v,
                    Err(e) => return Err(e),
                };
                Ok(
                    HirExpr {
                        kind: HirExprKind::Cast { expr: inner, ty: cast_ty },
                        ty,
                        privacy_tag,
                        sensitivity,
                        effects,
                        span,
                    },
                )
            },
            HirExprKind::Block(block) => {
                let block = match Self::elaborate_block(block, ctx) {
                    Ok(v) => v,
                    Err(e) => return Err(e),
                };
                Ok(
                    HirExpr {
                        kind: HirExprKind::Block(block),
                        ty,
                        privacy_tag,
                        sensitivity,
                        effects,
                        span,
                    },
                )
            },
            HirExprKind::Match { cond, arms } => {
                let cond = match Self::elaborate_boxed(cond, ctx) {
                    Ok(v) => v,
                    Err(e) => return Err(e),
                };
                let arms = match Self::elaborate_arms(arms, ctx) {
                    Ok(v) => v,
                    Err(e) => return Err(e),
                };
                Ok(
                    HirExpr {
                        kind: HirExprKind::Match { cond, arms },
                        ty,
                        privacy_tag,
                        sensitivity,
                        effects,
                        span,
                    },
                )
            },
            HirExprKind::If { kind: if_kind, cond, then_expr, else_expr } => {
                let cond = match Self::elaborate_boxed(cond, ctx) {
                    Ok(v) => v,
                    Err(e) => return Err(e),
                };
                let then_expr = match Self::elaborate_boxed(then_expr, ctx) {
                    Ok(v) => v,
                    Err(e) => return Err(e),
                };
                let else_expr = match else_expr {
                    Some(e) => match Self::elaborate_boxed(e, ctx) {
                        Ok(v) => Some(v),
                        Err(e) => return Err(e),
                    },
                    None => None,
                };
                Ok(
                    HirExpr {
                        kind: HirExprKind::If { kind: if_kind, cond, then_expr, else_expr },
                        ty,
                        privacy_tag,
                        sensitivity,
                        effects,
                        span,
                    },
                )
            },
            HirExprKind::StructInit { struct_name, generic_args, fields } => {
                let fields = match Self::elaborate_fields(fields, ctx) {
                    Ok(v) => v,
                    Err(e) => return Err(e),
                };
                Ok(
                    HirExpr {
                        kind: HirExprKind::StructInit { struct_name, generic_args, fields },
                        ty,
                        privacy_tag,
                        sensitivity,
                        effects,
                        span,
                    },
                )
            },
            HirExprKind::FieldAccess { struct_expr, field_name } => {
                let struct_expr = match Self::elaborate_boxed(struct_expr, ctx) {
                    Ok(v) => v,
                    Err(e) => return Err(e),
                };
                Ok(
                    HirExpr {
                        kind: HirExprKind::FieldAccess { struct_expr, field_name },
                        ty,
                        privacy_tag,
                        sensitivity,
                        effects,
                        span,
                    },
                )
            },
            HirExprKind::Index { expr: base, index } => {
                let base = match Self::elaborate_boxed(base, ctx) {
                    Ok(v) => v,
                    Err(e) => return Err(e),
                };
                let index = match Self::elaborate_boxed(index, ctx) {
                    Ok(v) => v,
                    Err(e) => return Err(e),
                };
                Ok(
                    HirExpr {
                        kind: HirExprKind::Index { expr: base, index },
                        ty,
                        privacy_tag,
                        sensitivity,
                        effects,
                        span,
                    },
                )
            },
            HirExprKind::Range { start, end } => {
                let start = match Self::elaborate_boxed(start, ctx) {
                    Ok(v) => v,
                    Err(e) => return Err(e),
                };
                let end = match Self::elaborate_boxed(end, ctx) {
                    Ok(v) => v,
                    Err(e) => return Err(e),
                };
                Ok(
                    HirExpr {
                        kind: HirExprKind::Range { start, end },
                        ty,
                        privacy_tag,
                        sensitivity,
                        effects,
                        span,
                    },
                )
            },
            HirExprKind::Closure { param, body } => {
                let body = match Self::elaborate_boxed(body, ctx) {
                    Ok(v) => v,
                    Err(e) => return Err(e),
                };
                Ok(
                    HirExpr {
                        kind: HirExprKind::Closure { param, body },
                        ty,
                        privacy_tag,
                        sensitivity,
                        effects,
                        span,
                    },
                )
            },
            HirExprKind::ArrayLiteral(elements) => {
                let elements = match Self::elaborate_exprs(elements, ctx) {
                    Ok(v) => v,
                    Err(e) => return Err(e),
                };
                Ok(
                    HirExpr {
                        kind: HirExprKind::ArrayLiteral(elements),
                        ty,
                        privacy_tag,
                        sensitivity,
                        effects,
                        span,
                    },
                )
            },
            HirExprKind::UnsafeBlock { kind: unsafe_kind, body, span: block_span } => {
                let body = match Self::elaborate_block(body, ctx) {
                    Ok(v) => v,
                    Err(e) => return Err(e),
                };
                Ok(
                    HirExpr {
                        kind: HirExprKind::UnsafeBlock { kind: unsafe_kind, body, span: block_span },
                        ty,
                        privacy_tag,
                        sensitivity,
                        effects,
                        span,
                    },
                )
            },
            HirExprKind::EnumVariantAccess { enum_name, variant_name } => Ok(
                HirExpr {
                    kind: HirExprKind::EnumVariantAccess { enum_name, variant_name },
                    ty,
                    privacy_tag,
                    sensitivity,
                    effects,
                    span,
                },
            ),
            HirExprKind::EnumVariantConstruction { enum_name, generic_args, variant_name, args } => {
                let new_args = match Self::elaborate_call_args(args, ctx) {
                    Ok(v) => v,
                    Err(e) => return Err(e),
                };
                Ok(
                    HirExpr {
                        kind: HirExprKind::EnumVariantConstruction {
                            enum_name,
                            generic_args,
                            variant_name,
                            args: new_args,
                        },
                        ty,
                        privacy_tag,
                        sensitivity,
                        effects,
                        span,
                    },
                )
            },
            HirExprKind::LackSlice(t) => Ok(
                HirExpr { kind: HirExprKind::LackSlice(t), ty, privacy_tag, sensitivity, effects, span },
            ),
        }
    }

    /// Elaborates a boxed expression.
    fn elaborate_boxed(e: Box<HirExpr>, ctx: &mut ElaborateContext) -> (r: Result<Box<HirExpr>, String>)
        requires
            old(ctx).temp_counter + temps_expr(*e, old(ctx).cost()) <= usize::MAX,
        ensures
            final(ctx).return_ty == old(ctx).return_ty,
            r is Ok <==> elab_ok(meets_try_expr(*e), old(ctx).ret()),
            r matches Ok(x) ==> final(ctx).temp_counter == old(ctx).temp_counter + temps_expr(
                *e,
                old(ctx).cost(),
            ) && expr_kept(*e, *x, old(ctx).ret()),
            r matches Err(m) ==> m@ == try_error_text(old(ctx).ret()),
        decreases e, 1nat,
    {
        match Self::elaborate_expr(*e, ctx) {
            Ok(x) => Ok(Box::new(x)),
            Err(m) => Err(m),
        }
    }

    // ===== sequences =====

    /// Elaborates the arguments of a call, in order, stopping at the first error.
    fn elaborate_call_args(args: Vec<HirCallArg>, ctx: &mut ElaborateContext) -> (r: Result<Vec<HirCallArg>, String>)
        requires
            old(ctx).temp_counter + temps_args(args@, 0, old(ctx).cost()) <= usize::MAX,
        ensures
            final(ctx).return_ty == old(ctx).return_ty,
            r is Ok <==> elab_ok(meets_try_args(args@, 0), old(ctx).ret()),
            r matches Ok(v) ==> final(ctx).temp_counter == old(ctx).temp_counter + temps_args(
                args@,
                0,
                old(ctx).cost(),
            ) && v@.len() == args@.len() && forall|i: int|
                0 <= i < args@.len() ==> arg_kept(args@[i], #[trigger] v@[i], old(ctx).ret()),
            r matches Err(m) ==> m@ == try_error_text(old(ctx).ret()),
        decreases args, 0nat,
    {
        let n = args.len();
        let ghost g = args;
        let ghost orig = args@;
        let ghost start = ctx.temp_counter;
        let ghost k = ctx.cost();
        let mut rest = args;
        let mut out: Vec<HirCallArg> = Vec::new();
        let mut i: usize = 0;
        while rest.len() > 0
            invariant
                i <= orig.len(),
                orig.len() == n,
                g@ == orig,
                args@ == orig,
                rest@ == orig.skip(i as int),
                out@.len() == i,
                ctx.return_ty == old(ctx).return_ty,
                k == ctx.cost(),
                ctx.temp_counter + temps_args(orig, i as int, k) == start + temps_args(orig, 0, k),
                start + temps_args(orig, 0, k) <= usize::MAX,
                supports_try_in(ctx.ret()) || meets_try_args(orig, 0) == meets_try_args(orig, i as int),
                forall|j: int| 0 <= j < i ==> arg_kept(orig[j], #[trigger] out@[j], old(ctx).ret()),
            decreases rest.len(),
        {
            let item = rest.remove(0);
            assert(item == orig[i as int]);
            let done = match item {
                HirCallArg::Positional(e) => {
                    proof {
                        assert(decreases_to!(g => g@));
                        assert(decreases_to!(g@ => g@[i as int]));
                        assert(decreases_to!(g@[i as int] => e));
                    }
                    match Self::elaborate_expr(e, ctx) {
                        Ok(x) => HirCallArg::Positional(x),
                        Err(m) => return Err(m),
                    }
                },
                HirCallArg::Named(n, e) => {
                    proof {
                        assert(decreases_to!(g => g@));
                        assert(decreases_to!(g@ => g@[i as int]));
                        assert(decreases_to!(g@[i as int] => e));
                    }
                    match Self::elaborate_expr(e, ctx) {
                        Ok(x) => HirCallArg::Named(n, x),
                        Err(m) => return Err(m),
                    }
                },
            };
            out.push(done);
            i += 1;
        }
        Ok(out)
    }

    /// Elaborates the arms of a `match`, in order, stopping at the first error.
    fn elaborate_arms(arms: Vec<HirMatchArm>, ctx: &mut ElaborateContext) -> (r: Result<Vec<HirMatchArm>, String>)
        requires
            old(ctx).temp_counter + temps_arms(arms@, 0, old(ctx).cost()) <= usize::MAX,
        ensures
            final(ctx).return_ty == old(ctx).return_ty,
            r is Ok <==> elab_ok(meets_try_arms(arms@, 0), old(ctx).ret()),
            r matches Ok(v) ==> final(ctx).temp_counter == old(ctx).temp_counter + temps_arms(
                arms@,
                0,
                old(ctx).cost(),
            ) && v@.len() == arms@.len() && forall|i: int|
                0 <= i < arms@.len() ==> arm_kept(arms@[i], #[trigger] v@[i], old(ctx).ret()),
            r matches Err(m) ==> m@ == try_error_text(old(ctx).ret()),
        decreases arms, 0nat,
    {
        let n = arms.len();
        let ghost g = arms;
        let ghost orig = arms@;
        let ghost start = ctx.temp_counter;
        let ghost k = ctx.cost();
        let mut rest = arms;
        let mut out: Vec<HirMatchArm> = Vec::new();
        let mut i: usize = 0;
        while rest.len() > 0
            invariant
                i <= orig.len(),
                orig.len() == n,
                g@ == orig,
                arms@ == orig,
                rest@ == orig.skip(i as int),
                out@.len() == i,
                ctx.return_ty == old(ctx).return_ty,
                k == ctx.cost(),
                ctx.temp_counter + temps_arms(orig, i as int, k) == start + temps_arms(orig, 0, k),
                start + temps_arms(orig, 0, k) <= usize::MAX,
                supports_try_in(ctx.ret()) || meets_try_arms(orig, 0) == meets_try_arms(orig, i as int),
                forall|j: int| 0 <= j < i ==> arm_kept(orig[j], #[trigger] out@[j], old(ctx).ret()),
            decreases rest.len(),
        {
            let item = rest.remove(0);
            assert(item == orig[i as int]);
            let HirMatchArm { pattern, expr } = item;
            proof {
                assert(decreases_to!(g => g@));
                assert(decreases_to!(g@ => g@[i as int]));
                assert(decreases_to!(g@[i as int] => g@[i as int].expr));
            }
            let done = match Self::elaborate_expr(expr, ctx) {
                Ok(x) => HirMatchArm { pattern, expr: x },
                Err(m) => return Err(m),
            };
            out.push(done);
            i += 1;
        }
        Ok(out)
    }

    /// Elaborates the fields of a struct literal, in order, stopping at the first error.
    fn elaborate_fields(fields: Vec<(String, HirExpr)>, ctx: &mut ElaborateContext) -> (r: Result<Vec<(String, HirExpr)>, String>)
        requires
            old(ctx).temp_counter + temps_fields(fields@, 0, old(ctx).cost()) <= usize::MAX,
        ensures
            final(ctx).return_ty == old(ctx).return_ty,
            r is Ok <==> elab_ok(meets_try_fields(fields@, 0), old(ctx).ret()),
            r matches Ok(v) ==> final(ctx).temp_counter == old(ctx).temp_counter + temps_fields(
                fields@,
                0,
                old(ctx).cost(),
            ) && v@.len() == fields@.len() && forall|i: int|
                0 <= i < fields@.len() ==> field_kept(fields@[i], #[trigger] v@[i], old(ctx).ret()),
            r matches Err(m) ==> m@ == try_error_text(old(ctx).ret()),
        decreases fields, 0nat,
    {
        let n = fields.len();
        let ghost g = fields;
        let ghost orig = fields@;
        let ghost start = ctx.temp_counter;
        let ghost k = ctx.cost();
        let mut rest = fields;
        let mut out: Vec<(String, HirExpr)> = Vec::new();
        let mut i: usize = 0;
        while rest.len() > 0
            invariant
                i <= orig.len(),
                orig.len() == n,
                g@ == orig,
                fields@ == orig,
                rest@ == orig.skip(i as int),
                out@.len() == i,
                ctx.return_ty == old(ctx).return_ty,
                k == ctx.cost(),
                ctx.temp_counter + temps_fields(orig, i as int, k) == start + temps_fields(orig, 0, k),
                start + temps_fields(orig, 0, k) <= usize::MAX,
                supports_try_in(ctx.ret()) || meets_try_fields(orig, 0) == meets_try_fields(orig, i as int),
                forall|j: int| 0 <= j < i ==> field_kept(orig[j], #[trigger] out@[j], old(ctx).ret()),
            decreases rest.len(),
        {
            let item = rest.remove(0);
            assert(item == orig[i as int]);
            let (name, e) = item;
            proof {
                assert(decreases_to!(g => g@));
                assert(decreases_to!(g@ => g@[i as int]));
                assert(decreases_to!(g@[i as int] => g@[i as int].1));
            }
            let done = match Self::elaborate_expr(e, ctx) {
                Ok(x) => (name, x),
                Err(m) => return Err(m),
            };
            out.push(done);
            i += 1;
        }
        Ok(out)
    }

    /// Elaborates the elements of an array literal, in order, stopping at the first error.
    fn elaborate_exprs(elements: Vec<HirExpr>, ctx: &mut ElaborateContext) -> (r: Result<Vec<HirExpr>, String>)
        requires
            old(ctx).temp_counter + temps_exprs(elements@, 0, old(ctx).cost()) <= usize::MAX,
        ensures
            final(ctx).return_ty == old(ctx).return_ty,
            r is Ok <==> elab_ok(meets_try_exprs(elements@, 0), old(ctx).ret()),
            r matches Ok(v) ==> final(ctx).temp_counter == old(ctx).temp_counter + temps_exprs(
                elements@,
                0,
                old(ctx).cost(),
            ) && v@.len() == elements@.len() && forall|i: int|
                0 <= i < elements@.len() ==> expr_kept(elements@[i], #[trigger] v@[i], old(ctx).ret()),
            r matches Err(m) ==> m@ == try_error_text(old(ctx).ret()),
        decreases elements, 0nat,
    {
        let n = elements.len();
        let ghost g = elements;
        let ghost orig = elements@;
        let ghost start = ctx.temp_counter;
        let ghost k = ctx.cost();
        let mut rest = elements;
        let mut out: Vec<HirExpr> = Vec::new();
        let mut i: usize = 0;
        while rest.len() > 0
            invariant
                i <= orig.len(),
                orig.len() == n,
                g@ == orig,
                elements@ == orig,
                rest@ == orig.skip(i as int),
                out@.len() == i,
                ctx.return_ty == old(ctx).return_ty,
                k == ctx.cost(),
                ctx.temp_counter + temps_exprs(orig, i as int, k) == start + temps_exprs(orig, 0, k),
                start + temps_exprs(orig, 0, k) <= usize::MAX,
                supports_try_in(ctx.ret()) || meets_try_exprs(orig, 0) == meets_try_exprs(orig, i as int),
                forall|j: int| 0 <= j < i ==> expr_kept(orig[j], #[trigger] out@[j], old(ctx).ret()),
            decreases rest.len(),
        {
            let item = rest.remove(0);
            assert(item == orig[i as int]);
            proof {
                assert(decreases_to!(g => g@));
                assert(decreases_to!(g@ => g@[i as int]));
            }
            let done = match Self::elaborate_expr(item, ctx) {
                Ok(x) => x,
                Err(m) => return Err(m),
            };
            out.push(done);
            i += 1;
        }
        Ok(out)
    }

    // ===== blocks and statements =====

    /// Elaborates the statements of a block, in order.
    fn elaborate_block(block: HirBlock, ctx: &mut ElaborateContext) -> (r: Result<HirBlock, String>)
        requires
            old(ctx).temp_counter + temps_block(block, old(ctx).cost()) <= usize::MAX,
        ensures
            final(ctx).return_ty == old(ctx).return_ty,
            r is Ok <==> elab_ok(meets_try_block(block), old(ctx).ret()),
            r matches Ok(b) ==> final(ctx).temp_counter == old(ctx).temp_counter + temps_block(
                block,
                old(ctx).cost(),
            ) && block_kept(block, b, old(ctx).ret()),
            r matches Err(m) ==> m@ == try_error_text(old(ctx).ret()),
        decreases block, 0nat,
    {
        let n = block.stmts.len();
        let ghost g = block;
        let ghost orig = block.stmts@;
        let ghost start = ctx.temp_counter;
        let ghost k = ctx.cost();
        let HirBlock { stmts, span } = block;
        let mut rest = stmts;
        let mut out: Vec<HirStmt> = Vec::new();
        let mut i: usize = 0;
        while rest.len() > 0
            invariant
                i <= orig.len(),
                orig.len() == n,
                g.stmts@ == orig,
                g == block,
                rest@ == orig.skip(i as int),
                out@.len() == i,
                ctx.return_ty == old(ctx).return_ty,
                k == ctx.cost(),
                ctx.temp_counter + temps_stmts(orig, i as int, k) == start + temps_stmts(orig, 0, k),
                start + temps_stmts(orig, 0, k) <= usize::MAX,
                supports_try_in(ctx.ret()) || meets_try_stmts(orig, 0) == meets_try_stmts(
                    orig,
                    i as int,
                ),
                forall|j: int| 0 <= j < i ==> stmt_kept(orig[j], #[trigger] out@[j], old(ctx).ret()),
            decreases rest.len(),
        {
            let item = rest.remove(0);
            assert(item == orig[i as int]);
            proof {
                assert(decreases_to!(g => g.stmts));
                assert(decreases_to!(g.stmts => g.stmts@));
                assert(decreases_to!(g.stmts@ => g.stmts@[i as int]));
            }
            let done = match Self::elaborate_stmt(item, ctx) {
                Ok(x) => x,
                Err(m) => return Err(m),
            };
            out.push(done);
            i += 1;
        }
        Ok(HirBlock { stmts: out, span })
    }

    /// Elaborates one statement: a `for` is expanded, anything else has its
    /// parts elaborated.
    fn elaborate_stmt(stmt: HirStmt, ctx: &mut ElaborateContext) -> (r: Result<HirStmt, String>)
        requires
            old(ctx).temp_counter + temps_stmt(stmt, old(ctx).cost()) <= usize::MAX,
        ensures
            final(ctx).return_ty == old(ctx).return_ty,
            r is Ok <==> elab_ok(meets_try_stmt(stmt), old(ctx).ret()),
            r matches Ok(s) ==> final(ctx).temp_counter == old(ctx).temp_counter + temps_stmt(
                stmt,
                old(ctx).cost(),
            ) && stmt_kept(stmt, s, old(ctx).ret()),
            r matches Err(m) ==> m@ == try_error_text(old(ctx).ret()),
        decreases stmt, 0nat,
    {
        match stmt {
            HirStmt::For { var, iterable, body, span } => {
                let ghost it0 = iterable;
                let ghost bd0 = body;
                let iterable = match Self::elaborate_expr(iterable, ctx) {
                    Ok(v) => v,
                    Err(e) => return Err(e),
                };
                let body = match Self::elaborate_block(body, ctx) {
                    Ok(v) => v,
                    Err(e) => return Err(e),
                };
                let ghost it1 = iterable;
                let ghost bd1 = body;
                let ghost c = ctx.temp_counter;
                let r = Self::expand_for(var, iterable, body, span, ctx);
                proof {
                    assert(r matches Ok(st) ==> for_expansion(st, var@, it1, bd1, span, c as nat));
                    assert(expr_kept(it0, it1, old(ctx).ret()));
                    assert(block_kept(bd0, bd1, old(ctx).ret()));
                }
                r
            },
            HirStmt::Let { name, ty, init, mutable, persist, span } => {
                let init = match Self::elaborate_expr(init, ctx) {
                    Ok(v) => v,
                    Err(e) => return Err(e),
                };
                Ok(HirStmt::Let { name, ty, init, mutable, persist, span })
            },
            HirStmt::Expr { expr, span } => {
                let expr = match Self::elaborate_expr(expr, ctx) {
                    Ok(v) => v,
                    Err(e) => return Err(e),
                };
                Ok(HirStmt::Expr { expr, span })
            },
            HirStmt::Return { expr, span } => {
                let expr = match expr {
                    Some(e) => match Self::elaborate_expr(e, ctx) {
                        Ok(v) => Some(v),
                        Err(e) => return Err(e),
                    },
                    None => None,
                };
                Ok(HirStmt::Return { expr, span })
            },
            HirStmt::While { cond, body, span } => {
                let cond = match Self::elaborate_expr(cond, ctx) {
                    Ok(v) => v,
                    Err(e) => return Err(e),
                };
                let body = match Self::elaborate_block(body, ctx) {
                    Ok(v) => v,
                    Err(e) => return Err(e),
                };
                Ok(HirStmt::While { cond, body, span })
            },
            HirStmt::Assign { target, expr, span } => {
                let target = match Self::elaborate_expr(*target, ctx) {
                    Ok(v) => v,
                    Err(e) => return Err(e),
                };
                let expr = match Self::elaborate_expr(expr, ctx) {
                    Ok(v) => v,
                    Err(e) => return Err(e),
                };
                Ok(HirStmt::Assign { target: Box::new(target), expr, span })
            },
            HirStmt::Loop { body, span } => {
                let body = match Self::elaborate_block(body, ctx) {
                    Ok(v) => v,
                    Err(e) => return Err(e),
                };
                Ok(HirStmt::Loop { body, span })
            },
            HirStmt::Break { span } => Ok(HirStmt::Break { span }),
            HirStmt::UnsafeBlock { kind, body, span } => {
                let body = match Self::elaborate_block(body, ctx) {
                    Ok(v) => v,
                    Err(e) => return Err(e),
                };
                Ok(HirStmt::UnsafeBlock { kind, body, span })
            },
        }
    }

    // ===== `for` loops =====

    /// `for var in iterable { body }` becomes
    /// `{ let mut t = iterable.into_iter(); loop { match t.next() { Some(var) => body, None => { break } } }; () }`
    /// with a fresh `t`.
    fn expand_for(
        var: String,
        iterable: HirExpr,
        body: HirBlock,
        span: Span,
        ctx: &mut ElaborateContext,
    ) -> (r: Result<HirStmt, String>)
        requires
            old(ctx).temp_counter < usize::MAX,
        ensures
            final(ctx).return_ty == old(ctx).return_ty,
            final(ctx).temp_counter == old(ctx).temp_counter + 1,
            r matches Ok(st) && for_expansion(st, var@, iterable, body, span, old(ctx).temp_counter as nat),
    {
        let iter_var = ctx.next_temp();
        let ghost it = iterable;
        let elem_ty = extract_elem_type(&iterable.ty);
        let iterable_ty = iterable.ty.duplicate();
        let iterable_effects = iterable.effects;
        let let_stmt = Self::build_into_iter_let(iter_var.clone(), iterable, span, ctx);
        let (match_expr, match_effects) = Self::build_for_next_match(
            iter_var.as_str(),
            elem_ty,
            var,
            body,
            iterable_ty,
            iterable_effects,
            span,
            ctx,
        );
        let mut loop_stmts: Vec<HirStmt> = Vec::new();
        loop_stmts.push(HirStmt::Expr { expr: match_expr, span });
        let loop_stmt = HirStmt::Loop { body: HirBlock { stmts: loop_stmts, span }, span };
        let unit_expr = ctx.mk_expr_default(HirExprKind::Literal(Literal::Unit), Type::Unit, span);
        let mut stmts: Vec<HirStmt> = Vec::new();
        stmts.push(let_stmt);
        stmts.push(loop_stmt);
        proof {
            reveal(matches_next_of);
            assert(matches_next_of(match_expr, iter_var@, it));
        }
        assert(sugar_free_expr(unit_expr));
        stmts.push(HirStmt::Expr { expr: unit_expr, span });
        assert(sugar_free_stmt(stmts@[2]));
        proof {
            reveal(unit_stmt);
        }
        let block = HirBlock { stmts, span };
        Ok(
            HirStmt::Expr {
                expr: ctx.mk_expr(HirExprKind::Block(block), Type::Unit, match_effects, span),
                span,
            },
        )
    }

    /// `let mut iter_var = iterable.into_iter();`
    fn build_into_iter_let(iter_var: String, iterable: HirExpr, span: Span, ctx: &ElaborateContext) -> (r:
        HirStmt)
        ensures
            into_iter_let(r, iter_var@, iterable, span),
    {
        let ty = iterable.ty.duplicate();
        let effects = iterable.effects;
        let mut args: Vec<HirCallArg> = Vec::new();
        args.push(HirCallArg::Positional(iterable));
        let into_iter_call = ctx.mk_expr(
            HirExprKind::Call {
                qualifier: None,
                func: String::from_str("into_iter"),
                generic_args: Vec::new(),
                args,
                is_method: true,
            },
            ty,
            effects,
            span,
        );
        HirStmt::Let { name: iter_var, ty: None, init: into_iter_call, mutable: true, persist: false, span }
    }

    /// `match iter_var.next() { Some(var) => { body }, None => { break } }`,
    /// with the effects of the whole `match`.
    fn build_for_next_match(
        iter_var: &str,
        elem_ty: Type,
        var: String,
        body: HirBlock,
        iterable_ty: Type,
        iterable_effects: EffectSet,
        span: Span,
        ctx: &ElaborateContext,
    ) -> (r: (HirExpr, EffectSet))
        ensures
            r.1 == r.0.effects,
            r.0.span == span,
            r.0.ty@ == TypeModel::Generic("Option"@, seq![elem_ty@]),
            r.0.kind matches HirExprKind::Match { cond, .. } && next_call(*cond, iter_var@, iterable_ty, iterable_effects)
                && cond.ty@ == TypeModel::Generic("Option"@, seq![elem_ty@]),
            r.0.kind matches HirExprKind::Match { arms, .. } && arms@.len() == 2 && (match arms@[1].expr.kind {
                HirExprKind::Block(b) => b.stmts@.len() == 1 && b.stmts@[0] is Break,
                _ => false,
            }),
            next_match_arms(r.0, var@, body),
            r.1 == union_all(seq![iterable_effects, block_effects(body), no_effects()], 3),
    {
        let elem_ty2 = elem_ty.duplicate();
        let mut next_args: Vec<HirCallArg> = Vec::new();
        next_args.push(HirCallArg::Positional(ctx.mk_ident(iter_var, iterable_ty, span)));
        let mut opt_args: Vec<Type> = Vec::new();
        opt_args.push(elem_ty);
        let next_call = ctx.mk_expr(
            HirExprKind::Call {
                qualifier: None,
                func: String::from_str("next"),
                generic_args: Vec::new(),
                args: next_args,
                is_method: true,
            },
            Type::Generic(String::from_str("Option"), opt_args),
            iterable_effects,
            span,
        );
        proof {
            reveal_strlit("Option");
            assert(next_call.ty@->Generic_1 =~= seq![elem_ty2@]);
            assert(sugar_free_arg(next_call.kind->Call_args@[0]));
            assert(sugar_free_args(next_call.kind->Call_args@));
            assert(sugar_free_expr(next_call));
        }
        let next_effects = next_call.effects;
        let body_effects = Self::collect_effects_from_block(&body);
        let some_arm = HirMatchArm {
            pattern: some_pattern(var.as_str()),
            expr: ctx.mk_expr(HirExprKind::Block(body), Type::Unit, body_effects, span),
        };
        let mut brk: Vec<HirStmt> = Vec::new();
        brk.push(HirStmt::Break { span });
        let break_expr = ctx.mk_diverging_block(brk, span);
        proof {
            assert(sugar_free_stmt(break_expr.kind->Block_0.stmts@[0]));
            assert(sugar_free_block(break_expr.kind->Block_0));
            assert(sugar_free_expr(break_expr));
            reveal(part_sugar_free);
        }
        let break_effects = break_expr.effects;
        let none_arm = HirMatchArm { pattern: none_pattern(), expr: break_expr };
        let mut effs: Vec<EffectSet> = Vec::new();
        effs.push(next_effects);
        effs.push(body_effects);
        effs.push(break_effects);
        assert(effs@ == seq![iterable_effects, block_effects(body), no_effects()]);
        let match_effects = EffectSet::merge(effs.as_slice());
        let mut opt_args2: Vec<Type> = Vec::new();
        opt_args2.push(elem_ty2);
        let result_ty = Type::Generic(String::from_str("Option"), opt_args2);
        proof {
            reveal_strlit("Option");
            assert(result_ty@->Generic_1 =~= seq![elem_ty@]);
        }
        let mut arms: Vec<HirMatchArm> = Vec::new();
        arms.push(some_arm);
        arms.push(none_arm);
        let match_expr = ctx.mk_expr(
            HirExprKind::Match { cond: Box::new(next_call), arms },
            result_ty,
            match_effects,
            span,
        );
        (match_expr, match_effects)
    }

    /// The effects of all the expressions of a block's statements.
    fn collect_effects_from_block(block: &HirBlock) -> (r: EffectSet)
        ensures
            r == block_effects(*block),
    {
        let exprs = Self::block_exprs(block);
        let ghost es = stmts_exprs_spec(block.stmts@, 0);
        let mut effs: Vec<EffectSet> = Vec::new();
        let mut i: usize = 0;
        while i < exprs.len()
            invariant
                i <= exprs@.len(),
                exprs@.len() == es.len(),
                forall|j: int| 0 <= j < exprs@.len() ==> *exprs@[j] == es[j],
                effs@ == es.map_values(|e: HirExpr| e.effects).take(i as int),
            decreases exprs.len() - i,
        {
            effs.push(exprs[i].effects);
            i += 1;
            assert(effs@ =~= es.map_values(|e: HirExpr| e.effects).take(i as int));
        }
        assert(effs@ =~= es.map_values(|e: HirExpr| e.effects));
        EffectSet::merge(effs.as_slice())
    }

    /// The expressions of a block's statements, in order.
    fn block_exprs<'a>(block: &'a HirBlock) -> (r: Vec<&'a HirExpr>)
        ensures
            deref_seq(r@) == stmts_exprs_spec(block.stmts@, 0),
        decreases block, 0nat,
    {
        let ghost s = block.stmts@;
        let mut all: Vec<&'a HirExpr> = Vec::new();
        let mut i: usize = 0;
        while i < block.stmts.len()
            invariant
                i <= s.len(),
                s == block.stmts@,
                deref_seq(all@) + stmts_exprs_spec(s, i as int) == stmts_exprs_spec(s, 0),
            decreases block.stmts.len() - i,
        {
            proof {
                assert(decreases_to!(block => block.stmts@[i as int]));
            }
            let mut more = Self::stmt_exprs(&block.stmts[i]);
            let ghost before = all@;
            let ghost extra = more@;
            all.append(&mut more);
            proof {
                assert(deref_seq(all@) =~= deref_seq(before) + deref_seq(extra));
                assert(stmts_exprs_spec(s, i as int) == stmt_exprs_spec(s[i as int]) + stmts_exprs_spec(
                    s,
                    i + 1,
                ));
                assert(deref_seq(before) + stmts_exprs_spec(s, i as int) =~= deref_seq(all@)
                    + stmts_exprs_spec(s, i + 1));
            }
            i += 1;
        }
        assert(deref_seq(all@) =~= deref_seq(all@) + stmts_exprs_spec(s, i as int));
        all
    }

    /// The expressions of one statement, and of the blocks it holds.
    fn stmt_exprs<'a>(stmt: &'a HirStmt) -> (r: Vec<&'a HirExpr>)
        ensures
            deref_seq(r@) == stmt_exprs_spec(*stmt),
        decreases stmt, 0nat,
    {
        let mut v: Vec<&'a HirExpr> = Vec::new();
        match stmt {
            HirStmt::Expr { expr, .. } => {
                v.push(expr);
            },
            HirStmt::Let { init, .. } => {
                v.push(init);
            },
            HirStmt::Return { expr: Some(e), .. } => {
                v.push(e);
            },
            HirStmt::Return { expr: None, .. } => {},
            HirStmt::While { cond, body, .. } => {
                v.push(cond);
                let mut rest = Self::block_exprs(body);
                let ghost extra = rest@;
                v.append(&mut rest);
                assert(deref_seq(v@) =~= seq![*cond] + deref_seq(extra));
            },
            HirStmt::For { body, .. } => {
                v = Self::block_exprs(body);
            },
            HirStmt::Loop { body, .. } => {
                v = Self::block_exprs(body);
            },
            HirStmt::Assign { target, expr, .. } => {
                v.push(&**target);
                v.push(expr);
            },
            HirStmt::UnsafeBlock { body, .. } => {
                v = Self::block_exprs(body);
            },
            HirStmt::Break { .. } => {},
        }
        assert(deref_seq(v@) =~= stmt_exprs_spec(*stmt));
        v
    }

    // ===== `try` =====

    /// `try(expr)`: a `match` on `expr` that yields the value and returns
    /// the error (or `None`) early; an error where the function returns
    /// neither `Result` nor `Option`.
    fn expand_try(expr: HirExpr, ctx: &mut ElaborateContext) -> (r: Result<HirExpr, String>)
        requires
            old(ctx).temp_counter + old(ctx).cost() <= usize::MAX,
        ensures
            final(ctx).return_ty == old(ctx).return_ty,
            r is Ok <==> supports_try_in(old(ctx).ret()),
            r matches Ok(e) ==> final(ctx).temp_counter == old(ctx).temp_counter + old(ctx).cost(),
            r matches Ok(e) ==> try_expanded(e, expr, old(ctx).ret(), old(ctx).temp_counter as nat),
            r matches Err(m) ==> m@ == try_error_text(old(ctx).ret()),
    {
        if !ctx.supports_try() {
            let mut m = String::from_str("`?` cannot be used in a function that returns ");
            let d = debug_return_type(&ctx.return_ty);
            m.append(d.as_str());
            m.append("; only functions returning `Result<T, E>` or `Option<T>` support `?`");
            return Err(m);
        }
        let temp_var = ctx.next_temp();
        if ctx.is_result() {
            let r = Self::build_result_try(expr, temp_var, ctx);
            proof {
                reveal(try_returns);
            }
            r
        } else if ctx.is_option() {
            let r = Self::build_option_try(expr, temp_var, ctx);
            proof {
                reveal(try_returns);
            }
            r
        } else {
            Err(String::from_str("`?` requires Result or Option return type"))
        }
    }

    /// `match expr { Ok(t) => t, Err(e) => { return Result::Err(e.into()); } }`
    /// with `e` a fresh name.
    fn build_result_try(expr: HirExpr, temp_var: String, ctx: &mut ElaborateContext) -> (r: Result<
        HirExpr,
        String,
    >)
        requires
            returns_result(old(ctx).ret()),
            old(ctx).temp_counter < usize::MAX,
        ensures
            final(ctx).return_ty == old(ctx).return_ty,
            final(ctx).temp_counter == old(ctx).temp_counter + 1,
            r matches Ok(e) && try_match(e, expr, "Result"@, "Ok"@, temp_var@),
            r matches Ok(e) && binding_pattern(
                second_arm(e).pattern,
                "Result"@,
                "Err"@,
                fresh_name(old(ctx).temp_counter as nat),
            ),
            r matches Ok(e) && early_return(second_arm(e).expr.kind, "Result"@, "Err"@, 1),
            r matches Ok(e) && returned_value(second_arm(e).expr.kind) matches Some(v) && Some(v.ty@)
                == old(ctx).ret() && passes_into_of(v, fresh_name(old(ctx).temp_counter as nat)),
            r matches Ok(e) && e.privacy_tag is None && e.sensitivity == Sensitivity::Unknown,
            r matches Ok(e) && part_sugar_free(second_arm(e).expr),
            r matches Ok(e) && e.ty@ == try_value_type(old(ctx).ret()),
    {
        let span = expr.span;
        let ok_arm = HirMatchArm {
            pattern: ok_pattern(temp_var.as_str()),
            expr: ctx.mk_bound_ident(temp_var.as_str(), &expr),
        };
        let err_var = ctx.next_temp();
        let err_ident = ctx.mk_ident(err_var.as_str(), ctx.error_type(), span);
        let mut into_args: Vec<HirCallArg> = Vec::new();
        into_args.push(HirCallArg::Positional(err_ident));
        assert(sugar_free_arg(into_args@[0]));
        assert(sugar_free_args(into_args@));
        let into_call = ctx.mk_call("into", into_args, ctx.error_type(), span);
        assert(sugar_free_expr(into_call));
        let mut ret_args: Vec<HirCallArg> = Vec::new();
        ret_args.push(HirCallArg::Positional(into_call));
        assert(sugar_free_arg(ret_args@[0]));
        assert(sugar_free_args(ret_args@));
        let err_return_value = ctx.mk_expr_default(
            HirExprKind::Call {
                qualifier: Some(String::from_str("Result")),
                func: String::from_str("Err"),
                generic_args: Vec::new(),
                args: ret_args,
                is_method: false,
            },
            unwrap_or_never(&ctx.return_ty),
            span,
        );
        assert(sugar_free_expr(err_return_value));
        let mut ret_stmts: Vec<HirStmt> = Vec::new();
        ret_stmts.push(HirStmt::Return { expr: Some(err_return_value), span });
        assert(sugar_free_stmt(ret_stmts@[0]));
        let err_arm = HirMatchArm {
            pattern: err_pattern(err_var.as_str()),
            expr: ctx.mk_diverging_block(ret_stmts, span),
        };
        assert(sugar_free_block(err_arm.expr.kind->Block_0));
        assert(sugar_free_expr(err_arm.expr));
        proof {
            reveal(part_sugar_free);
        }
        let mut effs: Vec<EffectSet> = Vec::new();
        effs.push(expr.effects);
        effs.push(ok_arm.expr.effects);
        effs.push(err_arm.expr.effects);
        assert(effs@ == seq![expr.effects, expr.effects, no_effects()]);
        let match_effects = EffectSet::merge(effs.as_slice());
        let result_ty = ctx.value_type();
        let mut arms: Vec<HirMatchArm> = Vec::new();
        arms.push(ok_arm);
        arms.push(err_arm);
        Ok(
            ctx.mk_expr(
                HirExprKind::Match { cond: Box::new(expr), arms },
                result_ty,
                match_effects,
                span,
            ),
        )
    }

    /// `match expr { Some(t) => t, None => { return Option::None; } }`.
    fn build_option_try(expr: HirExpr, temp_var: String, ctx: &mut ElaborateContext) -> (r: Result<
        HirExpr,
        String,
    >)
        requires
            returns_option(old(ctx).ret()),
        ensures
            final(ctx).return_ty == old(ctx).return_ty,
            final(ctx).temp_counter == old(ctx).temp_counter,
            r matches Ok(e) && try_match(e, expr, "Option"@, "Some"@, temp_var@),
            r matches Ok(e) && enum_pattern(second_arm(e).pattern, "Option"@, "None"@),
            r matches Ok(e) && early_return(second_arm(e).expr.kind, "Option"@, "None"@, 0),
            r matches Ok(e) && returned_value(second_arm(e).expr.kind) matches Some(v) && Some(v.ty@)
                == old(ctx).ret(),
            r matches Ok(e) && e.privacy_tag is None && e.sensitivity == Sensitivity::Unknown,
            r matches Ok(e) && part_sugar_free(second_arm(e).expr),
            r matches Ok(e) && e.ty@ == try_value_type(old(ctx).ret()),
    {
        let span = expr.span;
        let some_arm = HirMatchArm {
            pattern: some_pattern(temp_var.as_str()),
            expr: ctx.mk_bound_ident(temp_var.as_str(), &expr),
        };
        let none_return_value = ctx.mk_expr_default(
            HirExprKind::Call {
                qualifier: Some(String::from_str("Option")),
                func: String::from_str("None"),
                generic_args: Vec::new(),
                args: Vec::new(),
                is_method: false,
            },
            unwrap_or_never(&ctx.return_ty),
            span,
        );
        assert(sugar_free_args(none_return_value.kind->Call_args@));
        assert(sugar_free_expr(none_return_value));
        let mut ret_stmts: Vec<HirStmt> = Vec::new();
        ret_stmts.push(HirStmt::Return { expr: Some(none_return_value), span });
        assert(sugar_free_stmt(ret_stmts@[0]));
        let none_arm = HirMatchArm { pattern: none_pattern(), expr: ctx.mk_diverging_block(ret_stmts, span) };
        assert(sugar_free_block(none_arm.expr.kind->Block_0));
        assert(sugar_free_expr(none_arm.expr));
        proof {
            reveal(part_sugar_free);
        }
        let mut effs: Vec<EffectSet> = Vec::new();
        effs.push(expr.effects);
        effs.push(some_arm.expr.effects);
        effs.push(none_arm.expr.effects);
        assert(effs@ == seq![expr.effects, expr.effects, no_effects()]);
        let match_effects = EffectSet::merge(effs.as_slice());
        let result_ty = ctx.value_type();
        let mut arms: Vec<HirMatchArm> = Vec::new();
        arms.push(some_arm);
        arms.push(none_arm);
        Ok(
            ctx.mk_expr(
                HirExprKind::Match { cond: Box::new(expr), arms },
                result_ty,
                match_effects,
                span,
            ),
        )
    }

    // ===== functions and the program =====

    /// Elaborates the body of `f` in a context of its own.
    fn elaborate_fn(f: HirFn, ctx: &mut ElaborateContext) -> (r: Result<HirFn, String>)
        requires
            fn_fits(f),
        ensures
            r is Ok <==> !fn_fails(f),
            r matches Ok(g) ==> fn_kept(f, g),
            r matches Err(m) ==> m@ == try_error_text(opt_type_model(f.return_type)),
    {
        let HirFn { name, generic_params, params, return_type, body, effects, sensitivity, is_forward } = f;
        let mut fn_ctx = ElaborateContext::new(duplicate_opt_type(&return_type));
        let body = match Self::elaborate_block(body, &mut fn_ctx) {
            Ok(b) => b,
            Err(e) => return Err(e),
        };
        Ok(HirFn { name, generic_params, params, return_type, body, effects, sensitivity, is_forward })
    }

    /// Elaborates each function in turn, stopping at the first error.
    fn elaborate_fns(fns: Vec<HirFn>, ctx: &mut ElaborateContext) -> (r: Result<Vec<HirFn>, String>)
        requires
            all_fit(fns@),
        ensures
            r is Ok <==> !any_fails(fns@),
            r matches Ok(v) ==> all_kept(fns@, v@),
            r matches Err(m) ==> fails_with(fns@, m@),
    {
        let n = fns.len();
        let ghost orig = fns@;
        let mut rest = fns;
        let mut out: Vec<HirFn> = Vec::new();
        let mut i: usize = 0;
        while rest.len() > 0
            invariant
                i <= orig.len(),
                orig.len() == n,
                fns@ == orig,
                rest@ == orig.skip(i as int),
                out@.len() == i,
                all_fit(orig),
                forall|j: int| 0 <= j < i ==> !fn_fails(#[trigger] orig[j]),
                forall|j: int| 0 <= j < i ==> fn_kept(orig[j], #[trigger] out@[j]),
            decreases rest.len(),
        {
            let f = rest.remove(0);
            assert(f == orig[i as int]);
            let g = match Self::elaborate_fn(f, ctx) {
                Ok(g) => g,
                Err(m) => {
                    assert(fn_fails(orig[i as int]));
                    assert(fails_with(orig, m@));
                    assert(any_fails(orig));
                    return Err(m);
                },
            };
            out.push(g);
            i += 1;
        }
        Ok(out)
    }

    /// Elaborates the functions of the program, those of its models and
    /// those of its implementations.
    fn elaborate_program(program: HirProgram, ctx: &mut ElaborateContext) -> (r: Result<HirProgram, String>)
        requires
            program_fits(program),
        ensures
            r is Ok <==> !program_fails(program),
            r matches Ok(p) ==> program_kept(program, p),
            r matches Err(m) ==> program_fails_with(program, m@),
    {
        let ghost g = program;
        let HirProgram { models, fns, structs, enums, consts, protos, impls, interfaces } = program;
        let fns = match Self::elaborate_fns(fns, ctx) {
            Ok(v) => v,
            Err(e) => return Err(e),
        };
        let nm = models.len();
        let ghost orig_models = models@;
        let mut rest_models = models;
        let mut new_models: Vec<HirModel> = Vec::new();
        let mut i: usize = 0;
        while rest_models.len() > 0
            invariant
                i <= orig_models.len(),
                orig_models.len() == nm,
                orig_models == g.models@,
                g == program,
                rest_models@ == orig_models.skip(i as int),
                new_models@.len() == i,
                program_fits(g),
                !any_fails(g.fns@),
                forall|j: int| 0 <= j < i ==> !any_fails(#[trigger] orig_models[j].functions@),
                forall|j: int| 0 <= j < i ==> model_kept(orig_models[j], #[trigger] new_models@[j]),
            decreases rest_models.len(),
        {
            let m = rest_models.remove(0);
            assert(m == orig_models[i as int]);
            let HirModel {
                name,
                generic_params,
                fields,
                functions,
                sensitivity,
                training_context_required,
                privacy_eps,
            } = m;
            let functions = match Self::elaborate_fns(functions, ctx) {
                Ok(v) => v,
                Err(e) => {
                    assert(any_fails(g.models@[i as int].functions@));
                    assert(fails_with(g.models@[i as int].functions@, e@));
                    return Err(e);
                },
            };
            new_models.push(
                HirModel {
                    name,
                    generic_params,
                    fields,
                    functions,
                    sensitivity,
                    training_context_required,
                    privacy_eps,
                },
            );
            i += 1;
        }
        let ni = impls.len();
        let ghost orig_impls = impls@;
        let mut rest_impls = impls;
        let mut new_impls: Vec<HirImplement> = Vec::new();
        let mut i: usize = 0;
        while rest_impls.len() > 0
            invariant
                i <= orig_impls.len(),
                orig_impls.len() == ni,
                orig_impls == g.impls@,
                g == program,
                rest_impls@ == orig_impls.skip(i as int),
                new_impls@.len() == i,
                program_fits(g),
                !any_fails(g.fns@),
                forall|j: int| 0 <= j < g.models@.len() ==> !any_fails(#[trigger] g.models@[j].functions@),
                forall|j: int| 0 <= j < i ==> !any_fails(#[trigger] orig_impls[j].functions@),
                forall|j: int| 0 <= j < i ==> impl_kept(orig_impls[j], #[trigger] new_impls@[j]),
            decreases rest_impls.len(),
        {
            let imp = rest_impls.remove(0);
            assert(imp == orig_impls[i as int]);
            let HirImplement { generic_params, target_type, interface_name, functions } = imp;
            let functions = match Self::elaborate_fns(functions, ctx) {
                Ok(v) => v,
                Err(e) => {
                    assert(any_fails(g.impls@[i as int].functions@));
                    assert(fails_with(g.impls@[i as int].functions@, e@));
                    return Err(e);
                },
            };
            new_impls.push(HirImplement { generic_params, target_type, interface_name, functions });
            i += 1;
        }
        Ok(
            HirProgram {
                models: new_models,
                fns,
                structs,
                enums,
                consts,
                protos,
                impls: new_impls,
                interfaces,
            },
        )
    }

    /// Elaborates a program: `for` loops and `try` in the bodies of all its
    /// functions are rewritten. It fails, naming the return type, when a
    /// function that returns neither `Result` nor `Option` uses `try`.
    pub fn elaborate(program: HirProgram) -> (r: Result<HirProgram, String>)
        requires
            program_fits(program),
        ensures
            r is Ok <==> !program_fails(program),
            r matches Ok(p) ==> program_kept(program, p) && program_sugar_free(p),
            r matches Err(m) ==> program_fails_with(program, m@),
    {
        let mut ctx = ElaborateContext::new(None);
        let ghost before = program;
        let r = Self::elaborate_program(program, &mut ctx);
        proof {
            if r is Ok {
                law_elaboration_leaves_no_sugar(before, r->Ok_0);
            }
        }
        r
    }
}

} // verus!
