//! Lowering of the HIR to the MIR: each function becomes a graph of basic
//! blocks of three-address statements over SSA versions of its locals.
use vstd::prelude::*;
use std::collections::HashMap;
use crate::ast::{Literal, Pattern, Type, TypeModel, opt_text, opt_type_model};
use crate::hir::{
    HirBlock, HirCallArg, HirEnum, HirEnumVariant, HirExpr, HirExprKind, HirField, HirFn,
    HirGenericParam, HirMatchArm, HirProgram, HirStmt, HirStruct,
};
use crate::mir::{
    MirBlock, MirBody, MirEnum, MirFn, MirLocal, MirOperand, MirPlace, MirProgram, MirRvalue,
    MirStmt, MirStruct, MirTerminator, SsaLocal, block_ok, ssa_dest, single_assignment, blocks_ok, body_wf, lemma_block_ok_grow,
    locals_numbered, operand_need, operands_ok, place_need, rvalue_ok, stmt_ok, term_ok,
};
use crate::text::same_text;
use crate::intrinsic::{IntrinsicConst, IntrinsicFn, get_constant, get_intrinsic};
use crate::semantic::check_expr::debug_type;

verus! {

broadcast use vstd::std_specs::hash::group_hash_axioms;

// ===== how much a function body may draw =====

/// The most SSA versions (and the deepest `unsafe` nesting) that lowering
/// an expression to an operand can draw.
pub open spec fn mcost_expr(e: HirExpr) -> nat
    decreases e, 2int,
{
    rcost_expr(e) + 1
}

/// The same, for lowering an expression to a right-hand side.
pub open spec fn rcost_expr(e: HirExpr) -> nat
    decreases e, 1int,
{
    match e.kind {
        HirExprKind::BinaryOp { left, right, .. } => mcost_expr(*left) + mcost_expr(*right),
        HirExprKind::Unary { expr, .. } => mcost_expr(*expr),
        HirExprKind::Cast { expr, .. } => mcost_expr(*expr),
        HirExprKind::FieldAccess { .. } => pcost_expr(e),
        HirExprKind::Index { .. } => pcost_expr(e),
        HirExprKind::Call { args, .. } => mcost_args(args@, 0),
        HirExprKind::EnumVariantConstruction { args, .. } => mcost_args(args@, 0),
        HirExprKind::StructInit { fields, .. } => mcost_fields(fields@, 0),
        HirExprKind::ArrayLiteral(es) => mcost_exprs(es@, 0),
        HirExprKind::Block(b) => mcost_block(b),
        HirExprKind::UnsafeBlock { body, .. } => 1 + mcost_block(body),
        HirExprKind::If { cond, then_expr, else_expr, .. } => 3 + mcost_expr(*cond) + mcost_expr(
            *then_expr,
        ) + match else_expr {
            Some(x) => mcost_expr(*x),
            None => 0,
        },
        HirExprKind::Match { cond, arms } => 3 + mcost_expr(*cond) + mcost_arms(arms@, 0),
        _ => 0,
    }
}

/// The same, for lowering an expression to a place.
pub open spec fn pcost_expr(e: HirExpr) -> nat
    decreases e, 0int,
{
    match e.kind {
        HirExprKind::FieldAccess { struct_expr, .. } => pcost_expr(*struct_expr),
        HirExprKind::Index { expr, index } => pcost_expr(*expr) + mcost_expr(*index),
        _ => 0,
    }
}

/// The bindings a pattern makes, at least one.
pub open spec fn pat_size(p: Pattern) -> nat {
    match p {
        Pattern::Struct { fields, .. } => fields@.len(),
        Pattern::Tuple(v) => v@.len(),
        Pattern::Array(v) => v@.len(),
        _ => 1,
    }
}

pub open spec fn mcost_block(b: HirBlock) -> nat
    decreases b, 3int,
{
    mcost_stmts(b.stmts@, 0)
}

pub open spec fn mcost_stmt(s: HirStmt) -> nat
    decreases s, 3int,
{
    match s {
        HirStmt::Let { init, .. } => 1 + mcost_expr(init),
        HirStmt::Expr { expr, .. } => mcost_expr(expr),
        HirStmt::Return { expr, .. } => match expr {
            Some(x) => mcost_expr(x),
            None => 0,
        },
        HirStmt::Assign { target, expr, .. } => 1 + pcost_expr(*target) + rcost_expr(expr),
        HirStmt::While { cond, body, .. } => mcost_expr(cond) + mcost_block(body),
        HirStmt::Loop { body, .. } => mcost_block(body),
        HirStmt::UnsafeBlock { body, .. } => 1 + mcost_block(body),
        _ => 0,
    }
}

pub open spec fn mcost_stmts(s: Seq<HirStmt>, i: int) -> nat
    decreases s, s.len() - i,
{
    if 0 <= i < s.len() {
        mcost_stmt(s[i]) + mcost_stmts(s, i + 1)
    } else {
        0
    }
}

pub open spec fn arg_expr(a: HirCallArg) -> HirExpr {
    match a {
        HirCallArg::Positional(e) => e,
        HirCallArg::Named(_, e) => e,
    }
}

pub open spec fn mcost_args(s: Seq<HirCallArg>, i: int) -> nat
    decreases s, s.len() - i,
{
    if 0 <= i < s.len() {
        (match s[i] {
            HirCallArg::Positional(e) => mcost_expr(e),
            HirCallArg::Named(_, e) => mcost_expr(e),
        }) + mcost_args(s, i + 1)
    } else {
        0
    }
}

pub open spec fn mcost_arms(s: Seq<HirMatchArm>, i: int) -> nat
    decreases s, s.len() - i,
{
    if 0 <= i < s.len() {
        2 + pat_size(s[i].pattern) + mcost_expr(s[i].expr) + mcost_arms(s, i + 1)
    } else {
        0
    }
}

pub open spec fn mcost_fields(s: Seq<(String, HirExpr)>, i: int) -> nat
    decreases s, s.len() - i,
{
    if 0 <= i < s.len() {
        mcost_expr(s[i].1) + mcost_fields(s, i + 1)
    } else {
        0
    }
}

pub open spec fn mcost_exprs(s: Seq<HirExpr>, i: int) -> nat
    decreases s, s.len() - i,
{
    if 0 <= i < s.len() {
        mcost_expr(s[i]) + mcost_exprs(s, i + 1)
    } else {
        0
    }
}

// ===== joins that have a value to join =====

pub open spec fn diverges(e: HirExpr) -> bool {
    e.ty is Never
}

/// A `match` on a struct, a tuple or an array destructures without
/// branching.
pub open spec fn destructuring_type(t: Type) -> bool {
    t is Struct || t is Tuple || t is Array
}

/// Some arm of `s[i..]` yields a value.
pub open spec fn some_arm_returns(s: Seq<HirMatchArm>, i: int) -> bool
    decreases s.len() - i,
{
    if 0 <= i < s.len() {
        !diverges(s[i].expr) || some_arm_returns(s, i + 1)
    } else {
        false
    }
}

/// Every `if` with two branches has one that yields a value, and every
/// branching `match` has an arm that does.
pub open spec fn joins_expr(e: HirExpr) -> bool
    decreases e, 0int,
{
    match e.kind {
        HirExprKind::BinaryOp { left, right, .. } => joins_expr(*left) && joins_expr(*right),
        HirExprKind::Unary { expr, .. } => joins_expr(*expr),
        HirExprKind::Cast { expr, .. } => joins_expr(*expr),
        HirExprKind::FieldAccess { struct_expr, .. } => joins_expr(*struct_expr),
        HirExprKind::Index { expr, index } => joins_expr(*expr) && joins_expr(*index),
        HirExprKind::Call { args, .. } => joins_args(args@, 0),
        HirExprKind::EnumVariantConstruction { args, .. } => joins_args(args@, 0),
        HirExprKind::StructInit { fields, .. } => joins_fields(fields@, 0),
        HirExprKind::ArrayLiteral(es) => joins_exprs(es@, 0),
        HirExprKind::Block(b) => joins_block(b),
        HirExprKind::UnsafeBlock { body, .. } => joins_block(body),
        HirExprKind::If { cond, then_expr, else_expr, .. } => joins_expr(*cond) && joins_expr(
            *then_expr,
        ) && match else_expr {
            Some(x) => joins_expr(*x) && !(diverges(*then_expr) && diverges(*x)),
            None => true,
        },
        HirExprKind::Match { cond, arms } => joins_expr(*cond) && joins_arms(arms@, 0) && (
        destructuring_type(cond.ty) || some_arm_returns(arms@, 0)),
        _ => true,
    }
}

pub open spec fn joins_block(b: HirBlock) -> bool
    decreases b, 1int,
{
    joins_stmts(b.stmts@, 0)
}

pub open spec fn joins_stmt(s: HirStmt) -> bool
    decreases s, 1int,
{
    match s {
        HirStmt::Let { init, .. } => joins_expr(init),
        HirStmt::Expr { expr, .. } => joins_expr(expr),
        HirStmt::Return { expr, .. } => match expr {
            Some(x) => joins_expr(x),
            None => true,
        },
        HirStmt::Assign { target, expr, .. } => joins_expr(*target) && joins_expr(expr),
        HirStmt::While { cond, body, .. } => joins_expr(cond) && joins_block(body),
        HirStmt::Loop { body, .. } => joins_block(body),
        HirStmt::UnsafeBlock { body, .. } => joins_block(body),
        _ => true,
    }
}

pub open spec fn joins_stmts(s: Seq<HirStmt>, i: int) -> bool
    decreases s, s.len() - i,
{
    if 0 <= i < s.len() {
        joins_stmt(s[i]) && joins_stmts(s, i + 1)
    } else {
        true
    }
}

pub open spec fn joins_args(s: Seq<HirCallArg>, i: int) -> bool
    decreases s, s.len() - i,
{
    if 0 <= i < s.len() {
        (match s[i] {
            HirCallArg::Positional(e) => joins_expr(e),
            HirCallArg::Named(_, e) => joins_expr(e),
        }) && joins_args(s, i + 1)
    } else {
        true
    }
}

pub open spec fn joins_arms(s: Seq<HirMatchArm>, i: int) -> bool
    decreases s, s.len() - i,
{
    if 0 <= i < s.len() {
        joins_expr(s[i].expr) && joins_arms(s, i + 1)
    } else {
        true
    }
}

pub open spec fn joins_fields(s: Seq<(String, HirExpr)>, i: int) -> bool
    decreases s, s.len() - i,
{
    if 0 <= i < s.len() {
        joins_expr(s[i].1) && joins_fields(s, i + 1)
    } else {
        true
    }
}

pub open spec fn joins_exprs(s: Seq<HirExpr>, i: int) -> bool
    decreases s, s.len() - i,
{
    if 0 <= i < s.len() {
        joins_expr(s[i]) && joins_exprs(s, i + 1)
    } else {
        true
    }
}

/// A function that can be lowered: its versions fit in `u32` and no join
/// is left without a value.
pub open spec fn fn_lowerable(f: HirFn) -> bool {
    mcost_block(f.body) <= u32::MAX && joins_block(f.body)
}

// ===== what the program's declarations say =====

/// How many of `vs[..n]` are named `v`.
pub open spec fn count_named(vs: Seq<HirEnumVariant>, v: Seq<char>, n: int) -> nat
    decreases n,
{
    if n <= 0 || n > vs.len() {
        0
    } else {
        count_named(vs, v, n - 1) + if vs[n - 1].name@ == v {
            1nat
        } else {
            0nat
        }
    }
}

/// How many variants named `v` the enums `enums[..n]` declare.
pub open spec fn variant_count(enums: Seq<HirEnum>, v: Seq<char>, n: int) -> nat
    decreases n,
{
    if n <= 0 || n > enums.len() {
        0
    } else {
        variant_count(enums, v, n - 1) + count_named(
            enums[n - 1].variants@,
            v,
            enums[n - 1].variants@.len() as int,
        )
    }
}

/// The first of `enums[..n]` that declares a variant `v`.
pub open spec fn first_enum_with(enums: Seq<HirEnum>, v: Seq<char>, n: int) -> Option<int>
    decreases n,
{
    if n <= 0 || n > enums.len() {
        None
    } else {
        match first_enum_with(enums, v, n - 1) {
            Some(k) => Some(k),
            None => if count_named(enums[n - 1].variants@, v, enums[n - 1].variants@.len() as int)
                > 0 {
                Some(n - 1)
            } else {
                None
            },
        }
    }
}

/// The enum whose variant a bare `v` names: the one that declares it, when
/// exactly one variant of all enums is named `v`.
pub open spec fn variant_owner(enums: Seq<HirEnum>, v: Seq<char>) -> Option<Seq<char>> {
    if variant_count(enums, v, enums.len() as int) == 1 {
        match first_enum_with(enums, v, enums.len() as int) {
            Some(k) => Some(enums[k].name@),
            None => None,
        }
    } else {
        None
    }
}

/// The last position in `vs[..n]` of a variant named `v`.
pub open spec fn last_named(vs: Seq<HirEnumVariant>, v: Seq<char>, n: int) -> Option<int>
    decreases n,
{
    if n <= 0 || n > vs.len() {
        None
    } else if vs[n - 1].name@ == v {
        Some(n - 1)
    } else {
        last_named(vs, v, n - 1)
    }
}

/// The position of variant `v` in enum `e`, the last declaration winning.
pub open spec fn variant_index(enums: Seq<HirEnum>, e: Seq<char>, v: Seq<char>, n: int) -> Option<int>
    decreases n,
{
    if n <= 0 || n > enums.len() {
        None
    } else if enums[n - 1].name@ == e && last_named(
        enums[n - 1].variants@,
        v,
        enums[n - 1].variants@.len() as int,
    ) is Some {
        last_named(enums[n - 1].variants@, v, enums[n - 1].variants@.len() as int)
    } else {
        variant_index(enums, e, v, n - 1)
    }
}

/// The last payload type in `vs[..n]` of a variant named `v`.
pub open spec fn last_payload(vs: Seq<HirEnumVariant>, v: Seq<char>, n: int) -> Option<TypeModel>
    decreases n,
{
    if n <= 0 || n > vs.len() {
        None
    } else if vs[n - 1].name@ == v && vs[n - 1].ty is Some {
        Some(vs[n - 1].ty.unwrap()@)
    } else {
        last_payload(vs, v, n - 1)
    }
}

/// The payload type of variant `v` of enum `e`, the last declaration with
/// one winning.
pub open spec fn variant_payload(enums: Seq<HirEnum>, e: Seq<char>, v: Seq<char>, n: int) -> Option<
    TypeModel,
>
    decreases n,
{
    if n <= 0 || n > enums.len() {
        None
    } else if enums[n - 1].name@ == e && last_payload(
        enums[n - 1].variants@,
        v,
        enums[n - 1].variants@.len() as int,
    ) is Some {
        last_payload(enums[n - 1].variants@, v, enums[n - 1].variants@.len() as int)
    } else {
        variant_payload(enums, e, v, n - 1)
    }
}

/// The last struct in `ss[..n]` named `s`.
pub open spec fn last_struct(ss: Seq<HirStruct>, s: Seq<char>, n: int) -> Option<int>
    decreases n,
{
    if n <= 0 || n > ss.len() {
        None
    } else if ss[n - 1].name@ == s {
        Some(n - 1)
    } else {
        last_struct(ss, s, n - 1)
    }
}

/// The type of the last field in `fs[..n]` named `f`.
pub open spec fn last_field(fs: Seq<HirField>, f: Seq<char>, n: int) -> Option<TypeModel>
    decreases n,
{
    if n <= 0 || n > fs.len() {
        None
    } else if fs[n - 1].name@ == f {
        Some(fs[n - 1].ty@)
    } else {
        last_field(fs, f, n - 1)
    }
}

/// The type of field `f` of struct `s`, as the last declaration of `s`
/// gives it.
pub open spec fn field_type(ss: Seq<HirStruct>, s: Seq<char>, f: Seq<char>) -> Option<TypeModel> {
    match last_struct(ss, s, ss.len() as int) {
        Some(k) => last_field(ss[k].fields@, f, ss[k].fields@.len() as int),
        None => None,
    }
}

/// The enum that a bare `v` constructs.
fn owner_of_variant(hir: &HirProgram, v: &str) -> (r: Option<String>)
    ensures
        opt_text(r) == variant_owner(hir.enums@, v@),
{
    let enums = &hir.enums;
    let mut count: usize = 0;
    let mut first: Option<usize> = None;
    let mut i: usize = 0;
    while i < enums.len()
        invariant
            i <= enums@.len(),
            enums@ == hir.enums@,
            count == if variant_count(enums@, v@, i as int) >= 2 {
                2
            } else {
                variant_count(enums@, v@, i as int)
            },
            first matches Some(k) ==> k < i,
            opt_int(first) == first_enum_with(enums@, v@, i as int),
        decreases enums.len() - i,
    {
        let vs = &enums[i].variants;
        let mut here: usize = 0;
        let mut j: usize = 0;
        while j < vs.len()
            invariant
                j <= vs@.len(),
                vs@ == enums@[i as int].variants@,
                here == if count_named(vs@, v@, j as int) >= 2 {
                    2
                } else {
                    count_named(vs@, v@, j as int)
                },
            decreases vs.len() - j,
        {
            if same_text(vs[j].name.as_str(), v) && here < 2 {
                here += 1;
            }
            j += 1;
        }
        if here > 0 && first.is_none() {
            first = Some(i);
        }
        if count + here >= 2 {
            count = 2;
        } else {
            count = count + here;
        }
        i += 1;
    }
    if count == 1 {
        match first {
            Some(k) => Some(enums[k].name.clone()),
            None => None,
        }
    } else {
        None
    }
}

pub open spec fn opt_int(o: Option<usize>) -> Option<int> {
    match o {
        Some(k) => Some(k as int),
        None => None,
    }
}


/// The position of variant `v` in enum `e`.
fn index_of_variant(hir: &HirProgram, e: &str, v: &str) -> (r: Option<usize>)
    ensures
        opt_int(r) == variant_index(hir.enums@, e@, v@, hir.enums@.len() as int),
{
    let enums = &hir.enums;
    let mut i: usize = enums.len();
    while i > 0
        invariant
            i <= enums@.len(),
            enums@ == hir.enums@,
            variant_index(enums@, e@, v@, enums@.len() as int) == variant_index(
                enums@,
                e@,
                v@,
                i as int,
            ),
        decreases i,
    {
        let k = i - 1;
        if same_text(enums[k].name.as_str(), e) {
            let vs = &enums[k].variants;
            let mut j: usize = vs.len();
            while j > 0
                invariant
                    j <= vs@.len(),
                    vs@ == enums@[k as int].variants@,
                    k < enums@.len(),
                    i == k + 1,
                    enums@ == hir.enums@,
                    enums@[k as int].name@ == e@,
                    variant_index(enums@, e@, v@, enums@.len() as int) == variant_index(
                        enums@,
                        e@,
                        v@,
                        i as int,
                    ),
                    last_named(vs@, v@, vs@.len() as int) == last_named(vs@, v@, j as int),
                decreases j,
            {
                if same_text(vs[j - 1].name.as_str(), v) {
                    return Some(j - 1);
                }
                j -= 1;
            }
        }
        i = k;
    }
    None
}

/// The payload type of variant `v` of enum `e`.
fn payload_of_variant(hir: &HirProgram, e: &str, v: &str) -> (r: Option<Type>)
    ensures
        opt_type_model(r) == variant_payload(hir.enums@, e@, v@, hir.enums@.len() as int),
{
    let enums = &hir.enums;
    let mut i: usize = enums.len();
    while i > 0
        invariant
            i <= enums@.len(),
            enums@ == hir.enums@,
            variant_payload(enums@, e@, v@, enums@.len() as int) == variant_payload(
                enums@,
                e@,
                v@,
                i as int,
            ),
        decreases i,
    {
        let k = i - 1;
        if same_text(enums[k].name.as_str(), e) {
            let vs = &enums[k].variants;
            let mut j: usize = vs.len();
            while j > 0
                invariant
                    j <= vs@.len(),
                    vs@ == enums@[k as int].variants@,
                    k < enums@.len(),
                    i == k + 1,
                    enums@ == hir.enums@,
                    enums@[k as int].name@ == e@,
                    variant_payload(enums@, e@, v@, enums@.len() as int) == variant_payload(
                        enums@,
                        e@,
                        v@,
                        i as int,
                    ),
                    last_payload(vs@, v@, vs@.len() as int) == last_payload(vs@, v@, j as int),
                decreases j,
            {
                if same_text(vs[j - 1].name.as_str(), v) {
                    if let Some(t) = &vs[j - 1].ty {
                        return Some(t.duplicate());
                    }
                }
                j -= 1;
            }
        }
        i = k;
    }
    None
}

/// The type of field `f` of struct `s`.
fn type_of_field(hir: &HirProgram, s: &str, f: &str) -> (r: Option<Type>)
    ensures
        opt_type_model(r) == field_type(hir.structs@, s@, f@),
{
    let ss = &hir.structs;
    let mut i: usize = ss.len();
    while i > 0
        invariant
            i <= ss@.len(),
            ss@ == hir.structs@,
            last_struct(ss@, s@, ss@.len() as int) == last_struct(ss@, s@, i as int),
        decreases i,
    {
        let k = i - 1;
        if same_text(ss[k].name.as_str(), s) {
            let fs = &ss[k].fields;
            let mut j: usize = fs.len();
            while j > 0
                invariant
                    j <= fs@.len(),
                    fs@ == ss@[k as int].fields@,
                    k < ss@.len(),
                    i == k + 1,
                    ss@ == hir.structs@,
                    ss@[k as int].name@ == s@,
                    last_struct(ss@, s@, ss@.len() as int) == last_struct(ss@, s@, i as int),
                    last_field(fs@, f@, fs@.len() as int) == last_field(fs@, f@, j as int),
                decreases j,
            {
                if same_text(fs[j - 1].name.as_str(), f) {
                    return Some(fs[j - 1].ty.duplicate());
                }
                j -= 1;
            }
            return None;
        }
        i = k;
    }
    None
}

} // verus!

verus! {

// ===== the builder's state =====

/// The id bound to `name` by the first entry of `s[i..]` that names it.
pub open spec fn first_in(s: Seq<(String, usize)>, name: Seq<char>, i: int) -> Option<usize>
    decreases s.len() - i,
{
    if i < 0 || i >= s.len() {
        None
    } else if s[i].0@ == name {
        Some(s[i].1)
    } else {
        first_in(s, name, i + 1)
    }
}

/// The local that `name` denotes in the scopes `scopes[..n]`, the innermost
/// first.
/// The scope entry `entry` binds its name to a local that carries that
/// name.
pub open spec fn local_named(locals: Seq<MirLocal>, entry: (String, usize)) -> bool {
    &&& entry.1 < locals.len()
    &&& locals[entry.1 as int].name matches Some(m) && m@ == entry.0@
}

pub open spec fn scopes_find(scopes: Seq<Vec<(String, usize)>>, name: Seq<char>, n: int) -> Option<
    usize,
>
    decreases n,
{
    if n <= 0 || n > scopes.len() {
        None
    } else {
        match first_in(scopes[n - 1]@, name, 0) {
            Some(id) => Some(id),
            None => scopes_find(scopes, name, n - 1),
        }
    }
}

/// The names that the scopes bind.
pub open spec fn scope_names(scopes: Seq<Vec<(String, usize)>>) -> Set<Seq<char>> {
    Set::new(|n: Seq<char>| scopes_find(scopes, n, scopes.len() as int) is Some)
}

/// Entries that agree on which of them name `m`, and on what those bind,
/// find the same binding of `m`.
pub proof fn lemma_first_in_same(s: Seq<(String, usize)>, s2: Seq<(String, usize)>, m: Seq<char>, i: int)
    requires
        s.len() <= s2.len() <= s.len() + 1,
        forall|q: int| 0 <= q < s.len() ==> (#[trigger] s2[q].0@ == m) == (s[q].0@ == m),
        forall|q: int| 0 <= q < s.len() && s[q].0@ == m ==> #[trigger] s2[q].1 == s[q].1,
        s2.len() == s.len() + 1 ==> s2[s.len() as int].0@ != m,
        0 <= i,
    ensures
        first_in(s2, m, i) == first_in(s, m, i),
    decreases s2.len() - i,
{
    if i < s2.len() {
        lemma_first_in_same(s, s2, m, i + 1);
    }
}

/// The first entry of `s[i..]` naming `m`, at `p`, is what is found.
pub proof fn lemma_first_in_hit(s: Seq<(String, usize)>, m: Seq<char>, i: int, p: int)
    requires
        0 <= i <= p < s.len(),
        s[p].0@ == m,
        forall|q: int| i <= q < p ==> #[trigger] s[q].0@ != m,
    ensures
        first_in(s, m, i) == Some(s[p].1),
    decreases p - i,
{
    if i < p {
        lemma_first_in_hit(s, m, i + 1, p);
    }
}

/// Scopes that agree below `t` and differ only in scope `t`, the last, find
/// a name in scope `t` or else as the scopes below do.
pub proof fn lemma_scopes_find_prefix(a: Seq<Vec<(String, usize)>>, b: Seq<Vec<(String, usize)>>, m: Seq<char>, t: int)
    requires
        a.len() == b.len() == t + 1,
        0 <= t,
        forall|k: int| 0 <= k < t ==> #[trigger] a[k] == b[k],
    ensures
        scopes_find(b, m, t + 1) == match first_in(b[t]@, m, 0) {
            Some(id) => Some(id),
            None => scopes_find(a, m, t),
        },
        scopes_find(a, m, t + 1) == match first_in(a[t]@, m, 0) {
            Some(id) => Some(id),
            None => scopes_find(a, m, t),
        },
{
    lemma_scopes_find_agree(a, b, m, t);
}

pub proof fn lemma_scopes_find_agree(a: Seq<Vec<(String, usize)>>, b: Seq<Vec<(String, usize)>>, m: Seq<char>, n: int)
    requires
        0 <= n <= a.len(),
        n <= b.len(),
        forall|k: int| 0 <= k < n ==> #[trigger] a[k] == b[k],
    ensures
        scopes_find(a, m, n) == scopes_find(b, m, n),
    decreases n,
{
    if n > 0 {
        lemma_scopes_find_agree(a, b, m, n - 1);
    }
}

/// An integer type, the kind a literal pattern can be matched against.
pub open spec fn is_int_type(t: TypeModel) -> bool {
    t is I8 || t is I16 || t is I32 || t is I64 || t is I128 || t is U8 || t is U16 || t is U32
        || t is U64 || t is U128
}

pub open spec fn int_literal_error(t: TypeModel) -> Seq<char> {
    "match 条件是整数类型，但字面量模式配的类型是 "@ + crate::semantic::check_expr::type_debug(t)
        + "——不是任何已知的整数类型，这本该在 sema 阶段就被拦下"@
}

/// The builder of one function's body.
pub struct MirBuilder {
    locals: Vec<MirLocal>,
    blocks: Vec<MirBlock>,
    current_block: usize,
    /// Per lexical scope, the names bound in it.
    scope: Vec<Vec<(String, usize)>>,
    /// Per lexical scope, the locals to drop when it closes.
    scope_vars: Vec<Vec<usize>>,
    unsafe_depth: usize,
    in_forward: bool,
    /// The latest SSA version of each local; a local not in it is at 0.
    ssa_versions: HashMap<usize, u32>,
    /// The versions that have been moved out of, wholly or in part.
    moved: Vec<SsaLocal>,
    /// How many versions have been drawn so far.
    drawn: Ghost<nat>,
    /// The versions drawn so far.
    issued: Ghost<Set<SsaLocal>>,
    /// The versions that some statement assigns.
    written: Ghost<Set<SsaLocal>>,
}

pub proof fn lemma_blocks_ok_more_locals(bs: Seq<MirBlock>, nl: nat, nl2: nat)
    requires
        blocks_ok(bs, nl),
        nl <= nl2,
    ensures
        blocks_ok(bs, nl2),
{
    assert forall|i: int| 0 <= i < bs.len() implies (#[trigger] bs[i]).id == i && block_ok(
        bs[i],
        nl2,
        bs.len(),
    ) by {
        lemma_block_ok_grow(bs[i], nl, bs.len(), nl2, bs.len());
    }
}

pub proof fn lemma_blocks_ok_push(bs: Seq<MirBlock>, nl: nat, b: MirBlock)
    requires
        blocks_ok(bs, nl),
        b.id == bs.len(),
        block_ok(b, nl, bs.len() + 1),
    ensures
        blocks_ok(bs.push(b), nl),
{
    assert forall|i: int| 0 <= i < bs.len() + 1 implies (#[trigger] bs.push(b)[i]).id == i && block_ok(
        bs.push(b)[i],
        nl,
        bs.len() + 1,
    ) by {
        if i < bs.len() {
            lemma_block_ok_grow(bs[i], nl, bs.len(), nl, bs.len() + 1);
        }
    }
}

impl MirBuilder {
    spec fn wf(&self) -> bool {
        &&& locals_numbered(self.locals@)
        &&& blocks_ok(self.blocks@, self.locals@.len())
        &&& self.current_block < self.blocks@.len()
        &&& self.scope@.len() == self.scope_vars@.len()
        &&& self.scope_vars@.len() >= 1
        &&& forall|s: int, k: int|
            0 <= s < self.scope_vars@.len() && 0 <= k < self.scope_vars@[s]@.len()
                ==> #[trigger] self.scope_vars@[s]@[k] < self.locals@.len()
        &&& forall|s: int, k: int|
            0 <= s < self.scope@.len() && 0 <= k < self.scope@[s]@.len() ==> #[trigger] self.scope@[s]@[k].1
                < self.locals@.len()
        &&& forall|s: int, k: int|
            0 <= s < self.scope@.len() && 0 <= k < self.scope@[s]@.len() ==> local_named(
                self.locals@,
                #[trigger] self.scope@[s]@[k],
            )
        &&& forall|k: usize| #[trigger]
            self.ssa_versions@.contains_key(k) ==> self.ssa_versions@[k] <= self.drawn@
        &&& self.drawn@ <= u32::MAX
        &&& forall|b: int, k: int|
            0 <= b < self.blocks@.len() && 0 <= k < self.blocks@[b].stmts@.len() ==> match ssa_dest(
                #[trigger] self.blocks@[b].stmts@[k],
            ) {
                Some(x) => self.written@.contains(x),
                None => true,
            }
        &&& single_assignment(self.blocks@)
        &&& forall|x: SsaLocal| #[trigger] self.written@.contains(x) ==> self.issued@.contains(x)
        &&& forall|x: SsaLocal| #[trigger]
            self.issued@.contains(x) ==> 1 <= x.version <= self.version_of(x.base_id)
    }

    /// Room for `c` more versions and `c` more levels of `unsafe`.
    spec fn fits(&self, c: nat) -> bool {
        self.drawn@ + c <= u32::MAX && self.unsafe_depth + c <= u32::MAX
    }

    /// `self` is `prev` after more lowering: locals and blocks only added,
    /// the same scope depth, `unsafe` depth and mode.
    spec fn grows(&self, prev: MirBuilder) -> bool {
        &&& self.locals@.len() >= prev.locals@.len()
        &&& forall|i: int| 0 <= i < prev.locals@.len() ==> #[trigger] self.locals@[i] == prev.locals@[i]
        &&& self.blocks@.len() >= prev.blocks@.len()
        &&& self.scope@.len() == prev.scope@.len()
        &&& self.unsafe_depth == prev.unsafe_depth
        &&& self.in_forward == prev.in_forward
        &&& self.drawn@ >= prev.drawn@
        &&& forall|x: SsaLocal| #[trigger] prev.issued@.contains(x) ==> self.issued@.contains(x)
        &&& forall|x: SsaLocal| #[trigger]
            self.written@.contains(x) ==> prev.written@.contains(x) || (self.issued@.contains(x)
                && !prev.issued@.contains(x))
    }

    /// Some block ends in the terminator `t`.
    spec fn ends_in(&self, t: MirTerminator) -> bool {
        exists|b: int| 0 <= b < self.blocks@.len() && #[trigger] self.blocks@[b].terminator == t
    }

    /// Some block holds the statement `s`.
    spec fn holds_stmt(&self, s: MirStmt) -> bool {
        exists|b: int, k: int|
            0 <= b < self.blocks@.len() && 0 <= k < self.blocks@[b].stmts@.len()
                && #[trigger] self.blocks@[b].stmts@[k] == s
    }

    spec fn version_of(&self, base: usize) -> u32 {
        if self.ssa_versions@.contains_key(base) {
            self.ssa_versions@[base]
        } else {
            0
        }
    }

    spec fn lookup_spec(&self, name: Seq<char>) -> Option<usize> {
        scopes_find(self.scope@, name, self.scope@.len() as int)
    }

    /// The names in scope.
    spec fn bound(&self) -> Set<Seq<char>> {
        scope_names(self.scope@)
    }

    /// The current block still ends in the placeholder.
    spec fn open_end(&self) -> bool {
        self.blocks@[self.current_block as int].terminator is Unreachable
    }

    spec fn terminated(&self) -> bool {
        !(self.blocks@[self.current_block as int].terminator is Unreachable)
    }

    // -------- locals --------
    fn new_local(&mut self, name: Option<String>, ty: Type, mutable: bool, add_to_scope: bool) -> (id:
        usize)
        requires
            old(self).wf(),
        ensures
            final(self).wf(),
            final(self).grows(*old(self)),
            id == old(self).locals@.len(),
            final(self).locals@ == old(self).locals@.push(
                MirLocal { id, name, ty, mutable, persist: false, is_param: false },
            ),
            final(self).blocks@ == old(self).blocks@,
            final(self).current_block == old(self).current_block,
            final(self).scope@ == old(self).scope@,
            final(self).drawn@ == old(self).drawn@,
            final(self).issued == old(self).issued,
            final(self).written == old(self).written,
            final(self).ssa_versions@ == old(self).ssa_versions@,
    {
        let id = self.locals.len();
        self.locals.push(MirLocal { id, name, ty, mutable, persist: false, is_param: false });
        if add_to_scope {
            self.add_to_top_scope(id);
        }
        proof {
            lemma_blocks_ok_more_locals(self.blocks@, old(self).locals@.len(), self.locals@.len());
        }
        id
    }

    /// Registers `id` to be dropped when the innermost scope closes.
    fn add_to_top_scope(&mut self, id: usize)
        requires
            old(self).scope_vars@.len() >= 1,
        ensures
            final(self).scope_vars@.len() == old(self).scope_vars@.len(),
            forall|s: int|
                0 <= s < old(self).scope_vars@.len() - 1 ==> #[trigger] final(self).scope_vars@[s]
                    == old(self).scope_vars@[s],
            final(self).scope_vars@.last()@ == old(self).scope_vars@.last()@.push(id),
            final(self).locals == old(self).locals,
            final(self).blocks == old(self).blocks,
            final(self).current_block == old(self).current_block,
            final(self).scope == old(self).scope,
            final(self).unsafe_depth == old(self).unsafe_depth,
            final(self).in_forward == old(self).in_forward,
            final(self).ssa_versions == old(self).ssa_versions,
            final(self).moved == old(self).moved,
            final(self).drawn == old(self).drawn,
            final(self).issued == old(self).issued,
            final(self).written == old(self).written,
    {
        let t = self.scope_vars.len() - 1;
        self.scope_vars[t].push(id);
    }
}


impl MirBuilder {
    /// A parameter of the function: bound by the signature, never dropped.
    fn new_param_local(&mut self, name: String, ty: Type) -> (id: usize)
        requires
            old(self).wf(),
        ensures
            final(self).wf(),
            final(self).grows(*old(self)),
            id == old(self).locals@.len(),
            final(self).locals@ == old(self).locals@.push(
                MirLocal { id, name: Some(name), ty, mutable: false, persist: false, is_param: true },
            ),
            final(self).blocks@ == old(self).blocks@,
            final(self).current_block == old(self).current_block,
            final(self).scope@ == old(self).scope@,
            final(self).scope_vars@ == old(self).scope_vars@,
            final(self).drawn@ == old(self).drawn@,
            final(self).issued == old(self).issued,
            final(self).written == old(self).written,
            final(self).ssa_versions@ == old(self).ssa_versions@,
    {
        let id = self.locals.len();
        self.locals.push(MirLocal { id, name: Some(name), ty, mutable: false, persist: false, is_param: true });
        proof {
            lemma_blocks_ok_more_locals(self.blocks@, old(self).locals@.len(), self.locals@.len());
        }
        id
    }

    /// A local kept across calls of a model's `forward`.
    fn new_persist_local(&mut self, name: Option<String>, ty: Type, mutable: bool) -> (id: usize)
        requires
            old(self).wf(),
        ensures
            final(self).wf(),
            final(self).grows(*old(self)),
            id == old(self).locals@.len(),
            final(self).locals@ == old(self).locals@.push(
                MirLocal { id, name, ty, mutable, persist: true, is_param: false },
            ),
            final(self).blocks@ == old(self).blocks@,
            final(self).current_block == old(self).current_block,
            final(self).scope@ == old(self).scope@,
            final(self).drawn@ == old(self).drawn@,
            final(self).issued == old(self).issued,
            final(self).written == old(self).written,
            final(self).ssa_versions@ == old(self).ssa_versions@,
    {
        let id = self.locals.len();
        self.locals.push(MirLocal { id, name, ty, mutable, persist: true, is_param: false });
        self.add_to_top_scope(id);
        proof {
            lemma_blocks_ok_more_locals(self.blocks@, old(self).locals@.len(), self.locals@.len());
        }
        id
    }

    /// Draws the next SSA version of local `base_id`.
    fn new_version(&mut self, base_id: usize) -> (ver: u32)
        requires
            old(self).wf(),
            old(self).drawn@ < u32::MAX,
        ensures
            final(self).wf(),
            final(self).grows(*old(self)),
            ver == old(self).version_of(base_id) + 1,
            final(self).ssa_versions@ == old(self).ssa_versions@.insert(base_id, ver),
            final(self).version_of(base_id) == ver,
            final(self).drawn@ == old(self).drawn@ + 1,
            final(self).issued@ == old(self).issued@.insert(SsaLocal { base_id, version: ver }),
            !old(self).issued@.contains(SsaLocal { base_id, version: ver }),
            final(self).written == old(self).written,
            final(self).locals == old(self).locals,
            final(self).blocks == old(self).blocks,
            final(self).current_block == old(self).current_block,
            final(self).scope == old(self).scope,
            final(self).scope_vars == old(self).scope_vars,
            final(self).moved == old(self).moved,
    {
        let cur = match self.ssa_versions.get(&base_id) {
            Some(v) => *v,
            None => 0,
        };
        let ver = cur + 1;
        self.ssa_versions.insert(base_id, ver);
        self.drawn = Ghost(self.drawn@ + 1);
        self.issued = Ghost(self.issued@.insert(SsaLocal { base_id, version: ver }));
        ver
    }

    /// A fresh temporary, dropped with the innermost scope.
    fn new_temp(&mut self, ty: Type) -> (id: usize)
        requires
            old(self).wf(),
        ensures
            final(self).wf(),
            final(self).grows(*old(self)),
            id == old(self).locals@.len(),
            final(self).locals@.len() == old(self).locals@.len() + 1,
            final(self).blocks@ == old(self).blocks@,
            final(self).current_block == old(self).current_block,
            final(self).scope@ == old(self).scope@,
            final(self).drawn@ == old(self).drawn@,
            final(self).issued == old(self).issued,
            final(self).written == old(self).written,
            final(self).ssa_versions@ == old(self).ssa_versions@,
    {
        self.new_local(None, ty, false, true)
    }

    /// The current version of local `base_id`.
    fn current_ssa(&self, base_id: usize) -> (r: SsaLocal)
        ensures
            r == (SsaLocal { base_id, version: self.version_of(base_id) }),
    {
        let version = match self.ssa_versions.get(&base_id) {
            Some(v) => *v,
            None => 0,
        };
        SsaLocal { base_id, version }
    }

    /// Whether version `ssa` has been moved out of.
    fn is_moved(&self, ssa: SsaLocal) -> (r: bool)
        ensures
            r == self.moved@.contains(ssa),
    {
        let mut i: usize = 0;
        while i < self.moved.len()
            invariant
                i <= self.moved@.len(),
                forall|j: int| 0 <= j < i ==> self.moved@[j] != ssa,
            decreases self.moved.len() - i,
        {
            if self.moved[i] == ssa {
                return true;
            }
            i += 1;
        }
        false
    }

    /// Records that version `ssa` has been moved out of.
    fn mark_moved(&mut self, ssa: SsaLocal)
        ensures
            final(self).moved@.contains(ssa),
            forall|x: SsaLocal| old(self).moved@.contains(x) ==> final(self).moved@.contains(x),
            final(self).locals == old(self).locals,
            final(self).blocks == old(self).blocks,
            final(self).current_block == old(self).current_block,
            final(self).scope == old(self).scope,
            final(self).scope_vars == old(self).scope_vars,
            final(self).unsafe_depth == old(self).unsafe_depth,
            final(self).in_forward == old(self).in_forward,
            final(self).ssa_versions == old(self).ssa_versions,
            final(self).drawn == old(self).drawn,
            final(self).issued == old(self).issued,
            final(self).written == old(self).written,
    {
        if !self.is_moved(ssa) {
            self.moved.push(ssa);
            proof {
                assert(self.moved@.last() == ssa);
                assert forall|x: SsaLocal| old(self).moved@.contains(x) implies self.moved@.contains(x) by {
                    let i = choose|i: int| 0 <= i < old(self).moved@.len() && old(self).moved@[i] == x;
                    assert(self.moved@[i] == x);
                }
            }
        }
    }

    /// The literal of type `ty` with value `v`, truncated to the type; any
    /// type but an integer one is an error.
    fn int_literal_for_type(v: i64, ty: &Type) -> (r: Result<Literal, String>)
        ensures
            r == match ty@ {
                TypeModel::I8 => Ok::<Literal, String>(Literal::Int8(v as i8)),
                TypeModel::I16 => Ok(Literal::Int16(v as i16)),
                TypeModel::I32 => Ok(Literal::Int32(v as i32)),
                TypeModel::I64 => Ok(Literal::Int64(v)),
                TypeModel::I128 => Ok(Literal::Int128(v as i128)),
                TypeModel::U8 => Ok(Literal::UInt8(v as u8)),
                TypeModel::U16 => Ok(Literal::UInt16(v as u16)),
                TypeModel::U32 => Ok(Literal::UInt32(v as u32)),
                TypeModel::U64 => Ok(Literal::UInt64(v as u64)),
                TypeModel::U128 => Ok(Literal::UInt128(v as u128)),
                _ => r,
            },
            r is Err <==> !is_int_type(ty@),
            r matches Err(m) ==> m@ == int_literal_error(ty@),
    {
        match ty {
            Type::I8 => Ok(Literal::Int8(v as i8)),
            Type::I16 => Ok(Literal::Int16(v as i16)),
            Type::I32 => Ok(Literal::Int32(v as i32)),
            Type::I64 => Ok(Literal::Int64(v)),
            Type::I128 => Ok(Literal::Int128(v as i128)),
            Type::U8 => Ok(Literal::UInt8(v as u8)),
            Type::U16 => Ok(Literal::UInt16(v as u16)),
            Type::U32 => Ok(Literal::UInt32(v as u32)),
            Type::U64 => Ok(Literal::UInt64(v as u64)),
            Type::U128 => Ok(Literal::UInt128(v as u128)),
            other => {
                let mut m = String::from_str("match 条件是整数类型，但字面量模式配的类型是 ");
                let d = debug_type(other);
                m.append(d.as_str());
                m.append("——不是任何已知的整数类型，这本该在 sema 阶段就被拦下");
                Err(m)
            },
        }
    }

    // -------- scopes --------
    fn push_scope(&mut self)
        requires
            old(self).wf(),
        ensures
            final(self).wf(),
            final(self).scope@.len() == old(self).scope@.len() + 1,
            final(self).scope@.drop_last() == old(self).scope@,
            final(self).scope@.last()@.len() == 0,
            final(self).bound() == old(self).bound(),
            final(self).scope_vars@.len() == old(self).scope_vars@.len() + 1,
            final(self).scope_vars@.drop_last() == old(self).scope_vars@,
            final(self).scope_vars@.last()@.len() == 0,
            final(self).locals == old(self).locals,
            final(self).blocks == old(self).blocks,
            final(self).current_block == old(self).current_block,
            final(self).unsafe_depth == old(self).unsafe_depth,
            final(self).in_forward == old(self).in_forward,
            final(self).ssa_versions == old(self).ssa_versions,
            final(self).moved == old(self).moved,
            final(self).drawn == old(self).drawn,
            final(self).issued == old(self).issued,
            final(self).written == old(self).written,
    {
        self.scope.push(Vec::new());
        self.scope_vars.push(Vec::new());
        proof {
            let n0 = old(self).scope@.len() as int;
            assert forall|m: Seq<char>| self.lookup_spec(m) == old(self).lookup_spec(m) by {
                assert(first_in(self.scope@[n0]@, m, 0) is None);
                lemma_scopes_find_agree(self.scope@, old(self).scope@, m, n0);
            }
            assert forall|m: Seq<char>| #[trigger] self.bound().contains(m) == old(self).bound().contains(m) by {
                assert(self.lookup_spec(m) == old(self).lookup_spec(m));
            }
            assert(self.bound() =~= old(self).bound());
        }
    }

    /// Closes the innermost scope, dropping each of its locals whose
    /// current version has not been moved out of.
    fn pop_scope(&mut self)
        requires
            old(self).wf(),
            old(self).scope@.len() >= 2,
        ensures
            final(self).wf(),
            final(self).scope@ == old(self).scope@.drop_last(),
            final(self).scope_vars@ == old(self).scope_vars@.drop_last(),
            final(self).locals == old(self).locals,
            final(self).blocks@.len() == old(self).blocks@.len(),
            final(self).current_block == old(self).current_block,
            final(self).unsafe_depth == old(self).unsafe_depth,
            final(self).in_forward == old(self).in_forward,
            final(self).ssa_versions == old(self).ssa_versions,
            final(self).moved == old(self).moved,
            final(self).drawn == old(self).drawn,
            final(self).issued == old(self).issued,
            final(self).written == old(self).written,
            final(self).blocks@[final(self).current_block as int].terminator == old(self).blocks@[old(
                self,
            ).current_block as int].terminator,
            stmts_kept(
                old(self).blocks@[old(self).current_block as int],
                final(self).blocks@[final(self).current_block as int],
            ),
    {
        let ids = self.scope_vars.pop().unwrap();
        self.scope.pop();
        proof {
            assert forall|k: int| 0 <= k < ids@.len() implies #[trigger] ids@[k] < self.locals@.len() by {
                assert(old(self).scope_vars@[old(self).scope_vars@.len() - 1]@[k] < self.locals@.len());
            }
        }
        let mut i: usize = 0;
        while i < ids.len()
            invariant
                self.wf(),
                i <= ids@.len(),
                forall|k: int| 0 <= k < ids@.len() ==> #[trigger] ids@[k] < self.locals@.len(),
                self.scope@ == old(self).scope@.drop_last(),
                self.scope_vars@ == old(self).scope_vars@.drop_last(),
                self.locals == old(self).locals,
                self.blocks@.len() == old(self).blocks@.len(),
                self.current_block == old(self).current_block,
                self.unsafe_depth == old(self).unsafe_depth,
                self.in_forward == old(self).in_forward,
                self.ssa_versions == old(self).ssa_versions,
                self.moved == old(self).moved,
                self.drawn == old(self).drawn,
                self.issued == old(self).issued,
                self.written == old(self).written,
                self.blocks@[self.current_block as int].terminator == old(self).blocks@[old(
                    self,
                ).current_block as int].terminator,
                stmts_kept(
                    old(self).blocks@[old(self).current_block as int],
                    self.blocks@[self.current_block as int],
                ),
            decreases ids.len() - i,
        {
            let ssa = self.current_ssa(ids[i]);
            if !self.is_moved(ssa) {
                self.push_stmt(MirStmt::Drop { place: MirPlace::Ssa(ssa) });
            }
            i += 1;
        }
    }

    /// Binds `name` to local `id` in the innermost scope.
    fn bind(&mut self, name: String, id: usize)
        requires
            old(self).wf(),
            id < old(self).locals@.len(),
            old(self).locals@[id as int].name matches Some(m) && m@ == name@,
        ensures
            final(self).wf(),
            final(self).scope@.len() == old(self).scope@.len(),
            final(self).scope@.drop_last() == old(self).scope@.drop_last(),
            final(self).bound() == old(self).bound().insert(name@),
            forall|n: Seq<char>|
                #![trigger final(self).lookup_spec(n)]
                final(self).lookup_spec(n) == if n == name@ {
                    Some(id)
                } else {
                    old(self).lookup_spec(n)
                },
            final(self).scope_vars == old(self).scope_vars,
            final(self).locals == old(self).locals,
            final(self).blocks == old(self).blocks,
            final(self).current_block == old(self).current_block,
            final(self).unsafe_depth == old(self).unsafe_depth,
            final(self).in_forward == old(self).in_forward,
            final(self).ssa_versions == old(self).ssa_versions,
            final(self).moved == old(self).moved,
            final(self).drawn == old(self).drawn,
            final(self).issued == old(self).issued,
            final(self).written == old(self).written,
    {
        let t = self.scope.len() - 1;
        let n = self.scope[t].len();
        let mut p: usize = 0;
        while p < n && !same_text(self.scope[t][p].0.as_str(), name.as_str())
            invariant
                t + 1 == self.scope@.len(),
                n == self.scope@[t as int]@.len(),
                p <= n,
                forall|q: int| 0 <= q < p ==> #[trigger] self.scope@[t as int]@[q].0@ != name@,
            decreases n - p,
        {
            p += 1;
        }
        let ghost old_top = self.scope@[t as int]@;
        if p < n {
            self.scope[t].set(p, (name, id));
        } else {
            self.scope[t].push((name, id));
        }
        proof {
            let new_top = self.scope@[t as int]@;
            assert forall|m: Seq<char>| m != name@ implies first_in(new_top, m, 0) == first_in(old_top, m, 0) by {
                lemma_first_in_same(old_top, new_top, m, 0);
            }
            assert forall|q: int| 0 <= q < p implies #[trigger] new_top[q].0@ != name@ by {
                assert(new_top[q] == old_top[q]);
            }
            lemma_first_in_hit(new_top, name@, 0, p as int);
            assert forall|m: Seq<char>|
                #![trigger self.lookup_spec(m)]
                self.lookup_spec(m) == if m == name@ {
                    Some(id)
                } else {
                    old(self).lookup_spec(m)
                } by {
                lemma_scopes_find_prefix(old(self).scope@, self.scope@, m, t as int);
            }
            assert(self.scope@.drop_last() =~= old(self).scope@.drop_last());
            assert forall|m: Seq<char>| #[trigger] self.bound().contains(m) == old(self).bound().insert(name@).contains(m) by {
                assert(self.lookup_spec(m) == if m == name@ {
                    Some(id)
                } else {
                    old(self).lookup_spec(m)
                });
            }
            assert(self.bound() =~= old(self).bound().insert(name@));
        }
    }
}


impl MirBuilder {
    /// The local that `name` denotes, the innermost scope first.
    fn lookup(&self, name: &str) -> (r: Option<usize>)
        requires
            self.wf(),
        ensures
            r == self.lookup_spec(name@),
            r matches Some(id) ==> id < self.locals@.len(),
            r matches Some(id) ==> self.locals@[id as int].name matches Some(m) && m@ == name@,
    {
        let mut i: usize = self.scope.len();
        while i > 0
            invariant
                self.wf(),
                i <= self.scope@.len(),
                scopes_find(self.scope@, name@, self.scope@.len() as int) == scopes_find(
                    self.scope@,
                    name@,
                    i as int,
                ),
            decreases i,
        {
            let k = i - 1;
            let sc = &self.scope[k];
            let mut j: usize = 0;
            while j < sc.len()
                invariant
                    self.wf(),
                    k < self.scope@.len(),
                    sc@ == self.scope@[k as int]@,
                    j <= sc@.len(),
                    i == k + 1,
                    scopes_find(self.scope@, name@, self.scope@.len() as int) == scopes_find(
                        self.scope@,
                        name@,
                        i as int,
                    ),
                    first_in(sc@, name@, 0) == first_in(sc@, name@, j as int),
                decreases sc.len() - j,
            {
                if same_text(sc[j].0.as_str(), name) {
                    proof {
                        assert(self.scope@[k as int]@[j as int].1 < self.locals@.len());
                        assert(local_named(self.locals@, self.scope@[k as int]@[j as int]));
                    }
                    return Some(sc[j].1);
                }
                j += 1;
            }
            i = k;
        }
        None
    }

    // -------- blocks --------
    /// A new block, ended by the placeholder `Unreachable` until its real
    /// end is set.
    fn new_block(&mut self) -> (id: usize)
        requires
            old(self).wf(),
        ensures
            final(self).wf(),
            final(self).grows(*old(self)),
            id == old(self).blocks@.len(),
            final(self).blocks@.len() == old(self).blocks@.len() + 1,
            final(self).blocks@.drop_last() == old(self).blocks@,
            final(self).blocks@.last().stmts@.len() == 0,
            final(self).blocks@.last().terminator is Unreachable,
            final(self).locals == old(self).locals,
            final(self).current_block == old(self).current_block,
            final(self).scope == old(self).scope,
            final(self).scope_vars == old(self).scope_vars,
            final(self).ssa_versions == old(self).ssa_versions,
            final(self).moved == old(self).moved,
            final(self).drawn == old(self).drawn,
            final(self).issued == old(self).issued,
            final(self).written == old(self).written,
    {
        let id = self.blocks.len();
        let b = MirBlock { id, stmts: Vec::new(), terminator: MirTerminator::Unreachable };
        proof {
            lemma_blocks_ok_push(self.blocks@, self.locals@.len(), b);
        }
        self.blocks.push(b);
        id
    }

    fn switch_to_block(&mut self, id: usize)
        requires
            old(self).wf(),
            id < old(self).blocks@.len(),
        ensures
            final(self).wf(),
            final(self).current_block == id,
            final(self).locals == old(self).locals,
            final(self).blocks == old(self).blocks,
            final(self).scope == old(self).scope,
            final(self).scope_vars == old(self).scope_vars,
            final(self).unsafe_depth == old(self).unsafe_depth,
            final(self).in_forward == old(self).in_forward,
            final(self).ssa_versions == old(self).ssa_versions,
            final(self).moved == old(self).moved,
            final(self).drawn == old(self).drawn,
            final(self).issued == old(self).issued,
            final(self).written == old(self).written,
    {
        self.current_block = id;
    }

    fn push_stmt(&mut self, stmt: MirStmt)
        requires
            old(self).wf(),
            stmt_ok(stmt, old(self).locals@.len(), old(self).blocks@.len()),
            ssa_dest(stmt) matches Some(d) ==> old(self).issued@.contains(d) && !old(self).written@.contains(d),
        ensures
            final(self).wf(),
            final(self).blocks@.len() == old(self).blocks@.len(),
            final(self).blocks@[old(self).current_block as int].terminator == old(
                self,
            ).blocks@[old(self).current_block as int].terminator,
            final(self).blocks@[old(self).current_block as int].stmts@ == old(
                self,
            ).blocks@[old(self).current_block as int].stmts@.push(stmt),
            final(self).locals == old(self).locals,
            final(self).current_block == old(self).current_block,
            final(self).scope == old(self).scope,
            final(self).scope_vars == old(self).scope_vars,
            final(self).unsafe_depth == old(self).unsafe_depth,
            final(self).in_forward == old(self).in_forward,
            final(self).ssa_versions == old(self).ssa_versions,
            final(self).moved == old(self).moved,
            final(self).drawn == old(self).drawn,
            final(self).issued == old(self).issued,
            final(self).written@ == match ssa_dest(stmt) {
                Some(d) => old(self).written@.insert(d),
                None => old(self).written@,
            },
    {
        let c = self.current_block;
        let ghost before = self.blocks@;
        let ghost d = ssa_dest(stmt);
        self.blocks[c].stmts.push(stmt);
        self.written = Ghost(
            match d {
                Some(x) => self.written@.insert(x),
                None => self.written@,
            },
        );
        proof {
            let bs = self.blocks@;
            assert forall|i: int| 0 <= i < bs.len() implies (#[trigger] bs[i]).id == i && block_ok(
                bs[i],
                self.locals@.len(),
                bs.len(),
            ) by {
                if i == c {
                    assert(before[i].id == i && block_ok(before[i], self.locals@.len(), bs.len()));
                    assert forall|k: int| 0 <= k < bs[i].stmts@.len() implies #[trigger] stmt_ok(
                        bs[i].stmts@[k],
                        self.locals@.len(),
                        bs.len(),
                    ) by {
                        if k < before[i].stmts@.len() {
                            assert(bs[i].stmts@[k] == before[i].stmts@[k]);
                        }
                    }
                } else {
                    assert(bs[i] == before[i]);
                }
            }
        }
    }

    fn set_terminator(&mut self, term: MirTerminator)
        requires
            old(self).wf(),
            term_ok(term, old(self).locals@.len(), old(self).blocks@.len()),
        ensures
            final(self).wf(),
            final(self).blocks@.len() == old(self).blocks@.len(),
            final(self).blocks@[old(self).current_block as int].terminator == term,
            forall|i: int|
                0 <= i < old(self).blocks@.len() ==> #[trigger] final(self).blocks@[i].stmts
                    == old(self).blocks@[i].stmts,
            final(self).locals == old(self).locals,
            final(self).current_block == old(self).current_block,
            final(self).scope == old(self).scope,
            final(self).scope_vars == old(self).scope_vars,
            final(self).unsafe_depth == old(self).unsafe_depth,
            final(self).in_forward == old(self).in_forward,
            final(self).ssa_versions == old(self).ssa_versions,
            final(self).moved == old(self).moved,
            final(self).drawn == old(self).drawn,
            final(self).issued == old(self).issued,
            final(self).written == old(self).written,
    {
        let c = self.current_block;
        let ghost before = self.blocks@;
        self.blocks[c].terminator = term;
        proof {
            let bs = self.blocks@;
            assert forall|i: int| 0 <= i < bs.len() implies (#[trigger] bs[i]).id == i && block_ok(
                bs[i],
                self.locals@.len(),
                bs.len(),
            ) by {
                if i == c {
                    assert(before[i].id == i && block_ok(before[i], self.locals@.len(), bs.len()));
                    assert(bs[i].stmts == before[i].stmts);
                } else {
                    assert(bs[i] == before[i]);
                }
            }
        }
    }

    /// Whether the current block still ends in the placeholder.
    fn current_terminator_is_placeholder(&self) -> (r: bool)
        requires
            self.wf(),
        ensures
            r == !self.terminated(),
    {
        match self.blocks[self.current_block].terminator {
            MirTerminator::Unreachable => true,
            _ => false,
        }
    }
}


// ===== what lowering an expression gives =====

/// The right-hand side of the shapes whose lowering does not depend on the
/// builder's state: a literal, a symbol, a bare variant, an empty slice, an
/// operator keeping its operator, a construction keeping its names, and the
/// errors for a closure or a bare range.
pub open spec fn rvalue_lowered(e: HirExpr, r: Result<MirRvalue, String>) -> bool {
    match e.kind {
        HirExprKind::Literal(lit) => match r {
            Ok(MirRvalue::Use(MirOperand::Constant(l))) => crate::ast::literal_same(l, lit),
            _ => false,
        },
        HirExprKind::Sym(n) => match r {
            Ok(MirRvalue::Use(MirOperand::Move(MirPlace::Static(m)))) => m@ == n@,
            _ => false,
        },
        HirExprKind::EnumVariantAccess { enum_name, variant_name } => match r {
            Ok(MirRvalue::EnumVariantConstruction { enum_name: e2, generic_args, variant_name: v2, args }) => e2@
                == enum_name@ && v2@ == variant_name@ && generic_args@.len() == 0 && args@.len() == 0,
            _ => false,
        },
        HirExprKind::LackSlice(_) => match r {
            Ok(MirRvalue::ArrayLiteral(a)) => a@.len() == 0,
            _ => false,
        },
        HirExprKind::Closure { .. } => match r {
            Err(m) => m@ == closure_text(),
            _ => false,
        },
        HirExprKind::Range { .. } => match r {
            Err(m) => m@ == range_text(),
            _ => false,
        },
        HirExprKind::BinaryOp { op, .. } => match r {
            Ok(MirRvalue::BinaryOp(o, _, _)) => o == op,
            Ok(_) => false,
            Err(_) => true,
        },
        HirExprKind::Unary { op, .. } => match r {
            Ok(MirRvalue::UnaryOp(o, _)) => o == op,
            Ok(_) => false,
            Err(_) => true,
        },
        HirExprKind::Cast { ty, .. } => match r {
            Ok(MirRvalue::Cast(_, t)) => t@ == ty@,
            Ok(_) => false,
            Err(_) => true,
        },
        HirExprKind::EnumVariantConstruction { enum_name, generic_args, variant_name, args } => match r {
            Ok(
                MirRvalue::EnumVariantConstruction { enum_name: e2, generic_args: g, variant_name: v2, args: a },
            ) => e2@ == enum_name@ && v2@ == variant_name@ && a@.len() == args@.len()
                && crate::ast::types_model(g@) == crate::ast::types_model(generic_args@),
            Ok(_) => false,
            Err(_) => true,
        },
        HirExprKind::StructInit { struct_name, generic_args, fields } => match r {
            Ok(MirRvalue::StructInit { struct_name: s2, generic_args: g, fields: f2 }) => s2@ == struct_name@
                && crate::ast::types_model(g@) == crate::ast::types_model(generic_args@) && f2@.len()
                == fields@.len() && forall|k: int|
                0 <= k < fields@.len() ==> (#[trigger] f2@[k]).0@ == fields@[k].0@,
            Ok(_) => false,
            Err(_) => true,
        },
        HirExprKind::ArrayLiteral(es) => match r {
            Ok(MirRvalue::ArrayLiteral(a)) => a@.len() == es@.len(),
            Ok(_) => false,
            Err(_) => true,
        },
        _ => true,
    }
}

/// The built-in function written `s`, if any.
pub open spec fn fn_named(s: Seq<char>) -> Option<IntrinsicFn> {
    if exists|f: IntrinsicFn| crate::intrinsic::fn_name(f) == s {
        Some(choose|f: IntrinsicFn| crate::intrinsic::fn_name(f) == s)
    } else {
        None
    }
}

proof fn lemma_fn_named(s: Seq<char>, f: IntrinsicFn)
    requires
        crate::intrinsic::fn_name(f) == s,
    ensures
        fn_named(s) == Some(f),
{
    let g = choose|g: IntrinsicFn| crate::intrinsic::fn_name(g) == s;
    crate::intrinsic::law_fn_names_distinct(f, g);
}

/// A built-in constant is written `s`.
pub open spec fn const_named(s: Seq<char>) -> bool {
    exists|c: IntrinsicConst| crate::intrinsic::const_name(c) == s
}

/// The name a call is emitted under: `q::f` for a qualified call.
pub open spec fn call_name(qualifier: Option<String>, func: Seq<char>) -> Seq<char> {
    match qualifier {
        Some(q) => q@ + "::"@ + func,
        None => func,
    }
}

/// What lowering a call gives: a bare variant of a unique enum constructs
/// it; a method call without a receiver is an error, else its first argument
/// is the receiver; a bare call of no arguments naming a built-in constant
/// reads it as a static; a bare call of a built-in function is refused in a
/// model's `forward` when the function has effects, and outside `unsafe`
/// when it needs it, else is marked as built-in; any other call is plain.
pub open spec fn call_lowered(e: HirExpr, enums: Seq<HirEnum>, in_forward: bool, unsafe_depth: usize, r: Result<MirRvalue, String>) -> bool {
    match e.kind {
        HirExprKind::Call { qualifier, func, generic_args, args, is_method } => {
            let bare = qualifier is None && !is_method;
            let owner = variant_owner(enums, func@);
            if bare && owner is Some {
                match r {
                    Ok(MirRvalue::EnumVariantConstruction { enum_name, variant_name, args: a, generic_args: g }) => owner
                        == Some(enum_name@) && variant_name@ == func@ && a@.len() == args@.len()
                        && crate::ast::types_model(g@) == crate::ast::types_model(generic_args@),
                    Ok(_) => false,
                    Err(_) => true,
                }
            } else if is_method {
                if args@.len() == 0 {
                    match r {
                        Err(m) => m@ == receiver_text(),
                        _ => false,
                    }
                } else {
                    match r {
                        Ok(MirRvalue::MethodCall { method, args: a, generic_args: g, .. }) => method@ == func@ && a@.len()
                            + 1 == args@.len() && crate::ast::types_model(g@) == crate::ast::types_model(
                            generic_args@,
                        ),
                        Ok(_) => false,
                        Err(_) => true,
                    }
                }
            } else if qualifier is None && args@.len() == 0 && const_named(func@) {
                match r {
                    Ok(MirRvalue::Use(MirOperand::Move(MirPlace::Static(n)))) => n@ == func@,
                    _ => false,
                }
            } else if qualifier is None && fn_named(func@) is Some {
                let f = fn_named(func@).unwrap();
                if in_forward && (f == IntrinsicFn::Print || f == IntrinsicFn::Panic) {
                    match r {
                        Err(m) => m@ == model_effect_text(func@),
                        _ => false,
                    }
                } else if f == IntrinsicFn::FromUtf8Unchecked && unsafe_depth == 0 {
                    match r {
                        Err(m) => m@ == unsafe_call_text(func@),
                        _ => false,
                    }
                } else {
                    match r {
                        Ok(MirRvalue::Call { func: n, args: a, is_intrinsic, intrinsic_name, generic_args: g }) => crate::ast::types_model(g@) == crate::ast::types_model(generic_args@) && n@
                            == func@ && a@.len() == args@.len() && is_intrinsic && intrinsic_name == Some(f),
                        Ok(_) => false,
                        Err(_) => true,
                    }
                }
            } else {
                match r {
                    Ok(MirRvalue::Call { func: n, args: a, is_intrinsic, intrinsic_name, generic_args: g }) => crate::ast::types_model(g@) == crate::ast::types_model(generic_args@) && n@
                        == call_name(qualifier, func@) && a@.len() == args@.len() && !is_intrinsic
                        && intrinsic_name is None,
                    Ok(_) => false,
                    Err(_) => true,
                }
            }
        },
        _ => true,
    }
}

// ===== when lowering succeeds =====

/// The names in scope after statement `s`: a `let` adds its own.
pub open spec fn names_after(s: HirStmt, names: Set<Seq<char>>) -> Set<Seq<char>> {
    match s {
        HirStmt::Let { name, .. } => names.insert(name@),
        _ => names,
    }
}

/// The names that the first `n` fields of a struct pattern bind.
pub open spec fn field_binds(fields: Seq<(String, String)>, n: int) -> Set<Seq<char>>
    decreases n,
{
    if n <= 0 || n > fields.len() {
        Set::empty()
    } else {
        field_binds(fields, n - 1).insert(fields[n - 1].1@)
    }
}

/// The names that the first `n` slots of a tuple or array pattern bind.
pub open spec fn slot_binds(slots: Seq<Option<String>>, n: int) -> Set<Seq<char>>
    decreases n,
{
    if n <= 0 || n > slots.len() {
        Set::empty()
    } else {
        match slots[n - 1] {
            Some(b) => slot_binds(slots, n - 1).insert(b@),
            None => slot_binds(slots, n - 1),
        }
    }
}

/// The names of the parameters `ps[..n]`.
pub open spec fn param_names(ps: Seq<crate::hir::HirParam>, n: int) -> Set<Seq<char>>
    decreases n,
{
    if n <= 0 || n > ps.len() {
        Set::empty()
    } else {
        param_names(ps, n - 1).insert(ps[n - 1].name@)
    }
}

/// A call that lowering lets through: a method call needs a receiver; a
/// bare call of a built-in function with effects is refused in a model's
/// `forward`, and one that needs `unsafe` outside an `unsafe` block.
pub open spec fn call_allowed(
    qualifier: Option<String>,
    func: Seq<char>,
    nargs: nat,
    is_method: bool,
    uns: bool,
    fwd: bool,
    enums: Seq<HirEnum>,
) -> bool {
    if qualifier is None && !is_method && variant_owner(enums, func) is Some {
        true
    } else if is_method {
        nargs > 0
    } else if qualifier is None && nargs == 0 && const_named(func) {
        true
    } else if qualifier is None && fn_named(func) is Some {
        let f = fn_named(func).unwrap();
        !(fwd && (f == IntrinsicFn::Print || f == IntrinsicFn::Panic)) && !(f
            == IntrinsicFn::FromUtf8Unchecked && !uns)
    } else {
        true
    }
}

/// The pattern of an arm of a `match` on an enum names a variant that the
/// enum declares, or is a wildcard.
pub open spec fn enum_pattern_ok(p: Pattern, enums: Seq<HirEnum>) -> bool {
    match p {
        Pattern::EnumVariant { enum_name, variant_name } => variant_index(
            enums,
            enum_name@,
            variant_name@,
            enums.len() as int,
        ) is Some,
        Pattern::EnumVariantWithBinding { enum_name, variant_name, .. } => variant_index(
            enums,
            enum_name@,
            variant_name@,
            enums.len() as int,
        ) is Some,
        Pattern::Wildcard => true,
        _ => false,
    }
}

/// A pattern that binds a payload names a variant of a unique enum that
/// has one.
pub open spec fn payload_ok(p: Pattern, enums: Seq<HirEnum>) -> bool {
    match binding_of(p) {
        Some((_, v)) => match variant_owner(enums, v) {
            Some(o) => variant_payload(enums, o, v, enums.len() as int) is Some,
            None => false,
        },
        None => true,
    }
}

/// An arm of a `match` on an enum that lowering accepts.
pub open spec fn enum_arm_ok(p: Pattern, enums: Seq<HirEnum>) -> bool {
    enum_pattern_ok(p, enums) && payload_ok(p, enums)
}

/// The binding and the variant of an arm that binds a payload.
pub open spec fn binding_of(p: Pattern) -> Option<(Seq<char>, Seq<char>)> {
    match p {
        Pattern::EnumVariantWithBinding { variant_name, binding, .. } => Some((binding@, variant_name@)),
        _ => None,
    }
}

/// The texts of a pair of strings, if any.
pub open spec fn pair_text(o: Option<(String, String)>) -> Option<(Seq<char>, Seq<char>)> {
    match o {
        Some((a, b)) => Some((a@, b@)),
        None => None,
    }
}

/// The names in scope in the body of an arm with pattern `p` of a `match`
/// on an enum.
pub open spec fn enum_arm_names(p: Pattern, names: Set<Seq<char>>) -> Set<Seq<char>> {
    match p {
        Pattern::EnumVariantWithBinding { binding, .. } => names.insert(binding@),
        _ => names,
    }
}

/// An arm of a `match` on a scalar of type `ty` that lowering accepts.
pub open spec fn scalar_arm_ok(p: Pattern, ty: Type) -> bool {
    match p {
        Pattern::IntLiteral(_) => is_int_type(ty@),
        Pattern::BoolLiteral(_) => true,
        Pattern::CharLiteral(_) => true,
        Pattern::Wildcard => true,
        _ => false,
    }
}

/// Some arm is a wildcard.
pub open spec fn has_wildcard(arms: Seq<HirMatchArm>) -> bool {
    exists|k: int| 0 <= k < arms.len() && (#[trigger] arms[k]).pattern is Wildcard
}

/// Lowering `e` to a place succeeds: a variable in scope, or a field or an
/// element of one whose index lowers.
pub open spec fn lowers_place(e: HirExpr, names: Set<Seq<char>>, uns: bool, fwd: bool, hir: HirProgram) -> bool
    decreases e, 0int,
{
    match e.kind {
        HirExprKind::Ident(n) => names.contains(n@),
        HirExprKind::FieldAccess { struct_expr, .. } => lowers_place(*struct_expr, names, uns, fwd, hir),
        HirExprKind::Index { expr, index } => lowers_place(*expr, names, uns, fwd, hir) && lowers_expr(
            *index,
            names,
            uns,
            fwd,
            hir,
        ),
        _ => false,
    }
}

/// Lowering `e` succeeds with `names` in scope, inside an `unsafe` block
/// when `uns`, in a model's `forward` when `fwd`: every variable is in
/// scope, every call is let through, every `match` fits the type it
/// matches on, and no closure, bare range, `break` or `for` is left.
pub open spec fn lowers_expr(e: HirExpr, names: Set<Seq<char>>, uns: bool, fwd: bool, hir: HirProgram) -> bool
    decreases e, 1int,
{
    match e.kind {
        HirExprKind::Ident(n) => names.contains(n@),
        HirExprKind::BinaryOp { left, right, .. } => lowers_expr(*left, names, uns, fwd, hir) && lowers_expr(
            *right,
            names,
            uns,
            fwd,
            hir,
        ),
        HirExprKind::Unary { expr, .. } => lowers_expr(*expr, names, uns, fwd, hir),
        HirExprKind::Cast { expr, .. } => lowers_expr(*expr, names, uns, fwd, hir),
        HirExprKind::FieldAccess { .. } => lowers_place(e, names, uns, fwd, hir),
        HirExprKind::Index { .. } => lowers_place(e, names, uns, fwd, hir),
        HirExprKind::Call { qualifier, func, args, is_method, .. } => call_allowed(
            qualifier,
            func@,
            args@.len(),
            is_method,
            uns,
            fwd,
            hir.enums@,
        ) && lowers_args(args@, 0, names, uns, fwd, hir),
        HirExprKind::EnumVariantConstruction { args, .. } => lowers_args(args@, 0, names, uns, fwd, hir),
        HirExprKind::StructInit { fields, .. } => lowers_fields(fields@, 0, names, uns, fwd, hir),
        HirExprKind::ArrayLiteral(es) => lowers_exprs(es@, 0, names, uns, fwd, hir),
        HirExprKind::Block(b) => lowers_block(b, names, uns, fwd, hir),
        HirExprKind::UnsafeBlock { body, .. } => lowers_block(body, names, true, fwd, hir),
        HirExprKind::If { cond, then_expr, else_expr, .. } => lowers_expr(*cond, names, uns, fwd, hir)
            && lowers_expr(*then_expr, names, uns, fwd, hir) && match else_expr {
            Some(x) => lowers_expr(*x, names, uns, fwd, hir),
            None => true,
        },
        HirExprKind::Match { cond, arms } => lowers_expr(*cond, names, uns, fwd, hir) && lowers_arms(
            cond.ty,
            arms@,
            names,
            uns,
            fwd,
            hir,
        ),
        HirExprKind::Closure { .. } => false,
        HirExprKind::Range { .. } => false,
        _ => true,
    }
}

pub open spec fn lowers_args(s: Seq<HirCallArg>, i: int, names: Set<Seq<char>>, uns: bool, fwd: bool, hir: HirProgram) -> bool
    decreases s, s.len() - i,
{
    if 0 <= i < s.len() {
        (match s[i] {
            HirCallArg::Positional(e) => lowers_expr(e, names, uns, fwd, hir),
            HirCallArg::Named(_, e) => lowers_expr(e, names, uns, fwd, hir),
        }) && lowers_args(s, i + 1, names, uns, fwd, hir)
    } else {
        true
    }
}

pub open spec fn lowers_fields(s: Seq<(String, HirExpr)>, i: int, names: Set<Seq<char>>, uns: bool, fwd: bool, hir: HirProgram) -> bool
    decreases s, s.len() - i,
{
    if 0 <= i < s.len() {
        lowers_expr(s[i].1, names, uns, fwd, hir) && lowers_fields(s, i + 1, names, uns, fwd, hir)
    } else {
        true
    }
}

pub open spec fn lowers_exprs(s: Seq<HirExpr>, i: int, names: Set<Seq<char>>, uns: bool, fwd: bool, hir: HirProgram) -> bool
    decreases s, s.len() - i,
{
    if 0 <= i < s.len() {
        lowers_expr(s[i], names, uns, fwd, hir) && lowers_exprs(s, i + 1, names, uns, fwd, hir)
    } else {
        true
    }
}

/// The arms of a `match` on a value of type `ty` lower: a struct, tuple or
/// array is destructured by one arm whose bindings exist; an enum's arms
/// name its variants; a scalar's arms are literals of its type, one of them
/// a wildcard.
pub open spec fn lowers_arms(ty: Type, arms: Seq<HirMatchArm>, names: Set<Seq<char>>, uns: bool, fwd: bool, hir: HirProgram) -> bool
    decreases arms, arms.len() + 2,
{
    match ty {
        Type::Struct(sn) => struct_arms(sn@, arms, names, uns, fwd, hir),
        Type::Tuple(elem_tys) => tuple_arms(elem_tys@.len(), arms, names, uns, fwd, hir),
        Type::Array(_, _) => array_arms(arms, names, uns, fwd, hir),
        Type::Enum(_) => enum_arms(arms, 0, names, uns, fwd, hir),
        _ => scalar_arms(ty, arms, 0, names, uns, fwd, hir) && has_wildcard(arms),
    }
}

pub open spec fn struct_arms(sn: Seq<char>, arms: Seq<HirMatchArm>, names: Set<Seq<char>>, uns: bool, fwd: bool, hir: HirProgram) -> bool
    decreases arms, arms.len() + 1,
{
    arms.len() == 1 && match arms[0].pattern {
        Pattern::Struct { fields, .. } => (forall|k: int|
            0 <= k < fields@.len() ==> field_type(hir.structs@, sn, (#[trigger] fields@[k]).0@) is Some)
            && lowers_expr(arms[0].expr, names.union(field_binds(fields@, fields@.len() as int)), uns, fwd, hir),
        Pattern::Wildcard => lowers_expr(arms[0].expr, names, uns, fwd, hir),
        _ => false,
    }
}

pub open spec fn tuple_arms(n: nat, arms: Seq<HirMatchArm>, names: Set<Seq<char>>, uns: bool, fwd: bool, hir: HirProgram) -> bool
    decreases arms, arms.len() + 1,
{
    arms.len() == 1 && match arms[0].pattern {
        Pattern::Tuple(slots) => (forall|k: int| 0 <= k < slots@.len() && (#[trigger] slots@[k]) is Some ==> k < n)
            && lowers_expr(arms[0].expr, names.union(slot_binds(slots@, slots@.len() as int)), uns, fwd, hir),
        Pattern::Wildcard => lowers_expr(arms[0].expr, names, uns, fwd, hir),
        _ => false,
    }
}

pub open spec fn array_arms(arms: Seq<HirMatchArm>, names: Set<Seq<char>>, uns: bool, fwd: bool, hir: HirProgram) -> bool
    decreases arms, arms.len() + 1,
{
    arms.len() == 1 && match arms[0].pattern {
        Pattern::Array(slots) => lowers_expr(arms[0].expr, names.union(slot_binds(slots@, slots@.len() as int)), uns, fwd, hir),
        Pattern::Wildcard => lowers_expr(arms[0].expr, names, uns, fwd, hir),
        _ => false,
    }
}

pub open spec fn enum_arms(arms: Seq<HirMatchArm>, i: int, names: Set<Seq<char>>, uns: bool, fwd: bool, hir: HirProgram) -> bool
    decreases arms, arms.len() - i,
{
    if 0 <= i < arms.len() {
        enum_arm_ok(arms[i].pattern, hir.enums@) && lowers_expr(
            arms[i].expr,
            enum_arm_names(arms[i].pattern, names),
            uns,
            fwd,
            hir,
        ) && enum_arms(arms, i + 1, names, uns, fwd, hir)
    } else {
        true
    }
}

pub open spec fn scalar_arms(ty: Type, arms: Seq<HirMatchArm>, i: int, names: Set<Seq<char>>, uns: bool, fwd: bool, hir: HirProgram) -> bool
    decreases arms, arms.len() - i,
{
    if 0 <= i < arms.len() {
        scalar_arm_ok(arms[i].pattern, ty) && lowers_expr(arms[i].expr, names, uns, fwd, hir)
            && scalar_arms(ty, arms, i + 1, names, uns, fwd, hir)
    } else {
        true
    }
}

/// The arms `arms[i..]` of a `match` on an enum lower, each on its own.
proof fn lemma_enum_arms(arms: Seq<HirMatchArm>, i: int, names: Set<Seq<char>>, uns: bool, fwd: bool, hir: HirProgram)
    requires
        0 <= i,
    ensures
        enum_arms(arms, i, names, uns, fwd, hir) <==> forall|k: int|
            i <= k < arms.len() ==> enum_arm_ok((#[trigger] arms[k]).pattern, hir.enums@) && lowers_expr(
                arms[k].expr,
                enum_arm_names(arms[k].pattern, names),
                uns,
                fwd,
                hir,
            ),
    decreases arms.len() - i,
{
    if i < arms.len() {
        lemma_enum_arms(arms, i + 1, names, uns, fwd, hir);
    }
}

/// The arms `arms[i..]` of a `match` on a scalar lower, each on its own.
proof fn lemma_scalar_arms(ty: Type, arms: Seq<HirMatchArm>, i: int, names: Set<Seq<char>>, uns: bool, fwd: bool, hir: HirProgram)
    requires
        0 <= i,
    ensures
        scalar_arms(ty, arms, i, names, uns, fwd, hir) <==> forall|k: int|
            i <= k < arms.len() ==> scalar_arm_ok((#[trigger] arms[k]).pattern, ty) && lowers_expr(
                arms[k].expr,
                names,
                uns,
                fwd,
                hir,
            ),
    decreases arms.len() - i,
{
    if i < arms.len() {
        lemma_scalar_arms(ty, arms, i + 1, names, uns, fwd, hir);
    }
}

/// Lowering the block succeeds, each statement with the names that the
/// `let`s before it add.
pub open spec fn lowers_block(b: HirBlock, names: Set<Seq<char>>, uns: bool, fwd: bool, hir: HirProgram) -> bool
    decreases b, 3int,
{
    lowers_stmts(b.stmts@, 0, names, uns, fwd, hir)
}

pub open spec fn lowers_stmts(s: Seq<HirStmt>, i: int, names: Set<Seq<char>>, uns: bool, fwd: bool, hir: HirProgram) -> bool
    decreases s, s.len() - i,
{
    if 0 <= i < s.len() {
        lowers_stmt(s[i], names, uns, fwd, hir) && lowers_stmts(
            s,
            i + 1,
            names_after(s[i], names),
            uns,
            fwd,
            hir,
        )
    } else {
        true
    }
}

pub open spec fn lowers_stmt(s: HirStmt, names: Set<Seq<char>>, uns: bool, fwd: bool, hir: HirProgram) -> bool
    decreases s, 3int,
{
    match s {
        HirStmt::Let { init, .. } => lowers_expr(init, names, uns, fwd, hir),
        HirStmt::Expr { expr, .. } => lowers_expr(expr, names, uns, fwd, hir),
        HirStmt::Return { expr, .. } => match expr {
            Some(x) => lowers_expr(x, names, uns, fwd, hir),
            None => true,
        },
        HirStmt::Assign { target, expr, .. } => lowers_place(*target, names, uns, fwd, hir) && lowers_expr(
            expr,
            names,
            uns,
            fwd,
            hir,
        ),
        HirStmt::While { cond, body, .. } => lowers_expr(cond, names, uns, fwd, hir) && lowers_block(
            body,
            names,
            uns,
            fwd,
            hir,
        ),
        HirStmt::Loop { body, .. } => lowers_block(body, names, uns, fwd, hir),
        HirStmt::UnsafeBlock { body, .. } => lowers_block(body, names, true, fwd, hir),
        HirStmt::Break { .. } => false,
        HirStmt::For { .. } => false,
    }
}

/// Lowering the function succeeds: its body, with its parameters in scope,
/// outside any `unsafe` block, in a `forward` when it is one.
pub open spec fn fn_lowers(f: HirFn, hir: HirProgram) -> bool {
    lowers_block(f.body, param_names(f.params@, f.params@.len() as int), false, f.is_forward, hir)
}

/// Lowering succeeds for every function of the program: the free ones,
/// the models' and the `implement` blocks'.
pub open spec fn program_lowers(hir: HirProgram) -> bool {
    &&& forall|i: int| 0 <= i < hir.fns@.len() ==> fn_lowers(#[trigger] hir.fns@[i], hir)
    &&& forall|m: int, j: int|
        0 <= m < hir.models@.len() && 0 <= j < hir.models@[m].functions@.len() ==> fn_lowers(
            #[trigger] hir.models@[m].functions@[j],
            hir,
        )
    &&& forall|m: int, j: int|
        0 <= m < hir.impls@.len() && 0 <= j < hir.impls@[m].functions@.len() ==> fn_lowers(
            #[trigger] hir.impls@[m].functions@[j],
            hir,
        )
}

/// The type a `let` gives its local: the declared one, else the
/// initializer's.
pub open spec fn declared_or(ty: Option<Type>, init: Type) -> TypeModel {
    match ty {
        Some(t) => t@,
        None => init@,
    }
}

/// A local named `name` of type `ty`, with the given mutability and
/// persistence.
pub open spec fn local_is(l: MirLocal, name: Seq<char>, ty: TypeModel, mutable: bool, persist: bool) -> bool {
    match l.name {
        Some(n) => n@ == name && l.ty@ == ty && l.mutable == mutable && l.persist == persist,
        None => false,
    }
}

/// The expression whose value a block yields: that of its last statement,
/// when that is an expression statement whose type is not `never`.
pub open spec fn tail_expr(b: HirBlock) -> Option<HirExpr> {
    if b.stmts@.len() > 0 {
        match b.stmts@.last() {
            HirStmt::Expr { expr, .. } => if expr.ty is Never {
                None
            } else {
                Some(expr)
            },
            _ => None,
        }
    } else {
        None
    }
}

/// An expression whose lowering stays in the block where it starts: made
/// of literals, variables, constants, unit variants, operators, casts and
/// calls.
pub open spec fn flat_expr(e: HirExpr) -> bool
    decreases e, 1int,
{
    flat_kind(e.kind)
}

pub open spec fn flat_kind(k: HirExprKind) -> bool
    decreases k, 0int,
{
    match k {
        HirExprKind::Literal(_) => true,
        HirExprKind::Ident(_) => true,
        HirExprKind::Sym(_) => true,
        HirExprKind::EnumVariantAccess { .. } => true,
        HirExprKind::LackSlice(_) => true,
        HirExprKind::BinaryOp { left, right, .. } => flat_expr(*left) && flat_expr(*right),
        HirExprKind::Unary { expr, .. } => flat_expr(*expr),
        HirExprKind::Cast { expr, .. } => flat_expr(*expr),
        HirExprKind::Call { args, .. } => flat_args(args@),
        HirExprKind::EnumVariantConstruction { args, .. } => flat_args(args@),
        _ => false,
    }
}

pub open spec fn flat_args(s: Seq<HirCallArg>) -> bool
    decreases s, 0int,
{
    forall|i: int| 0 <= i < s.len() ==> flat_arg(#[trigger] s[i])
}

pub open spec fn flat_arg(a: HirCallArg) -> bool
    decreases a, 0int,
{
    match a {
        HirCallArg::Positional(x) => flat_expr(x),
        HirCallArg::Named(_, x) => flat_expr(x),
    }
}

/// A statement whose lowering stays in the block where it starts: a `let`
/// or an expression statement (not of type `never`) of a flat expression.
pub open spec fn flat_stmt(s: HirStmt) -> bool {
    match s {
        HirStmt::Let { init, .. } => flat_expr(init),
        HirStmt::Expr { expr, .. } => !(expr.ty is Never) && flat_expr(expr),
        _ => false,
    }
}

/// A straight-line block: every statement stays in the block where the
/// block starts.
pub open spec fn flat_block(b: HirBlock) -> bool {
    forall|i: int| 0 <= i < b.stmts@.len() ==> flat_stmt(#[trigger] b.stmts@[i])
}

/// The block `blk` holds the statement `st`.
pub open spec fn block_holds(blk: MirBlock, st: MirStmt) -> bool {
    exists|k: int| 0 <= k < blk.stmts@.len() && #[trigger] blk.stmts@[k] == st
}

/// `o` is the operand that lowering the expression `e` gives, read in the
/// block `blk` with the locals `locals`: the literal itself; a version of
/// a local that carries the variable's name; or, for any other expression,
/// the operand of its lowered right-hand side where that is a plain use,
/// else a local to which `blk` assigns that right-hand side.
pub open spec fn tail_operand(e: HirExpr, o: MirOperand, blk: MirBlock, locals: Seq<MirLocal>) -> bool {
    match e.kind {
        HirExprKind::Literal(lit) => match o {
            MirOperand::Constant(l) => crate::ast::literal_same(l, lit),
            _ => false,
        },
        HirExprKind::Ident(n) => match o {
            MirOperand::Move(MirPlace::Ssa(x)) => {
                &&& x.base_id < locals.len()
                &&& locals[x.base_id as int].name matches Some(m) && m@ == n@
            },
            _ => false,
        },
        _ => exists|v: MirRvalue|
            #[trigger] rvalue_lowered(e, Ok(v)) && (v == MirRvalue::Use(o) || match o {
                MirOperand::Move(MirPlace::Ssa(x)) => block_holds(
                    blk,
                    MirStmt::Assign { dest: MirPlace::Ssa(x), value: v },
                ),
                _ => false,
            }),
    }
}

/// The value a block yields is there when it has a tail expression, and is
/// the operand that lowering that expression gives, read in the block
/// `blk` where the body ends, with the locals `locals`; without a tail
/// expression, only a closing `unsafe` block gives a value.
pub open spec fn tail_value(b: HirBlock, last: Option<MirOperand>, blk: MirBlock, locals: Seq<MirLocal>) -> bool {
    match tail_expr(b) {
        Some(e) => match last {
            Some(o) => tail_operand(e, o, blk, locals),
            None => false,
        },
        None => last is Some ==> b.stmts@.len() > 0 && b.stmts@.last() is UnsafeBlock,
    }
}

/// Statements only added to a block: `b2` holds what `b1` held, at the same
/// places.
pub open spec fn stmts_kept(b1: MirBlock, b2: MirBlock) -> bool {
    &&& b1.stmts@.len() <= b2.stmts@.len()
    &&& forall|k: int| 0 <= k < b1.stmts@.len() ==> #[trigger] b2.stmts@[k] == b1.stmts@[k]
}

proof fn lemma_tail_value_kept(b: HirBlock, last: Option<MirOperand>, b1: MirBlock, b2: MirBlock, locals: Seq<MirLocal>)
    requires
        tail_value(b, last, b1, locals),
        stmts_kept(b1, b2),
    ensures
        tail_value(b, last, b2, locals),
{
    if let Some(e) = tail_expr(b) {
        if let Some(o) = last {
            match e.kind {
                HirExprKind::Literal(_) => {},
                HirExprKind::Ident(_) => {},
                _ => {
                    let v = choose|v: MirRvalue|
                        #[trigger] rvalue_lowered(e, Ok(v)) && (v == MirRvalue::Use(o) || match o {
                            MirOperand::Move(MirPlace::Ssa(x)) => block_holds(
                                b1,
                                MirStmt::Assign { dest: MirPlace::Ssa(x), value: v },
                            ),
                            _ => false,
                        });
                    if v != MirRvalue::Use(o) {
                        if let MirOperand::Move(MirPlace::Ssa(x)) = o {
                            let st = MirStmt::Assign { dest: MirPlace::Ssa(x), value: v };
                            let k = choose|k: int| 0 <= k < b1.stmts@.len() && #[trigger] b1.stmts@[k] == st;
                            assert(b2.stmts@[k] == st);
                            assert(block_holds(b2, st));
                        }
                    }
                    assert(tail_operand(e, o, b2, locals));
                },
            }
        }
    }
}

/// A kind whose lowering to an operand always reads a fresh local.
pub open spec fn temp_kind(k: HirExprKind) -> bool {
    k is BinaryOp || k is Unary || k is Cast || k is EnumVariantConstruction || k is StructInit
        || k is ArrayLiteral || k is EnumVariantAccess || k is LackSlice || k is If
}

impl MirBuilder {
    /// `o` is what lowering `e` from this state gives: the literal itself, the
    /// variable's local, or a local made while lowering it (numbered from
    /// `lo` up to `hi`).
    spec fn operand_from(&self, e: HirExpr, o: MirOperand, lo: nat, hi: nat) -> bool {
        match e.kind {
            HirExprKind::Literal(lit) => match o {
                MirOperand::Constant(l) => crate::ast::literal_same(l, lit),
                _ => false,
            },
            HirExprKind::Ident(n) => match o {
                MirOperand::Move(MirPlace::Ssa(x)) => self.lookup_spec(n@) == Some(x.base_id),
                _ => false,
            },
            _ => temp_kind(e.kind) ==> match o {
                MirOperand::Move(MirPlace::Ssa(x)) => lo <= x.base_id < hi,
                _ => false,
            },
        }
    }

    /// The operands of an operator's right-hand side come from its operands,
    /// the left one's locals made before the right one's.
    spec fn operands_from(&self, e: HirExpr, v: MirRvalue, lo: nat, hi: nat) -> bool {
        match (e.kind, v) {
            (HirExprKind::BinaryOp { left, right, .. }, MirRvalue::BinaryOp(_, l, r)) => exists|m: nat|
                lo <= m <= hi && self.operand_from(*left, l, lo, m) && self.operand_from(*right, r, m, hi),
            (HirExprKind::Unary { expr, .. }, MirRvalue::UnaryOp(_, o)) => self.operand_from(*expr, o, lo, hi),
            (HirExprKind::Cast { expr, .. }, MirRvalue::Cast(o, _)) => self.operand_from(*expr, o, lo, hi),
            (HirExprKind::Call { args, .. }, MirRvalue::Call { args: a, .. }) => self.args_from(
                args@,
                0,
                a@,
                lo,
                hi,
            ),
            (HirExprKind::Call { args, .. }, MirRvalue::EnumVariantConstruction { args: a, .. }) => self.args_from(
                args@,
                0,
                a@,
                lo,
                hi,
            ),
            (HirExprKind::Call { args, .. }, MirRvalue::MethodCall { receiver, args: a, .. }) => args@.len() > 0
                && self.operand_from(arg_expr(args@[0]), receiver, lo, hi) && self.args_from(args@, 1, a@, lo, hi),
            (
                HirExprKind::EnumVariantConstruction { args, .. },
                MirRvalue::EnumVariantConstruction { args: a, .. },
            ) => self.args_from(args@, 0, a@, lo, hi),
            _ => true,
        }
    }

    /// Each operand `a[i]` comes from argument `args[from + i]`.
    spec fn args_from(&self, args: Seq<HirCallArg>, from: int, a: Seq<MirOperand>, lo: nat, hi: nat) -> bool {
        forall|i: int| 0 <= i < a.len() ==> self.operand_from(arg_expr(args[from + i]), #[trigger] a[i], lo, hi)
    }

    /// `name` denotes a local made since `start`, named `name`, of type
    /// `ty`.
    spec fn let_bound(&self, start: nat, name: Seq<char>, ty: TypeModel, mutable: bool, persist: bool) -> bool {
        match self.lookup_spec(name) {
            Some(id) => start <= id < self.locals@.len() && local_is(
                self.locals@[id as int],
                name,
                ty,
                mutable,
                persist,
            ),
            None => false,
        }
    }
}

// ===== debug text of HIR nodes =====

/// What `{:?}` writes for a pattern.
pub open spec fn pattern_debug(p: Pattern) -> Seq<char> {
    crate::show::pattern_text(p)
}

fn debug_pattern(p: &Pattern) -> (r: String)
    ensures
        r@ == pattern_debug(*p),
{
    crate::show::pattern_string(p)
}

/// The name of the variant of an HIR expression's kind.
pub open spec fn hir_kind_debug(k: HirExprKind) -> Seq<char> {
    match k {
        HirExprKind::Literal(_) => "Literal"@,
        HirExprKind::Ident(_) => "Ident"@,
        HirExprKind::Sym(_) => "Sym"@,
        HirExprKind::BinaryOp { .. } => "BinaryOp"@,
        HirExprKind::Call { .. } => "Call"@,
        HirExprKind::Block(_) => "Block"@,
        HirExprKind::StructInit { .. } => "StructInit"@,
        HirExprKind::FieldAccess { .. } => "FieldAccess"@,
        HirExprKind::Range { .. } => "Range"@,
        HirExprKind::EnumVariantAccess { .. } => "EnumVariantAccess"@,
        HirExprKind::EnumVariantConstruction { .. } => "EnumVariantConstruction"@,
        HirExprKind::Match { .. } => "Match"@,
        HirExprKind::Closure { .. } => "Closure"@,
        HirExprKind::If { .. } => "If"@,
        HirExprKind::ArrayLiteral(_) => "ArrayLiteral"@,
        HirExprKind::UnsafeBlock { .. } => "UnsafeBlock"@,
        HirExprKind::Unary { .. } => "Unary"@,
        HirExprKind::Cast { .. } => "Cast"@,
        HirExprKind::Index { .. } => "Index"@,
        HirExprKind::LackSlice(_) => "LackSlice"@,
    }
}

fn debug_hir_kind(k: &HirExprKind) -> (r: String)
    ensures
        r@ == hir_kind_debug(*k),
{
    let s = match k {
        HirExprKind::Literal(_) => "Literal",
        HirExprKind::Ident(_) => "Ident",
        HirExprKind::Sym(_) => "Sym",
        HirExprKind::BinaryOp { .. } => "BinaryOp",
        HirExprKind::Call { .. } => "Call",
        HirExprKind::Block(_) => "Block",
        HirExprKind::StructInit { .. } => "StructInit",
        HirExprKind::FieldAccess { .. } => "FieldAccess",
        HirExprKind::Range { .. } => "Range",
        HirExprKind::EnumVariantAccess { .. } => "EnumVariantAccess",
        HirExprKind::EnumVariantConstruction { .. } => "EnumVariantConstruction",
        HirExprKind::Match { .. } => "Match",
        HirExprKind::Closure { .. } => "Closure",
        HirExprKind::If { .. } => "If",
        HirExprKind::ArrayLiteral(_) => "ArrayLiteral",
        HirExprKind::UnsafeBlock { .. } => "UnsafeBlock",
        HirExprKind::Unary { .. } => "Unary",
        HirExprKind::Cast { .. } => "Cast",
        HirExprKind::Index { .. } => "Index",
        HirExprKind::LackSlice(_) => "LackSlice",
    };
    String::from_str(s)
}

// ===== error texts =====

pub open spec fn undefined_variable_text(name: Seq<char>) -> Seq<char> {
    "undefined variable `"@ + name + "`"@
}

fn undefined_variable(name: &str) -> (r: String)
    ensures
        r@ == undefined_variable_text(name@),
{
    let mut m = String::from_str("undefined variable `");
    m.append(name);
    m.append("`");
    m
}

pub open spec fn bad_target_text(k: HirExprKind) -> Seq<char> {
    "internal error: "@ + hir_kind_debug(k)
        + " is not a valid assignment target (sema.rs 的 is_assignable 应该已经拦住了这种情况，走到这里说明两边检查不一致)"@
}

pub open spec fn closure_text() -> Seq<char> {
    "MIR lowering for Closure: 捕获变量与闭包结构体生成策略还没设计"@
}

pub open spec fn range_text() -> Seq<char> {
    "MIR lowering for bare Range: Range 目前只应该在 for 循环展开后被消费，独立出现说明 elaborate.rs 该做的展开还没做"@
}

pub open spec fn break_text() -> Seq<char> {
    "MIR lowering for Break: 循环栈还没接上，下一轮跟 Continue 一起做"@
}

pub open spec fn for_text() -> Seq<char> {
    "HirStmt::For 不该走到 mir_builder 这一层——应由 elaborate.rs 先展开成 while，但 elaborate.rs 目前还是空实现"@
}

pub open spec fn receiver_text() -> Seq<char> {
    "method call requires a receiver"@
}

pub open spec fn model_effect_text(func: Seq<char>) -> Seq<char> {
    "error[MD001]: side-effect `"@ + func + "` is not allowed in model block (forward method)"@
}

pub open spec fn unsafe_call_text(func: Seq<char>) -> Seq<char> {
    "call to unsafe intrinsic `"@ + func + "` requires an `unsafe` block or `verify unsafe`"@
}

fn is_never(t: &Type) -> (r: bool)
    ensures
        r == (*t is Never),
{
    match t {
        Type::Never => true,
        _ => false,
    }
}

impl MirBuilder {
    /// Lowers an assignment target to a place.
    fn build_place(&mut self, expr: &HirExpr, shared: &HirProgram) -> (r: Result<MirPlace, String>)
        requires
            old(self).wf(),
            old(self).fits(pcost_expr(*expr)),
        ensures
            r is Ok ==> final(self).wf() && final(self).grows(*old(self)) && final(self).drawn@
                <= old(self).drawn@ + pcost_expr(*expr),
            r matches Ok(p) ==> place_need(p) <= final(self).locals@.len(),
            expr.kind matches HirExprKind::Ident(name) ==> match r {
                Ok(p) => old(self).lookup_spec(name@) matches Some(id) && p == MirPlace::Ssa(
                    SsaLocal { base_id: id, version: old(self).version_of(id) },
                ),
                Err(m) => old(self).lookup_spec(name@) is None && m@ == undefined_variable_text(name@),
            },
            !(expr.kind is Ident || expr.kind is FieldAccess || expr.kind is Index) ==> (r matches Err(
                m,
            ) && m@ == bad_target_text(expr.kind)),
            r is Ok <==> lowers_place(*expr, old(self).bound(), old(self).unsafe_depth > 0, old(self).in_forward, *shared),
            r is Ok ==> final(self).scope@ == old(self).scope@,
            r is Ok && old(self).open_end() ==> final(self).open_end(),
        decreases expr, 1nat,
    {
        match &expr.kind {
            HirExprKind::Ident(name) => {
                match self.lookup(name.as_str()) {
                    Some(id) => Ok(MirPlace::Ssa(self.current_ssa(id))),
                    None => Err(undefined_variable(name.as_str())),
                }
            },
            HirExprKind::FieldAccess { struct_expr, field_name } => {
                let base = match self.build_place(struct_expr, shared) {
                    Ok(p) => p,
                    Err(m) => return Err(m),
                };
                Ok(MirPlace::Field { base: Box::new(base), field: field_name.clone() })
            },
            HirExprKind::Index { expr: base, index } => {
                let base_place = match self.build_place(base, shared) {
                    Ok(p) => p,
                    Err(m) => return Err(m),
                };
                let index_operand = match self.build_expr(index, shared) {
                    Ok(o) => o,
                    Err(m) => return Err(m),
                };
                Ok(MirPlace::Index { base: Box::new(base_place), index: Box::new(index_operand) })
            },
            _ => {
                let mut m = String::from_str("internal error: ");
                let d = debug_hir_kind(&expr.kind);
                m.append(d.as_str());
                m.append(
                    " is not a valid assignment target (sema.rs 的 is_assignable 应该已经拦住了这种情况，走到这里说明两边检查不一致)",
                );
                Err(m)
            },
        }
    }

    /// Lowers an expression to an operand: a literal stays a constant, a
    /// variable is moved out of, anything else is computed into a fresh
    /// temporary.
    fn build_expr(&mut self, expr: &HirExpr, shared: &HirProgram) -> (r: Result<MirOperand, String>)
        requires
            old(self).wf(),
            old(self).fits(mcost_expr(*expr)),
        ensures
            r is Ok ==> final(self).wf() && final(self).grows(*old(self)) && final(self).drawn@
                <= old(self).drawn@ + mcost_expr(*expr),
            r matches Ok(o) ==> operand_need(o) <= final(self).locals@.len(),
            expr.kind matches HirExprKind::Literal(lit) ==> (r matches Ok(MirOperand::Constant(l))
                && crate::ast::literal_same(l, lit) && *final(self) == *old(self)),
            expr.kind matches HirExprKind::Ident(name) ==> match r {
                Ok(o) => old(self).lookup_spec(name@) matches Some(id) && o == MirOperand::Move(
                    MirPlace::Ssa(SsaLocal { base_id: id, version: old(self).version_of(id) }),
                ) && final(self).moved@.contains(
                    SsaLocal { base_id: id, version: old(self).version_of(id) },
                ),
                Err(m) => old(self).lookup_spec(name@) is None && m@ == undefined_variable_text(name@),
            },
            r is Ok <==> lowers_expr(*expr, old(self).bound(), old(self).unsafe_depth > 0, old(self).in_forward, *shared),
            r is Ok ==> final(self).scope@ == old(self).scope@,
            r matches Ok(o) ==> old(self).operand_from(
                *expr,
                o,
                old(self).locals@.len() as nat,
                final(self).locals@.len() as nat,
            ),
            r is Ok && old(self).open_end() ==> final(self).open_end(),
            r matches Ok(o) ==> tail_operand(
                *expr,
                o,
                final(self).blocks@[final(self).current_block as int],
                final(self).locals@,
            ),
            r is Ok && flat_expr(*expr) ==> final(self).current_block == old(self).current_block,
        decreases expr, 3nat,
    {
        if let HirExprKind::Literal(lit) = &expr.kind {
            return Ok(MirOperand::Constant(lit.duplicate()));
        }
        if let HirExprKind::Ident(name) = &expr.kind {
            let id = match self.lookup(name.as_str()) {
                Some(id) => id,
                None => return Err(undefined_variable(name.as_str())),
            };
            let ssa = self.current_ssa(id);
            self.mark_moved(ssa);
            return Ok(MirOperand::Move(MirPlace::Ssa(ssa)));
        }
        let rvalue = match self.build_expr_rvalue(expr, shared) {
            Ok(v) => v,
            Err(m) => return Err(m),
        };
        let ghost nl1 = self.locals@.len();
        assert(rvalue_lowered(*expr, Ok(rvalue)));
        match rvalue {
            MirRvalue::Use(operand) => Ok(operand),
            other => {
                let temp = self.new_temp(expr.ty.duplicate());
                let version = self.new_version(temp);
                let dest = MirPlace::Ssa(SsaLocal { base_id: temp, version });
                proof {
                    lemma_rvalue_ok_grow_nl(other, nl1, *self);
                }
                let ghost c = self.current_block as int;
                let ghost k = self.blocks@[c].stmts@.len() as int;
                let ghost st = MirStmt::Assign { dest, value: other };
                self.push_stmt(MirStmt::Assign { dest, value: other });
                assert(self.blocks@[c].stmts@[k] == st);
                assert(block_holds(self.blocks@[c], st));
                Ok(MirOperand::Move(MirPlace::Ssa(SsaLocal { base_id: temp, version })))
            },
        }
    }

    /// Lowers the arguments `args[from..]` of a call, in order.
    fn build_call_args(&mut self, args: &Vec<HirCallArg>, from: usize, shared: &HirProgram) -> (r: Result<
        Vec<MirOperand>,
        String,
    >)
        requires
            old(self).wf(),
            old(self).fits(mcost_args(args@, from as int)),
        ensures
            r is Ok ==> final(self).wf() && final(self).grows(*old(self)) && final(self).drawn@
                <= old(self).drawn@ + mcost_args(args@, from as int),
            r matches Ok(v) ==> operands_ok(v@, final(self).locals@.len()),
            r matches Ok(v) ==> from <= args@.len() ==> v@.len() == args@.len() - from,
            r is Ok <==> lowers_args(args@, from as int, old(self).bound(), old(self).unsafe_depth > 0, old(self).in_forward, *shared),
            r is Ok ==> final(self).scope@ == old(self).scope@,
            r matches Ok(v) ==> old(self).args_from(
                args@,
                from as int,
                v@,
                old(self).locals@.len() as nat,
                final(self).locals@.len() as nat,
            ),
            r is Ok && old(self).open_end() ==> final(self).open_end(),
            r is Ok && flat_args(args@) ==> final(self).current_block == old(self).current_block,
        decreases args, 0nat,
    {
        let mut out: Vec<MirOperand> = Vec::new();
        let mut i: usize = from;
        while i < args.len()
            invariant
                self.wf(),
                self.grows(*old(self)),
                i >= from,
                from <= args@.len() ==> i <= args@.len(),
                self.drawn@ + mcost_args(args@, i as int) <= old(self).drawn@ + mcost_args(
                    args@,
                    from as int,
                ),
                self.unsafe_depth + mcost_args(args@, i as int) <= u32::MAX,
                old(self).drawn@ + mcost_args(args@, from as int) <= u32::MAX,
                operands_ok(out@, self.locals@.len()),
                i <= args@.len() ==> out@.len() == i - from,
                self.scope@ == old(self).scope@,
                self.unsafe_depth == old(self).unsafe_depth,
                self.in_forward == old(self).in_forward,
                old(self).open_end() ==> self.open_end(),
                from <= i,
                lowers_args(args@, from as int, old(self).bound(), old(self).unsafe_depth > 0, old(self).in_forward, *shared) == lowers_args(args@, i as int, old(self).bound(), old(self).unsafe_depth > 0, old(self).in_forward, *shared),
                old(self).args_from(args@, from as int, out@, old(self).locals@.len() as nat, self.locals@.len() as nat),
                flat_args(args@) ==> self.current_block == old(self).current_block,
            decreases args.len() - i,
        {
            proof {
                assert(decreases_to!(args => args@));
                assert(decreases_to!(args@ => args@[i as int]));
            }
            let ghost before = *self;
            assert(flat_args(args@) ==> flat_arg(args@[i as int]));
            let o = match self.build_call_arg(&args[i], shared) {
                Ok(o) => o,
                Err(m) => return Err(m),
            };
            proof {
                lemma_grows_trans(*self, before, *old(self));
            }
            let ghost out0 = out@;
            out.push(o);
            proof {
                assert forall|k: int| 0 <= k < out@.len() implies old(self).operand_from(
                    arg_expr(args@[from + k]),
                    #[trigger] out@[k],
                    old(self).locals@.len() as nat,
                    self.locals@.len() as nat,
                ) by {
                    if k < out0.len() {
                        assert(out@[k] == out0[k]);
                        lemma_operand_widen(*old(self), *old(self), arg_expr(args@[from + k]), out0[k],
                            old(self).locals@.len() as nat, before.locals@.len() as nat,
                            old(self).locals@.len() as nat, self.locals@.len() as nat);
                    } else {
                        assert(from + k == i);
                        lemma_operand_widen(before, *old(self), arg_expr(args@[i as int]), o,
                            before.locals@.len() as nat, self.locals@.len() as nat,
                            old(self).locals@.len() as nat, self.locals@.len() as nat);
                    }
                }
            }
            i += 1;
        }
        Ok(out)
    }
}

proof fn lemma_rvalue_ok_grow_nl(v: MirRvalue, nl: nat, b: MirBuilder)
    requires
        rvalue_ok(v, nl, b.blocks@.len()),
        nl <= b.locals@.len(),
    ensures
        rvalue_ok(v, b.locals@.len(), b.blocks@.len()),
{
    crate::mir::lemma_rvalue_ok_grow(v, nl, b.blocks@.len(), b.locals@.len(), b.blocks@.len());
}

proof fn lemma_operand_widen(b1: MirBuilder, b2: MirBuilder, e: HirExpr, o: MirOperand, lo1: nat, hi1: nat, lo2: nat, hi2: nat)
    requires
        b1.operand_from(e, o, lo1, hi1),
        b1.scope@ == b2.scope@,
        lo2 <= lo1,
        hi1 <= hi2,
    ensures
        b2.operand_from(e, o, lo2, hi2),
{
}

proof fn lemma_grows_trans(c: MirBuilder, b: MirBuilder, a: MirBuilder)
    requires
        c.grows(b),
        b.grows(a),
    ensures
        c.grows(a),
{
    assert forall|i: int| 0 <= i < a.locals@.len() implies #[trigger] c.locals@[i] == a.locals@[i] by {
        assert(c.locals@[i] == b.locals@[i]);
    }
}


impl MirBuilder {
    /// Lowers an expression to a right-hand side, leaving where it goes to
    /// the caller.
    #[verifier::rlimit(100)]
    fn build_expr_rvalue(&mut self, expr: &HirExpr, shared: &HirProgram) -> (r: Result<MirRvalue, String>)
        requires
            old(self).wf(),
            old(self).fits(rcost_expr(*expr)),
        ensures
            r is Ok ==> final(self).wf() && final(self).grows(*old(self)) && final(self).drawn@
                <= old(self).drawn@ + rcost_expr(*expr),
            r matches Ok(v) ==> rvalue_ok(v, final(self).locals@.len(), final(self).blocks@.len()),
            rvalue_lowered(*expr, r),
            call_lowered(*expr, shared.enums@, old(self).in_forward, old(self).unsafe_depth, r),
            expr.kind matches HirExprKind::Ident(name) ==> match r {
                Ok(v) => old(self).lookup_spec(name@) matches Some(id) && v == MirRvalue::Use(
                    MirOperand::Move(MirPlace::Ssa(SsaLocal { base_id: id, version: old(self).version_of(id) })),
                ),
                Err(m) => old(self).lookup_spec(name@) is None && m@ == undefined_variable_text(name@),
            },
            r is Ok <==> lowers_expr(*expr, old(self).bound(), old(self).unsafe_depth > 0, old(self).in_forward, *shared),
            r is Ok ==> final(self).scope@ == old(self).scope@,
            r matches Ok(v) ==> (expr.kind is If ==> (v matches MirRvalue::Use(MirOperand::Move(MirPlace::Ssa(x))) && old(
                self,
            ).locals@.len() <= x.base_id < final(self).locals@.len())),
            r matches Ok(v) ==> old(self).operands_from(
                *expr,
                v,
                old(self).locals@.len() as nat,
                final(self).locals@.len() as nat,
            ),
            r is Ok && old(self).open_end() ==> final(self).open_end(),
            r is Ok && flat_expr(*expr) ==> final(self).current_block == old(self).current_block,
        decreases expr, 2nat,
    {
        match &expr.kind {
            HirExprKind::Literal(lit) => Ok(MirRvalue::Use(MirOperand::Constant(lit.duplicate()))),
            HirExprKind::Ident(name) => {
                let id = match self.lookup(name.as_str()) {
                    Some(id) => id,
                    None => return Err(undefined_variable(name.as_str())),
                };
                let ssa = self.current_ssa(id);
                self.mark_moved(ssa);
                Ok(MirRvalue::Use(MirOperand::Move(MirPlace::Ssa(ssa))))
            },
            HirExprKind::Sym(name) => Ok(
                MirRvalue::Use(MirOperand::Move(MirPlace::Static(name.clone()))),
            ),
            HirExprKind::BinaryOp { op, left, right } => {
                let l = match self.build_expr(left, shared) {
                    Ok(o) => o,
                    Err(m) => return Err(m),
                };
                let ghost mid = *self;
                let r = match self.build_expr(right, shared) {
                    Ok(o) => o,
                    Err(m) => return Err(m),
                };
                proof {
                    lemma_grows_trans(*self, mid, *old(self));
                }
                Ok(MirRvalue::BinaryOp(*op, l, r))
            },
            HirExprKind::Unary { op, expr: inner } => {
                let operand = match self.build_expr(inner, shared) {
                    Ok(o) => o,
                    Err(m) => return Err(m),
                };
                Ok(MirRvalue::UnaryOp(*op, operand))
            },
            HirExprKind::Cast { expr: inner, ty } => {
                let operand = match self.build_expr(inner, shared) {
                    Ok(o) => o,
                    Err(m) => return Err(m),
                };
                Ok(MirRvalue::Cast(operand, ty.duplicate()))
            },
            HirExprKind::FieldAccess { .. } | HirExprKind::Index { .. } => {
                let place = match self.build_place(expr, shared) {
                    Ok(p) => p,
                    Err(m) => return Err(m),
                };
                Ok(MirRvalue::Use(MirOperand::Move(place)))
            },
            HirExprKind::Call { .. } => self.build_call(expr, shared),
            HirExprKind::EnumVariantConstruction { enum_name, generic_args, variant_name, args } => {
                let mir_args = match self.build_call_args(args, 0, shared) {
                    Ok(v) => v,
                    Err(m) => return Err(m),
                };
                Ok(
                    MirRvalue::EnumVariantConstruction {
                        enum_name: enum_name.clone(),
                        generic_args: crate::ast::duplicate_types(generic_args),
                        variant_name: variant_name.clone(),
                        args: mir_args,
                    },
                )
            },
            HirExprKind::EnumVariantAccess { enum_name, variant_name } => Ok(
                MirRvalue::EnumVariantConstruction {
                    enum_name: enum_name.clone(),
                    generic_args: Vec::new(),
                    variant_name: variant_name.clone(),
                    args: Vec::new(),
                },
            ),
            HirExprKind::StructInit { struct_name, generic_args, fields } => {
                let mir_fields = match self.build_field_operands(fields, shared) {
                    Ok(v) => v,
                    Err(m) => return Err(m),
                };
                Ok(
                    MirRvalue::StructInit {
                        struct_name: struct_name.clone(),
                        generic_args: crate::ast::duplicate_types(generic_args),
                        fields: mir_fields,
                    },
                )
            },
            HirExprKind::ArrayLiteral(elements) => {
                let mir_elements = match self.build_element_operands(elements, shared) {
                    Ok(v) => v,
                    Err(m) => return Err(m),
                };
                Ok(MirRvalue::ArrayLiteral(mir_elements))
            },
            HirExprKind::LackSlice(_) => Ok(MirRvalue::ArrayLiteral(Vec::new())),
            HirExprKind::Block(b) => {
                let last = match self.build_block(b, shared) {
                    Ok(l) => l,
                    Err(m) => return Err(m),
                };
                Ok(
                    MirRvalue::Use(
                        match last {
                            Some(o) => o,
                            None => MirOperand::Constant(Literal::Unit),
                        },
                    ),
                )
            },
            HirExprKind::UnsafeBlock { body, .. } => {
                self.unsafe_depth = self.unsafe_depth + 1;
                self.push_stmt(MirStmt::EffectCheck { effect: String::from_str("unsafe") });
                let last = match self.build_block(body, shared) {
                    Ok(l) => l,
                    Err(m) => return Err(m),
                };
                self.unsafe_depth = self.unsafe_depth - 1;
                Ok(
                    MirRvalue::Use(
                        match last {
                            Some(o) => o,
                            None => MirOperand::Constant(Literal::Unit),
                        },
                    ),
                )
            },
            HirExprKind::If { .. } => self.build_if(expr, shared),
            HirExprKind::Match { .. } => self.build_match(expr, shared),
            HirExprKind::Closure { .. } => Err(
                String::from_str("MIR lowering for Closure: 捕获变量与闭包结构体生成策略还没设计"),
            ),
            HirExprKind::Range { .. } => Err(
                String::from_str(
                    "MIR lowering for bare Range: Range 目前只应该在 for 循环展开后被消费，独立出现说明 elaborate.rs 该做的展开还没做",
                ),
            ),
        }
    }

    /// Lowers the values of a struct literal's fields, in order.
    fn build_field_operands(&mut self, fields: &Vec<(String, HirExpr)>, shared: &HirProgram) -> (r: Result<
        Vec<(String, MirOperand)>,
        String,
    >)
        requires
            old(self).wf(),
            old(self).fits(mcost_fields(fields@, 0)),
        ensures
            r is Ok ==> final(self).wf() && final(self).grows(*old(self)) && final(self).drawn@
                <= old(self).drawn@ + mcost_fields(fields@, 0),
            r matches Ok(v) ==> v@.len() == fields@.len() && forall|k: int|
                0 <= k < v@.len() ==> operand_need((#[trigger] v@[k]).1) <= final(self).locals@.len()
                    && v@[k].0@ == fields@[k].0@,
            r is Ok <==> lowers_fields(fields@, 0, old(self).bound(), old(self).unsafe_depth > 0, old(self).in_forward, *shared),
            r is Ok ==> final(self).scope@ == old(self).scope@,
            r is Ok && old(self).open_end() ==> final(self).open_end(),
        decreases fields, 0nat,
    {
        let mut out: Vec<(String, MirOperand)> = Vec::new();
        let mut i: usize = 0;
        while i < fields.len()
            invariant
                self.wf(),
                self.grows(*old(self)),
                i <= fields@.len(),
                self.drawn@ + mcost_fields(fields@, i as int) <= old(self).drawn@ + mcost_fields(
                    fields@,
                    0,
                ),
                self.unsafe_depth + mcost_fields(fields@, i as int) <= u32::MAX,
                old(self).drawn@ + mcost_fields(fields@, 0) <= u32::MAX,
                out@.len() == i,
                forall|k: int|
                    0 <= k < i ==> operand_need((#[trigger] out@[k]).1) <= self.locals@.len()
                        && out@[k].0@ == fields@[k].0@,
                self.scope@ == old(self).scope@,
                self.unsafe_depth == old(self).unsafe_depth,
                self.in_forward == old(self).in_forward,
                old(self).open_end() ==> self.open_end(),
                0 <= i,
                lowers_fields(fields@, 0, old(self).bound(), old(self).unsafe_depth > 0, old(self).in_forward, *shared) == lowers_fields(fields@, i as int, old(self).bound(), old(self).unsafe_depth > 0, old(self).in_forward, *shared),
            decreases fields.len() - i,
        {
            proof {
                assert(decreases_to!(fields => fields@));
                assert(decreases_to!(fields@ => fields@[i as int]));
            }
            let ghost before = *self;
            let o = match self.build_expr(&fields[i].1, shared) {
                Ok(o) => o,
                Err(m) => return Err(m),
            };
            proof {
                lemma_grows_trans(*self, before, *old(self));
            }
            out.push((fields[i].0.clone(), o));
            i += 1;
        }
        Ok(out)
    }

    /// Lowers the elements of an array literal, in order.
    fn build_element_operands(&mut self, elements: &Vec<HirExpr>, shared: &HirProgram) -> (r: Result<
        Vec<MirOperand>,
        String,
    >)
        requires
            old(self).wf(),
            old(self).fits(mcost_exprs(elements@, 0)),
        ensures
            r is Ok ==> final(self).wf() && final(self).grows(*old(self)) && final(self).drawn@
                <= old(self).drawn@ + mcost_exprs(elements@, 0),
            r matches Ok(v) ==> v@.len() == elements@.len() && operands_ok(
                v@,
                final(self).locals@.len(),
            ),
            r is Ok <==> lowers_exprs(elements@, 0, old(self).bound(), old(self).unsafe_depth > 0, old(self).in_forward, *shared),
            r is Ok ==> final(self).scope@ == old(self).scope@,
            r is Ok && old(self).open_end() ==> final(self).open_end(),
        decreases elements, 0nat,
    {
        let mut out: Vec<MirOperand> = Vec::new();
        let mut i: usize = 0;
        while i < elements.len()
            invariant
                self.wf(),
                self.grows(*old(self)),
                i <= elements@.len(),
                self.drawn@ + mcost_exprs(elements@, i as int) <= old(self).drawn@ + mcost_exprs(
                    elements@,
                    0,
                ),
                self.unsafe_depth + mcost_exprs(elements@, i as int) <= u32::MAX,
                old(self).drawn@ + mcost_exprs(elements@, 0) <= u32::MAX,
                out@.len() == i,
                operands_ok(out@, self.locals@.len()),
                self.scope@ == old(self).scope@,
                self.unsafe_depth == old(self).unsafe_depth,
                self.in_forward == old(self).in_forward,
                old(self).open_end() ==> self.open_end(),
                0 <= i,
                lowers_exprs(elements@, 0, old(self).bound(), old(self).unsafe_depth > 0, old(self).in_forward, *shared) == lowers_exprs(elements@, i as int, old(self).bound(), old(self).unsafe_depth > 0, old(self).in_forward, *shared),
            decreases elements.len() - i,
        {
            proof {
                assert(decreases_to!(elements => elements@));
                assert(decreases_to!(elements@ => elements@[i as int]));
            }
            let ghost before = *self;
            let o = match self.build_expr(&elements[i], shared) {
                Ok(o) => o,
                Err(m) => return Err(m),
            };
            proof {
                lemma_grows_trans(*self, before, *old(self));
            }
            out.push(o);
            i += 1;
        }
        Ok(out)
    }
}


impl MirBuilder {
    /// Lowers a call: a bare variant of a unique enum constructs it, a method
    /// call takes its first argument as the receiver, a built-in constant is
    /// read as a static, a built-in function is checked against the model
    /// and `unsafe` rules.
    #[verifier::rlimit(50)]
    fn build_call(&mut self, expr: &HirExpr, shared: &HirProgram) -> (r: Result<MirRvalue, String>)
        requires
            old(self).wf(),
            old(self).fits(rcost_expr(*expr)),
            expr.kind is Call,
        ensures
            r is Ok ==> final(self).wf() && final(self).grows(*old(self)) && final(self).drawn@
                <= old(self).drawn@ + rcost_expr(*expr),
            r matches Ok(v) ==> rvalue_ok(v, final(self).locals@.len(), final(self).blocks@.len()),
            call_lowered(*expr, shared.enums@, old(self).in_forward, old(self).unsafe_depth, r),
            r is Ok <==> lowers_expr(*expr, old(self).bound(), old(self).unsafe_depth > 0, old(self).in_forward, *shared),
            r is Ok ==> final(self).scope@ == old(self).scope@,
            r matches Ok(v) ==> old(self).operands_from(
                *expr,
                v,
                old(self).locals@.len() as nat,
                final(self).locals@.len() as nat,
            ),
            r is Ok && old(self).open_end() ==> final(self).open_end(),
            r is Ok && flat_expr(*expr) ==> final(self).current_block == old(self).current_block,
        decreases expr, 1nat,
    {
        match &expr.kind {
            HirExprKind::Call { qualifier, func, generic_args, args, is_method } => {
                if qualifier.is_none() && !*is_method {
                    if let Some(enum_name) = owner_of_variant(shared, func.as_str()) {
                        let mir_args = match self.build_call_args(args, 0, shared) {
                            Ok(v) => v,
                            Err(m) => return Err(m),
                        };
                        return Ok(
                            MirRvalue::EnumVariantConstruction {
                                enum_name,
                                generic_args: crate::ast::duplicate_types(generic_args),
                                variant_name: func.clone(),
                                args: mir_args,
                            },
                        );
                    }
                }
                if *is_method {
                    if args.len() == 0 {
                        return Err(String::from_str("method call requires a receiver"));
                    }
                    proof {
                        assert(decreases_to!(args => args@));
                        assert(decreases_to!(args@ => args@[0]));
                    }
                    proof {
                        assert(lowers_args(args@, 0, old(self).bound(), old(self).unsafe_depth > 0, old(self).in_forward, *shared) == (lowers_expr(arg_expr(args@[0]), old(self).bound(), old(self).unsafe_depth > 0, old(self).in_forward, *shared)
                            && lowers_args(args@, 1, old(self).bound(), old(self).unsafe_depth > 0, old(self).in_forward, *shared)));
                    }
                    assert(flat_expr(*expr) ==> flat_kind(expr.kind));
                    assert(flat_kind(expr.kind) ==> flat_args(args@));
                    assert(flat_args(args@) ==> flat_arg(args@[0]));
                    let receiver = match self.build_call_arg(&args[0], shared) {
                        Ok(o) => o,
                        Err(m) => return Err(m),
                    };
                    let ghost mid = *self;
                    let mir_args = match self.build_call_args(args, 1, shared) {
                        Ok(v) => v,
                        Err(m) => return Err(m),
                    };
                    proof {
                        lemma_grows_trans(*self, mid, *old(self));
                    }
                    return Ok(
                        MirRvalue::MethodCall {
                            receiver,
                            method: func.clone(),
                            args: mir_args,
                            generic_args: crate::ast::duplicate_types(generic_args),
                        },
                    );
                }
                if qualifier.is_none() && args.len() == 0 {
                    if let Some(name) = IntrinsicConst::from_str(func.as_str()) {
                        if let Some(constant) = get_constant(name) {
                            proof {
                                assert(crate::intrinsic::const_name(name) == func@);
                                assert(const_named(func@));
                                assert(call_allowed(*qualifier, func@, args@.len(), *is_method, old(self).unsafe_depth > 0, old(self).in_forward, shared.enums@));
                                assert(lowers_args(args@, 0, old(self).bound(), old(self).unsafe_depth > 0, old(self).in_forward, *shared));
                            }
                            return Ok(
                                MirRvalue::Use(
                                    MirOperand::Move(MirPlace::Static(String::from_str(constant.name))),
                                ),
                            );
                        }
                    }
                }
                let mut is_intrinsic = false;
                let mut intrinsic_name: Option<IntrinsicFn> = None;
                if qualifier.is_none() {
                    if let Some(name) = IntrinsicFn::from_str(func.as_str()) {
                        proof {
                            lemma_fn_named(func@, name);
                        }
                        if let Some(intrinsic) = get_intrinsic(name) {
                            if self.in_forward && !intrinsic.allowed_in_model {
                                let mut m = String::from_str("error[MD001]: side-effect `");
                                m.append(func.as_str());
                                m.append("` is not allowed in model block (forward method)");
                                return Err(m);
                            }
                            if intrinsic.requires_unsafe && self.unsafe_depth == 0 {
                                let mut m = String::from_str("call to unsafe intrinsic `");
                                m.append(func.as_str());
                                m.append("` requires an `unsafe` block or `verify unsafe`");
                                return Err(m);
                            }
                            is_intrinsic = true;
                            intrinsic_name = Some(name);
                        }
                    }
                }
                let full_name = match qualifier {
                    Some(q) => {
                        let mut n = q.clone();
                        n.append("::");
                        n.append(func.as_str());
                        n
                    },
                    None => func.clone(),
                };
                let mir_args = match self.build_call_args(args, 0, shared) {
                    Ok(v) => v,
                    Err(m) => return Err(m),
                };
                Ok(
                    MirRvalue::Call {
                        func: full_name,
                        args: mir_args,
                        is_intrinsic,
                        intrinsic_name,
                        generic_args: crate::ast::duplicate_types(generic_args),
                    },
                )
            },
            _ => Err(String::new()),
        }
    }

    /// Lowers an `if`: the branches write versions of one temporary, joined
    /// by a phi in the block after them; a branch that never returns ends
    /// in `Unreachable` and writes nothing.
    #[verifier::rlimit(50)]
    fn build_if(&mut self, expr: &HirExpr, shared: &HirProgram) -> (r: Result<MirRvalue, String>)
        requires
            old(self).wf(),
            old(self).fits(rcost_expr(*expr)),
            expr.kind is If,
        ensures
            r is Ok ==> final(self).wf() && final(self).grows(*old(self)) && final(self).drawn@
                <= old(self).drawn@ + rcost_expr(*expr),
            r matches Ok(v) ==> rvalue_ok(v, final(self).locals@.len(), final(self).blocks@.len()),
            r is Ok <==> lowers_expr(*expr, old(self).bound(), old(self).unsafe_depth > 0, old(self).in_forward, *shared),
            r is Ok ==> final(self).scope@ == old(self).scope@,
            r matches Ok(v) ==> (v matches MirRvalue::Use(MirOperand::Move(MirPlace::Ssa(x))) && old(
                self,
            ).locals@.len() <= x.base_id < final(self).locals@.len()),
            r is Ok && old(self).open_end() ==> final(self).open_end(),
        decreases expr, 1nat,
    {
        match &expr.kind {
            HirExprKind::If { cond, then_expr, else_expr, .. } => {
                let cond_operand = match self.build_expr(cond, shared) {
                    Ok(o) => o,
                    Err(m) => return Err(m),
                };
                let ghost s1 = *self;
                let then_block = self.new_block();
                let else_block = self.new_block();
                let end_block = self.new_block();
                self.set_terminator(MirTerminator::If { cond: cond_operand, then_block, else_block });
                let dest_base = self.new_temp(expr.ty.duplicate());
                let ghost s2 = *self;
                proof {
                    lemma_grows_trans(s2, s1, *old(self));
                }
                let mut then_info: Option<(usize, SsaLocal)> = None;
                let mut else_info: Option<(usize, SsaLocal)> = None;

                self.switch_to_block(then_block);
                let then_diverges = is_never(&then_expr.ty);
                let then_operand = match self.build_expr(then_expr, shared) {
                    Ok(o) => o,
                    Err(m) => return Err(m),
                };
                proof {
                    lemma_grows_trans(*self, s2, *old(self));
                }
                if then_diverges {
                    self.set_terminator(MirTerminator::Unreachable);
                } else {
                    let then_ver = self.new_version(dest_base);
                    let then_ssa = SsaLocal { base_id: dest_base, version: then_ver };
                    self.push_stmt(
                        MirStmt::Assign {
                            dest: MirPlace::Ssa(then_ssa),
                            value: MirRvalue::Use(then_operand),
                        },
                    );
                    then_info = Some((then_block, then_ssa));
                    if self.current_terminator_is_placeholder() {
                        self.set_terminator(MirTerminator::Goto(end_block));
                    }
                }
                let ghost s3 = *self;
                proof {
                    lemma_grows_trans(s3, s2, *old(self));
                }

                self.switch_to_block(else_block);
                match else_expr {
                    Some(e) => {
                        let else_diverges = is_never(&e.ty);
                        let else_operand = match self.build_expr(e, shared) {
                            Ok(o) => o,
                            Err(m) => return Err(m),
                        };
                        proof {
                            lemma_grows_trans(*self, s3, *old(self));
                        }
                        if else_diverges {
                            self.set_terminator(MirTerminator::Unreachable);
                        } else {
                            let else_ver = self.new_version(dest_base);
                            let else_ssa = SsaLocal { base_id: dest_base, version: else_ver };
                            self.push_stmt(
                                MirStmt::Assign {
                                    dest: MirPlace::Ssa(else_ssa),
                                    value: MirRvalue::Use(else_operand),
                                },
                            );
                            else_info = Some((else_block, else_ssa));
                            if self.current_terminator_is_placeholder() {
                                self.set_terminator(MirTerminator::Goto(end_block));
                            }
                        }
                    },
                    None => {
                        let else_ver = self.new_version(dest_base);
                        let else_ssa = SsaLocal { base_id: dest_base, version: else_ver };
                        self.push_stmt(
                            MirStmt::Assign {
                                dest: MirPlace::Ssa(else_ssa),
                                value: MirRvalue::Use(MirOperand::Constant(Literal::Unit)),
                            },
                        );
                        else_info = Some((else_block, else_ssa));
                        if self.current_terminator_is_placeholder() {
                            self.set_terminator(MirTerminator::Goto(end_block));
                        }
                    },
                }
                let ghost s4 = *self;
                proof {
                    lemma_grows_trans(s4, s3, *old(self));
                }

                self.switch_to_block(end_block);
                self.set_terminator(MirTerminator::Unreachable);
                let mut phi_values: Vec<(usize, MirOperand)> = Vec::new();
                if let Some((block, ssa)) = then_info {
                    phi_values.push((block, MirOperand::Move(MirPlace::Ssa(ssa))));
                }
                if let Some((block, ssa)) = else_info {
                    phi_values.push((block, MirOperand::Move(MirPlace::Ssa(ssa))));
                }
                let phi_ver = self.new_version(dest_base);
                let phi_ssa = SsaLocal { base_id: dest_base, version: phi_ver };
                self.push_stmt(
                    MirStmt::Assign {
                        dest: MirPlace::Ssa(phi_ssa),
                        value: MirRvalue::Phi { values: phi_values },
                    },
                );
                Ok(MirRvalue::Use(MirOperand::Move(MirPlace::Ssa(phi_ssa))))
            },
            _ => Err(String::new()),
        }
    }
}


/// The match arms of a `match` expression.
pub open spec fn arms_of(e: HirExpr) -> Seq<HirMatchArm> {
    match e.kind {
        HirExprKind::Match { arms, .. } => arms@,
        _ => Seq::empty(),
    }
}

/// The type of the value a `match` expression matches on.
pub open spec fn cond_ty(e: HirExpr) -> Type {
    match e.kind {
        HirExprKind::Match { cond, .. } => cond.ty,
        _ => Type::Unit,
    }
}

fn push_count(m: &mut String, n: usize)
    ensures
        final(m)@ == old(m)@ + crate::text::decimal_text(n as nat),
{
    crate::text::push_decimal(m, n);
}

impl MirBuilder {
    /// Lowers a `match`: the condition is evaluated once into a temporary,
    /// then destructured (struct, tuple, array) or switched on (enum,
    /// scalar).
    fn build_match(&mut self, expr: &HirExpr, shared: &HirProgram) -> (r: Result<MirRvalue, String>)
        requires
            old(self).wf(),
            old(self).fits(rcost_expr(*expr)),
            expr.kind is Match,
        ensures
            r is Ok ==> final(self).wf() && final(self).grows(*old(self)) && final(self).drawn@
                <= old(self).drawn@ + rcost_expr(*expr),
            r matches Ok(v) ==> rvalue_ok(v, final(self).locals@.len(), final(self).blocks@.len()),
            r is Ok <==> lowers_expr(*expr, old(self).bound(), old(self).unsafe_depth > 0, old(self).in_forward, *shared),
            r is Ok ==> final(self).scope@ == old(self).scope@,
            r is Ok && old(self).open_end() ==> final(self).open_end(),
        decreases expr, 1nat,
    {
        match &expr.kind {
            HirExprKind::Match { cond, arms } => {
                let cond_op = match self.build_expr(cond, shared) {
                    Ok(o) => o,
                    Err(m) => return Err(m),
                };
                let ghost s1 = *self;
                let cond_temp = self.new_temp(cond.ty.duplicate());
                let v = self.new_version(cond_temp);
                let cond_ssa = SsaLocal { base_id: cond_temp, version: v };
                self.push_stmt(
                    MirStmt::Assign { dest: MirPlace::Ssa(cond_ssa), value: MirRvalue::Use(cond_op) },
                );
                let ghost s2 = *self;
                proof {
                    lemma_grows_trans(s2, s1, *old(self));
                    assert(arms_of(*expr) == arms@);
                    assert(cond_ty(*expr) == cond.ty);
                    assert(s2.bound() == old(self).bound());
                }
                let res = match &cond.ty {
                    Type::Struct(struct_name) => self.match_struct(expr, struct_name, cond_temp, shared),
                    Type::Tuple(elem_tys) => self.match_tuple(expr, elem_tys, cond_temp, shared),
                    Type::Array(elem_ty, _) => self.match_array(expr, elem_ty, cond_temp, shared),
                    Type::Enum(enum_name) => self.match_enum(expr, enum_name, cond_temp, shared),
                    _ => self.match_scalar(expr, cond_temp, shared),
                };
                proof {
                    if res is Ok {
                        lemma_grows_trans(*self, s2, *old(self));
                    }
                    assert(lowers_expr(*expr, old(self).bound(), old(self).unsafe_depth > 0, old(self).in_forward, *shared) == (lowers_expr(**cond, old(self).bound(), old(self).unsafe_depth > 0, old(self).in_forward, *shared) && lowers_arms(cond.ty, arms@, old(self).bound(), old(self).unsafe_depth > 0, old(self).in_forward, *shared)));
                }
                res
            },
            _ => Err(String::new()),
        }
    }

    /// A `match` on a struct: its one arm binds the named fields.
    fn match_struct(&mut self, expr: &HirExpr, struct_name: &String, cond_temp: usize, shared: &HirProgram) -> (r: Result<MirRvalue, String>)
        requires
            old(self).wf(),
            old(self).fits(2 + mcost_arms(arms_of(*expr), 0)),
            expr.kind is Match,
            cond_temp < old(self).locals@.len(),
        ensures
            r is Ok ==> final(self).wf() && final(self).grows(*old(self)) && final(self).drawn@
                <= old(self).drawn@ + 2 + mcost_arms(arms_of(*expr), 0),
            r matches Ok(v) ==> rvalue_ok(v, final(self).locals@.len(), final(self).blocks@.len()),
            r is Ok <==> struct_arms(struct_name@, arms_of(*expr), old(self).bound(), old(self).unsafe_depth > 0, old(self).in_forward, *shared),
            r is Ok ==> final(self).scope@ == old(self).scope@,
            r is Ok && old(self).open_end() ==> final(self).open_end(),
        decreases expr, 0nat,
    {
        match &expr.kind {
            HirExprKind::Match { arms, .. } => {
                if arms.len() != 1 {
                    let mut m = String::from_str("match 条件是结构体类型 `");
                    m.append(struct_name.as_str());
                    m.append("`，结构体不是和类型，不支持多路分支——只能有唯一一条解构 arm，实际有 ");
                    push_count(&mut m, arms.len());
                    m.append(" 条（这本该在 sema 的可达性检查里被拦下）");
                    return Err(m);
                }
                proof {
                    assert(decreases_to!(arms => arms@));
                    assert(decreases_to!(arms@ => arms@[0]));
                }
                let arm = &arms[0];
                self.push_scope();
                let ghost s1 = *self;
                assert(arms@ == arms_of(*expr));
                match &arm.pattern {
                    Pattern::Struct { fields, .. } => {
                        let mut i: usize = 0;
                        while i < fields.len()
                            invariant
                                self.wf(),
                                self.grows(s1),
                                s1.grows(*old(self)) || true,
                                i <= fields@.len(),
                                cond_temp < self.locals@.len(),
                                self.drawn@ + (fields@.len() - i) <= s1.drawn@ + fields@.len(),
                                s1.drawn@ + fields@.len() + mcost_expr(arm.expr) <= u32::MAX,
                                self.scope@.drop_last() == old(self).scope@,
                                self.scope@.len() == old(self).scope@.len() + 1,
                                self.bound() == old(self).bound().union(field_binds(fields@, i as int)),
                                self.unsafe_depth == old(self).unsafe_depth,
                                self.in_forward == old(self).in_forward,
                                old(self).open_end() ==> self.open_end(),
                                arms@ == arms_of(*expr),
                                arms@[0].pattern matches Pattern::Struct { fields: fs, .. } && fs@ == fields@,
                                forall|k: int|
                                    0 <= k < i ==> field_type(shared.structs@, struct_name@, (#[trigger] fields@[k]).0@) is Some,
                            decreases fields.len() - i,
                        {
                            let field_name = &fields[i].0;
                            let binding_name = &fields[i].1;
                            let field_ty = match type_of_field(shared, struct_name.as_str(), field_name.as_str()) {
                                Some(t) => t,
                                None => {
                                    let mut m = String::from_str("struct `");
                                    m.append(struct_name.as_str());
                                    m.append("` has no field `");
                                    m.append(field_name.as_str());
                                    m.append("`");
                                    return Err(m);
                                },
                            };
                            let ghost before = *self;
                            let binding_id = self.new_local(Some(binding_name.clone()), field_ty, false, true);
                            let binding_ver = self.new_version(binding_id);
                            let base = self.current_ssa(cond_temp);
                            assert(place_need(MirPlace::Ssa(base)) == cond_temp + 1);
                            self.push_stmt(
                                MirStmt::Assign {
                                    dest: MirPlace::Ssa(SsaLocal { base_id: binding_id, version: binding_ver }),
                                    value: MirRvalue::Use(
                                        MirOperand::Move(
                                            MirPlace::Field {
                                                base: Box::new(MirPlace::Ssa(base)),
                                                field: field_name.clone(),
                                            },
                                        ),
                                    ),
                                },
                            );
                            self.bind(binding_name.clone(), binding_id);
                            let moved_now = self.current_ssa(cond_temp);
                            self.mark_moved(moved_now);
                            proof {
                                lemma_grows_trans(*self, before, s1);
                            }
                            proof {
                                assert(old(self).bound().union(field_binds(fields@, i + 1)) =~= old(self).bound().union(field_binds(fields@, i as int)).insert(fields@[i as int].1@));
                            }
                            i += 1;
                        }
                    },
                    Pattern::Wildcard => {},
                    other => {
                        let mut m = String::from_str("match 条件是结构体类型 `");
                        m.append(struct_name.as_str());
                        m.append("`，但这个 arm 的模式是 ");
                        let d = debug_pattern(other);
                        m.append(d.as_str());
                        return Err(m);
                    },
                }
                let ghost s2 = *self;
                proof {
                    assert(self.bound() == match arm.pattern {
                        Pattern::Struct { fields, .. } => old(self).bound().union(field_binds(fields@, fields@.len() as int)),
                        _ => old(self).bound(),
                    });
                }
                let operand = match self.build_expr(&arm.expr, shared) {
                    Ok(o) => o,
                    Err(m) => return Err(m),
                };
                let ghost last = *self;
                self.pop_scope();
                proof {
                    assert(last.scope@.drop_last() == old(self).scope@);
                }
                Ok(MirRvalue::Use(operand))
            },
            _ => Err(String::new()),
        }
    }
}


impl MirBuilder {
    /// A `match` on a tuple: its one arm binds positions by number.
    fn match_tuple(&mut self, expr: &HirExpr, elem_tys: &Vec<Type>, cond_temp: usize, shared: &HirProgram) -> (r: Result<MirRvalue, String>)
        requires
            old(self).wf(),
            old(self).fits(2 + mcost_arms(arms_of(*expr), 0)),
            expr.kind is Match,
            cond_temp < old(self).locals@.len(),
        ensures
            r is Ok ==> final(self).wf() && final(self).grows(*old(self)) && final(self).drawn@
                <= old(self).drawn@ + 2 + mcost_arms(arms_of(*expr), 0),
            r matches Ok(v) ==> rvalue_ok(v, final(self).locals@.len(), final(self).blocks@.len()),
            r is Ok <==> tuple_arms(elem_tys@.len(), arms_of(*expr), old(self).bound(), old(self).unsafe_depth > 0, old(self).in_forward, *shared),
            r is Ok ==> final(self).scope@ == old(self).scope@,
            r is Ok && old(self).open_end() ==> final(self).open_end(),
        decreases expr, 0nat,
    {
        match &expr.kind {
            HirExprKind::Match { arms, .. } => {
                if arms.len() != 1 {
                    let mut m = String::from_str(
                        "match 条件是元组类型，元组不是和类型，不支持多路分支——只能有唯一一条解构 arm，实际有 ",
                    );
                    push_count(&mut m, arms.len());
                    m.append(" 条");
                    return Err(m);
                }
                proof {
                    assert(decreases_to!(arms => arms@));
                    assert(decreases_to!(arms@ => arms@[0]));
                }
                let arm = &arms[0];
                self.push_scope();
                let ghost s1 = *self;
                assert(arms@ == arms_of(*expr));
                match &arm.pattern {
                    Pattern::Tuple(bindings) => {
                        let mut i: usize = 0;
                        while i < bindings.len()
                            invariant
                                self.wf(),
                                self.grows(s1),
                                i <= bindings@.len(),
                                cond_temp < self.locals@.len(),
                                self.drawn@ + (bindings@.len() - i) <= s1.drawn@ + bindings@.len(),
                                s1.drawn@ + bindings@.len() + mcost_expr(arm.expr) <= u32::MAX,
                                self.scope@.drop_last() == old(self).scope@,
                                self.scope@.len() == old(self).scope@.len() + 1,
                                self.bound() == old(self).bound().union(slot_binds(bindings@, i as int)),
                                self.unsafe_depth == old(self).unsafe_depth,
                                self.in_forward == old(self).in_forward,
                                old(self).open_end() ==> self.open_end(),
                                arms@ == arms_of(*expr),
                                arms@[0].pattern matches Pattern::Tuple(bs) && bs@ == bindings@,
                                forall|k: int| 0 <= k < i && (#[trigger] bindings@[k]) is Some ==> k < elem_tys@.len(),
                            decreases bindings.len() - i,
                        {
                            match &bindings[i] {
                                None => {},
                                Some(binding_name) => {
                                    let elem_ty = if i < elem_tys.len() {
                                        elem_tys[i].duplicate()
                                    } else {
                                        return Err(
                                            String::from_str(
                                                "tuple pattern has more bindings than the tuple type has elements",
                                            ),
                                        );
                                    };
                                    let ghost before = *self;
                                    let binding_id = self.new_local(Some(binding_name.clone()), elem_ty, false, true);
                                    let binding_ver = self.new_version(binding_id);
                                    let base = self.current_ssa(cond_temp);
                                    assert(place_need(MirPlace::Ssa(base)) == cond_temp + 1);
                                    let mut field = String::new();
                                    crate::text::push_decimal(&mut field, i);
                                    self.push_stmt(
                                        MirStmt::Assign {
                                            dest: MirPlace::Ssa(SsaLocal { base_id: binding_id, version: binding_ver }),
                                            value: MirRvalue::Use(
                                                MirOperand::Move(
                                                    MirPlace::Field { base: Box::new(MirPlace::Ssa(base)), field },
                                                ),
                                            ),
                                        },
                                    );
                                    self.bind(binding_name.clone(), binding_id);
                                    let moved_now = self.current_ssa(cond_temp);
                                    self.mark_moved(moved_now);
                                    proof {
                                        lemma_grows_trans(*self, before, s1);
                                    }
                                },
                            }
                            proof {
                                assert(self.bound() =~= old(self).bound().union(slot_binds(bindings@, i + 1)));
                            }
                            i += 1;
                        }
                    },
                    Pattern::Wildcard => {},
                    other => {
                        let mut m = String::from_str("match 条件是元组类型，但这个 arm 的模式是 ");
                        let d = debug_pattern(other);
                        m.append(d.as_str());
                        return Err(m);
                    },
                }
                proof {
                    assert(self.bound() == match arm.pattern {
                        Pattern::Tuple(bindings) => old(self).bound().union(slot_binds(bindings@, bindings@.len() as int)),
                        _ => old(self).bound(),
                    });
                }
                let operand = match self.build_expr(&arm.expr, shared) {
                    Ok(o) => o,
                    Err(m) => return Err(m),
                };
                let ghost last = *self;
                self.pop_scope();
                proof {
                    assert(last.scope@.drop_last() == old(self).scope@);
                }
                Ok(MirRvalue::Use(operand))
            },
            _ => Err(String::new()),
        }
    }

    /// A `match` on an array: its one arm binds elements by position.
    fn match_array(&mut self, expr: &HirExpr, elem_ty: &Type, cond_temp: usize, shared: &HirProgram) -> (r: Result<MirRvalue, String>)
        requires
            old(self).wf(),
            old(self).fits(2 + mcost_arms(arms_of(*expr), 0)),
            expr.kind is Match,
            cond_temp < old(self).locals@.len(),
        ensures
            r is Ok ==> final(self).wf() && final(self).grows(*old(self)) && final(self).drawn@
                <= old(self).drawn@ + 2 + mcost_arms(arms_of(*expr), 0),
            r matches Ok(v) ==> rvalue_ok(v, final(self).locals@.len(), final(self).blocks@.len()),
            r is Ok <==> array_arms(arms_of(*expr), old(self).bound(), old(self).unsafe_depth > 0, old(self).in_forward, *shared),
            r is Ok ==> final(self).scope@ == old(self).scope@,
            r is Ok && old(self).open_end() ==> final(self).open_end(),
        decreases expr, 0nat,
    {
        match &expr.kind {
            HirExprKind::Match { arms, .. } => {
                if arms.len() != 1 {
                    let mut m = String::from_str(
                        "match 条件是数组类型，数组不是和类型，不支持多路分支——只能有唯一一条解构 arm，实际有 ",
                    );
                    push_count(&mut m, arms.len());
                    m.append(" 条");
                    return Err(m);
                }
                proof {
                    assert(decreases_to!(arms => arms@));
                    assert(decreases_to!(arms@ => arms@[0]));
                }
                let arm = &arms[0];
                self.push_scope();
                let ghost s1 = *self;
                assert(arms@ == arms_of(*expr));
                match &arm.pattern {
                    Pattern::Array(bindings) => {
                        let mut i: usize = 0;
                        while i < bindings.len()
                            invariant
                                self.wf(),
                                self.grows(s1),
                                i <= bindings@.len(),
                                cond_temp < self.locals@.len(),
                                self.drawn@ + (bindings@.len() - i) <= s1.drawn@ + bindings@.len(),
                                s1.drawn@ + bindings@.len() + mcost_expr(arm.expr) <= u32::MAX,
                                self.scope@.drop_last() == old(self).scope@,
                                self.scope@.len() == old(self).scope@.len() + 1,
                                self.bound() == old(self).bound().union(slot_binds(bindings@, i as int)),
                                self.unsafe_depth == old(self).unsafe_depth,
                                self.in_forward == old(self).in_forward,
                                old(self).open_end() ==> self.open_end(),
                            decreases bindings.len() - i,
                        {
                            match &bindings[i] {
                                None => {},
                                Some(binding_name) => {
                                    let ghost before = *self;
                                    let binding_id = self.new_local(
                                        Some(binding_name.clone()),
                                        elem_ty.duplicate(),
                                        false,
                                        true,
                                    );
                                    let binding_ver = self.new_version(binding_id);
                                    let base = self.current_ssa(cond_temp);
                                    assert(place_need(MirPlace::Ssa(base)) == cond_temp + 1);
                                    assert(operand_need(MirOperand::Constant(Literal::Usize(i))) == 0);
                                    self.push_stmt(
                                        MirStmt::Assign {
                                            dest: MirPlace::Ssa(SsaLocal { base_id: binding_id, version: binding_ver }),
                                            value: MirRvalue::Use(
                                                MirOperand::Move(
                                                    MirPlace::Index {
                                                        base: Box::new(MirPlace::Ssa(base)),
                                                        index: Box::new(MirOperand::Constant(Literal::Usize(i))),
                                                    },
                                                ),
                                            ),
                                        },
                                    );
                                    self.bind(binding_name.clone(), binding_id);
                                    let moved_now = self.current_ssa(cond_temp);
                                    self.mark_moved(moved_now);
                                    proof {
                                        lemma_grows_trans(*self, before, s1);
                                    }
                                },
                            }
                            proof {
                                assert(self.bound() =~= old(self).bound().union(slot_binds(bindings@, i + 1)));
                            }
                            i += 1;
                        }
                    },
                    Pattern::Wildcard => {},
                    other => {
                        let mut m = String::from_str("match 条件是数组类型，但这个 arm 的模式是 ");
                        let d = debug_pattern(other);
                        m.append(d.as_str());
                        return Err(m);
                    },
                }
                proof {
                    assert(self.bound() == match arm.pattern {
                        Pattern::Array(bindings) => old(self).bound().union(slot_binds(bindings@, bindings@.len() as int)),
                        _ => old(self).bound(),
                    });
                }
                let operand = match self.build_expr(&arm.expr, shared) {
                    Ok(o) => o,
                    Err(m) => return Err(m),
                };
                let ghost last = *self;
                self.pop_scope();
                proof {
                    assert(last.scope@.drop_last() == old(self).scope@);
                }
                Ok(MirRvalue::Use(operand))
            },
            _ => Err(String::new()),
        }
    }
}


/// `fin` is `start` after lowering inside a scope opened at `inner` and
/// closed again.
proof fn lemma_grows_through_scope(fin: MirBuilder, last: MirBuilder, inner: MirBuilder, start: MirBuilder)
    requires
        last.grows(inner),
        inner.locals == start.locals,
        inner.blocks@.len() == start.blocks@.len(),
        inner.unsafe_depth == start.unsafe_depth,
        inner.in_forward == start.in_forward,
        inner.drawn == start.drawn,
        inner.issued == start.issued,
        inner.written == start.written,
        fin.locals == last.locals,
        fin.blocks@.len() == last.blocks@.len(),
        fin.scope@.len() == start.scope@.len(),
        fin.unsafe_depth == last.unsafe_depth,
        fin.in_forward == last.in_forward,
        fin.drawn == last.drawn,
        fin.issued == last.issued,
        fin.written == last.written,
    ensures
        fin.grows(start),
{
}

impl MirBuilder {
    /// A `match` on an enum: a switch on the discriminant, one block per
    /// arm, a binding arm reading the variant's payload, and a phi joining
    /// the arms that yield a value.
    #[verifier::rlimit(100)]
    fn match_enum(&mut self, expr: &HirExpr, enum_name: &String, cond_temp: usize, shared: &HirProgram) -> (r: Result<MirRvalue, String>)
        requires
            old(self).wf(),
            old(self).fits(2 + mcost_arms(arms_of(*expr), 0)),
            expr.kind is Match,
            cond_temp < old(self).locals@.len(),
        ensures
            r is Ok ==> final(self).wf() && final(self).grows(*old(self)) && final(self).drawn@
                <= old(self).drawn@ + 2 + mcost_arms(arms_of(*expr), 0),
            r matches Ok(v) ==> rvalue_ok(v, final(self).locals@.len(), final(self).blocks@.len()),
            r is Ok <==> enum_arms(arms_of(*expr), 0, old(self).bound(), old(self).unsafe_depth > 0, old(self).in_forward, *shared),
            r is Ok ==> final(self).scope@ == old(self).scope@,
            r is Ok && old(self).open_end() ==> final(self).open_end(),
        decreases expr, 0nat,
    {
        match &expr.kind {
            HirExprKind::Match { arms, .. } => {
                let ghost budget = old(self).drawn@ + 2 + mcost_arms(arms@, 0);
                let disc_temp = self.new_temp(Type::I64);
                let disc_ver = self.new_version(disc_temp);
                let disc_ssa = SsaLocal { base_id: disc_temp, version: disc_ver };
                let cond_now = self.current_ssa(cond_temp);
                self.push_stmt(
                    MirStmt::Assign {
                        dest: MirPlace::Ssa(disc_ssa),
                        value: MirRvalue::Discriminant {
                            value: MirOperand::Copy(MirPlace::Ssa(cond_now)),
                            enum_name: enum_name.clone(),
                        },
                    },
                );
                let end_block = self.new_block();
                let dest_base = self.new_temp(expr.ty.duplicate());
                let ghost s0 = *self;
                assert(s0.grows(*old(self)));
                let mut arm_infos: Vec<(usize, usize, Option<(String, String)>)> = Vec::new();
                let mut targets: Vec<(Literal, usize)> = Vec::new();
                let mut default_block: Option<usize> = None;
                let mut i: usize = 0;
                while i < arms.len()
                    invariant
                        self.wf(),
                        self.grows(s0),
                        self.drawn == s0.drawn,
                        i <= arms@.len(),
                        arm_infos@.len() == i,
                        forall|k: int|
                            0 <= k < i ==> (#[trigger] arm_infos@[k]).1 == k && arm_infos@[k].0
                                < self.blocks@.len(),
                        forall|k: int| 0 <= k < targets@.len() ==> (#[trigger] targets@[k]).1 < self.blocks@.len(),
                        default_block matches Some(b) ==> b < self.blocks@.len(),
                        self.scope@ == old(self).scope@,
                        arms@ == arms_of(*expr),
                        forall|k: int| 0 <= k < i ==> enum_pattern_ok((#[trigger] arms@[k]).pattern, shared.enums@),
                        forall|k: int| 0 <= k < i ==> pair_text((#[trigger] arm_infos@[k]).2) == binding_of(arms@[k].pattern),
                    decreases arms.len() - i,
                {
                    let ghost before = *self;
                    match &arms[i].pattern {
                        Pattern::EnumVariant { enum_name: en, variant_name: vn } => {
                            let idx = match index_of_variant(shared, en.as_str(), vn.as_str()) {
                                Some(x) => x,
                                None => {
                                    proof {
                                        lemma_enum_arms(arms@, 0, old(self).bound(), old(self).unsafe_depth > 0, old(self).in_forward, *shared);
                                        assert(!enum_arm_ok(arms@[i as int].pattern, shared.enums@));
                                    }
                                    let mut m = String::from_str("unknown enum variant: ");
                                    m.append(en.as_str());
                                    m.append("::");
                                    m.append(vn.as_str());
                                    return Err(m);
                                },
                            };
                            let block = self.new_block();
                            targets.push((Literal::Int64(#[verifier::truncate] (idx as i64)), block));
                            arm_infos.push((block, i, None));
                        },
                        Pattern::EnumVariantWithBinding { enum_name: en, variant_name: vn, binding } => {
                            let idx = match index_of_variant(shared, en.as_str(), vn.as_str()) {
                                Some(x) => x,
                                None => {
                                    proof {
                                        lemma_enum_arms(arms@, 0, old(self).bound(), old(self).unsafe_depth > 0, old(self).in_forward, *shared);
                                        assert(!enum_arm_ok(arms@[i as int].pattern, shared.enums@));
                                    }
                                    let mut m = String::from_str("unknown enum variant: ");
                                    m.append(en.as_str());
                                    m.append("::");
                                    m.append(vn.as_str());
                                    return Err(m);
                                },
                            };
                            let block = self.new_block();
                            targets.push((Literal::Int64(#[verifier::truncate] (idx as i64)), block));
                            arm_infos.push((block, i, Some((binding.clone(), vn.clone()))));
                        },
                        Pattern::Wildcard => {
                            let block = self.new_block();
                            default_block = Some(block);
                            arm_infos.push((block, i, None));
                        },
                        other => {
                            proof {
                                lemma_enum_arms(arms@, 0, old(self).bound(), old(self).unsafe_depth > 0, old(self).in_forward, *shared);
                                assert(!enum_arm_ok(arms@[i as int].pattern, shared.enums@));
                            }
                            let mut m = String::from_str("match 条件是枚举类型，但这个 arm 的模式是 ");
                            let d = debug_pattern(other);
                            m.append(d.as_str());
                            m.append("——只能用 EnumVariant/EnumVariantWithBinding/Wildcard 匹配");
                            return Err(m);
                        },
                    }
                    proof {
                        lemma_grows_trans(*self, before, s0);
                    }
                    i += 1;
                }
                let default = match default_block {
                    Some(b) => b,
                    None => self.new_block(),
                };
                self.set_terminator(
                    MirTerminator::Switch {
                        discr: MirOperand::Move(MirPlace::Ssa(disc_ssa)),
                        discr_ty: Type::I64,
                        targets,
                        default,
                    },
                );
                let ghost s1 = *self;
                proof {
                    lemma_grows_trans(s1, s0, *old(self));
                }
                let mut branch_results: Vec<(usize, SsaLocal)> = Vec::new();
                let mut k: usize = 0;
                proof {
                    assert(decreases_to!(expr => arms));
                }
                while k < arm_infos.len()
                    invariant
                        decreases_to!(expr => arms),
                        self.wf(),
                        self.grows(s1),
                        k <= arm_infos@.len(),
                        arm_infos@.len() == arms@.len(),
                        forall|j: int|
                            0 <= j < arm_infos@.len() ==> (#[trigger] arm_infos@[j]).1 == j && arm_infos@[j].0
                                < s1.blocks@.len(),
                        dest_base < s1.locals@.len(),
                        cond_temp < s1.locals@.len(),
                        end_block < s1.blocks@.len(),
                        self.drawn@ + mcost_arms(arms@, k as int) + 1 <= budget,
                        budget <= u32::MAX,
                        self.unsafe_depth + mcost_arms(arms@, k as int) <= u32::MAX,
                        forall|j: int|
                            0 <= j < branch_results@.len() ==> (#[trigger] branch_results@[j]).0
                                < self.blocks@.len() && branch_results@[j].1.base_id < self.locals@.len(),
                        self.scope@ == old(self).scope@,
                        self.unsafe_depth == old(self).unsafe_depth,
                        self.in_forward == old(self).in_forward,
                        arms@ == arms_of(*expr),
                        forall|j: int| 0 <= j < arms@.len() ==> enum_pattern_ok((#[trigger] arms@[j]).pattern, shared.enums@),
                        forall|j: int| 0 <= j < arms@.len() ==> pair_text((#[trigger] arm_infos@[j]).2) == binding_of(arms@[j].pattern),
                        forall|j: int|
                            0 <= j < k ==> payload_ok((#[trigger] arms@[j]).pattern, shared.enums@) && lowers_expr(
                                arms@[j].expr,
                                enum_arm_names(arms@[j].pattern, old(self).bound()),
                                old(self).unsafe_depth > 0,
                                old(self).in_forward,
                                *shared,
                            ),
                    decreases arm_infos.len() - k,
                {
                    let block = arm_infos[k].0;
                    let ai = arm_infos[k].1;
                    proof {
                        assert(decreases_to!(arms => arms@));
                        assert(decreases_to!(arms@ => arms@[ai as int]));
                        assert(decreases_to!(arms@[ai as int] => arms@[ai as int].expr));
                    }
                    let ghost it0 = *self;
                    self.switch_to_block(block);
                    self.push_scope();
                    let ghost inner = *self;
                    match &arm_infos[k].2 {
                        Some((binding_name, variant_name)) => {
                            let owner = match owner_of_variant(shared, variant_name.as_str()) {
                                Some(o) => o,
                                None => {
                                    proof {
                                        lemma_enum_arms(arms@, 0, old(self).bound(), old(self).unsafe_depth > 0, old(self).in_forward, *shared);
                                        assert(!payload_ok(arms@[k as int].pattern, shared.enums@));
                                    }
                                    let mut m = String::from_str("unknown enum variant: ");
                                    m.append(variant_name.as_str());
                                    return Err(m);
                                },
                            };
                            let payload_ty = match payload_of_variant(shared, owner.as_str(), variant_name.as_str()) {
                                Some(t) => t,
                                None => {
                                    proof {
                                        lemma_enum_arms(arms@, 0, old(self).bound(), old(self).unsafe_depth > 0, old(self).in_forward, *shared);
                                        assert(!payload_ok(arms@[k as int].pattern, shared.enums@));
                                    }
                                    let mut m = String::from_str("variant `");
                                    m.append(variant_name.as_str());
                                    m.append("` has no payload but pattern binds `");
                                    m.append(binding_name.as_str());
                                    m.append("`");
                                    return Err(m);
                                },
                            };
                            let binding_id = self.new_local(Some(binding_name.clone()), payload_ty, false, true);
                            let binding_ver = self.new_version(binding_id);
                            let base = self.current_ssa(cond_temp);
                            assert(place_need(MirPlace::Ssa(base)) == cond_temp + 1);
                            self.push_stmt(
                                MirStmt::Assign {
                                    dest: MirPlace::Ssa(SsaLocal { base_id: binding_id, version: binding_ver }),
                                    value: MirRvalue::Use(
                                        MirOperand::Move(
                                            MirPlace::EnumPayload {
                                                base: Box::new(MirPlace::Ssa(base)),
                                                enum_name: owner,
                                                variant_name: variant_name.clone(),
                                            },
                                        ),
                                    ),
                                },
                            );
                            self.bind(binding_name.clone(), binding_id);
                            let moved_now = self.current_ssa(cond_temp);
                            self.mark_moved(moved_now);
                        },
                        None => {},
                    }
                    let ghost bound = *self;
                    proof {
                        lemma_grows_trans(bound, inner, inner);
                        assert(ai == k);
                        assert(inner.scope@.drop_last() == old(self).scope@);
                        assert(bound.scope@.drop_last() == old(self).scope@);
                        assert(bound.bound() == enum_arm_names(arms@[k as int].pattern, old(self).bound()));
                        assert(payload_ok(arms@[k as int].pattern, shared.enums@));
                    }
                    let arm_expr = &arms[ai].expr;
                    let arm_diverges = is_never(&arm_expr.ty);
                    let operand = match self.build_expr(arm_expr, shared) {
                        Ok(o) => o,
                        Err(m) => {
                            proof {
                                lemma_enum_arms(arms@, 0, old(self).bound(), old(self).unsafe_depth > 0, old(self).in_forward, *shared);
                            }
                            return Err(m);
                        },
                    };
                    proof {
                        lemma_grows_trans(*self, bound, inner);
                    }
                    if arm_diverges {
                        self.set_terminator(MirTerminator::Unreachable);
                    } else {
                        let arm_ver = self.new_version(dest_base);
                        let arm_ssa = SsaLocal { base_id: dest_base, version: arm_ver };
                        self.push_stmt(
                            MirStmt::Assign { dest: MirPlace::Ssa(arm_ssa), value: MirRvalue::Use(operand) },
                        );
                        branch_results.push((block, arm_ssa));
                        if self.current_terminator_is_placeholder() {
                            self.set_terminator(MirTerminator::Goto(end_block));
                        }
                    }
                    let ghost last = *self;
                    self.pop_scope();
                    proof {
                        lemma_grows_through_scope(*self, last, inner, it0);
                        lemma_grows_trans(*self, it0, s1);
                        assert(self.scope@ == old(self).scope@);
                    }
                    k += 1;
                }
                self.switch_to_block(end_block);
                self.set_terminator(MirTerminator::Unreachable);
                let mut phi_values: Vec<(usize, MirOperand)> = Vec::new();
                let mut j: usize = 0;
                while j < branch_results.len()
                    invariant
                        self.wf(),
                        j <= branch_results@.len(),
                        phi_values@.len() == j,
                        forall|q: int|
                            0 <= q < branch_results@.len() ==> (#[trigger] branch_results@[q]).0
                                < self.blocks@.len() && branch_results@[q].1.base_id < self.locals@.len(),
                        forall|q: int|
                            0 <= q < j ==> (#[trigger] phi_values@[q]).0 < self.blocks@.len()
                                && operand_need(phi_values@[q].1) <= self.locals@.len(),
                    decreases branch_results.len() - j,
                {
                    let (block, ssa) = branch_results[j];
                    phi_values.push((block, MirOperand::Move(MirPlace::Ssa(ssa))));
                    j += 1;
                }
                proof {
                    lemma_enum_arms(arms@, 0, old(self).bound(), old(self).unsafe_depth > 0, old(self).in_forward, *shared);
                }
                let phi_ver = self.new_version(dest_base);
                let phi_ssa = SsaLocal { base_id: dest_base, version: phi_ver };
                self.push_stmt(
                    MirStmt::Assign {
                        dest: MirPlace::Ssa(phi_ssa),
                        value: MirRvalue::Phi { values: phi_values },
                    },
                );
                Ok(MirRvalue::Use(MirOperand::Move(MirPlace::Ssa(phi_ssa))))
            },
            _ => Err(String::new()),
        }
    }
}


impl MirBuilder {
    /// A `match` on an integer, a `bool` or a `char`: a switch on the value
    /// itself against each literal arm, the wildcard arm as the default.
    #[verifier::rlimit(100)]
    fn match_scalar(&mut self, expr: &HirExpr, cond_temp: usize, shared: &HirProgram) -> (r: Result<MirRvalue, String>)
        requires
            old(self).wf(),
            old(self).fits(2 + mcost_arms(arms_of(*expr), 0)),
            expr.kind is Match,
            cond_temp < old(self).locals@.len(),
        ensures
            r is Ok ==> final(self).wf() && final(self).grows(*old(self)) && final(self).drawn@
                <= old(self).drawn@ + 2 + mcost_arms(arms_of(*expr), 0),
            r matches Ok(v) ==> rvalue_ok(v, final(self).locals@.len(), final(self).blocks@.len()),
            r is Ok <==> scalar_arms(cond_ty(*expr), arms_of(*expr), 0, old(self).bound(), old(self).unsafe_depth > 0, old(self).in_forward, *shared) && has_wildcard(arms_of(*expr)),
            r is Ok ==> final(self).scope@ == old(self).scope@,
            r is Ok && old(self).open_end() ==> final(self).open_end(),
        decreases expr, 0nat,
    {
        match &expr.kind {
            HirExprKind::Match { cond, arms } => {
                let ghost budget = old(self).drawn@ + 2 + mcost_arms(arms@, 0);
                let discr_ty = cond.ty.duplicate();
                let cond_now = self.current_ssa(cond_temp);
                let discr = MirOperand::Copy(MirPlace::Ssa(cond_now));
                let end_block = self.new_block();
                let dest_base = self.new_temp(expr.ty.duplicate());
                let ghost s0 = *self;
                assert(s0.grows(*old(self)));
                let mut arm_infos: Vec<(usize, usize)> = Vec::new();
                let mut targets: Vec<(Literal, usize)> = Vec::new();
                let mut default_block: Option<usize> = None;
                let mut i: usize = 0;
                while i < arms.len()
                    invariant
                        self.wf(),
                        self.grows(s0),
                        self.drawn == s0.drawn,
                        i <= arms@.len(),
                        arm_infos@.len() == i,
                        forall|k: int|
                            0 <= k < i ==> (#[trigger] arm_infos@[k]).1 == k && arm_infos@[k].0
                                < self.blocks@.len(),
                        forall|k: int| 0 <= k < targets@.len() ==> (#[trigger] targets@[k]).1 < self.blocks@.len(),
                        default_block matches Some(b) ==> b < self.blocks@.len(),
                        self.scope@ == old(self).scope@,
                        arms@ == arms_of(*expr),
                        discr_ty@ == cond_ty(*expr)@,
                        forall|k: int| 0 <= k < i ==> scalar_arm_ok((#[trigger] arms@[k]).pattern, cond_ty(*expr)),
                        (default_block is Some) == (exists|k: int| 0 <= k < i && (#[trigger] arms@[k]).pattern is Wildcard),
                    decreases arms.len() - i,
                {
                    let ghost before = *self;
                    match &arms[i].pattern {
                        Pattern::IntLiteral(v) => {
                            let block = self.new_block();
                            let lit = match Self::int_literal_for_type(*v, &discr_ty) {
                                Ok(l) => l,
                                Err(m) => {
                                    proof {
                                        lemma_scalar_arms(cond_ty(*expr), arms@, 0, old(self).bound(), old(self).unsafe_depth > 0, old(self).in_forward, *shared);
                                        assert(!scalar_arm_ok(arms@[i as int].pattern, cond_ty(*expr)));
                                    }
                                    return Err(m);
                                },
                            };
                            targets.push((lit, block));
                            arm_infos.push((block, i));
                        },
                        Pattern::BoolLiteral(v) => {
                            let block = self.new_block();
                            targets.push((Literal::Bool(*v), block));
                            arm_infos.push((block, i));
                        },
                        Pattern::CharLiteral(c) => {
                            let block = self.new_block();
                            targets.push((Literal::Char(*c), block));
                            arm_infos.push((block, i));
                        },
                        Pattern::Wildcard => {
                            let block = self.new_block();
                            default_block = Some(block);
                            arm_infos.push((block, i));
                        },
                        other => {
                            proof {
                                lemma_scalar_arms(cond_ty(*expr), arms@, 0, old(self).bound(), old(self).unsafe_depth > 0, old(self).in_forward, *shared);
                                assert(!scalar_arm_ok(arms@[i as int].pattern, cond_ty(*expr)));
                            }
                            let mut m = String::from_str(
                                "match 条件是标量类型（整数/布尔/字符），但这个 arm 的模式是 ",
                            );
                            let d = debug_pattern(other);
                            m.append(d.as_str());
                            m.append("——只能用 IntLiteral/BoolLiteral/CharLiteral/Wildcard 匹配");
                            return Err(m);
                        },
                    }
                    proof {
                        lemma_grows_trans(*self, before, s0);
                    }
                    i += 1;
                }
                let default = match default_block {
                    Some(b) => b,
                    None => {
                        proof {
                            assert(!has_wildcard(arms@));
                        }
                        return Err(
                            String::from_str(
                                "match 条件是标量类型，但没有 Wildcard 兜底分支——标量字面量模式不可能自证穷尽，这应该在 sema 阶段就被拦下",
                            ),
                        );
                    },
                };
                self.set_terminator(MirTerminator::Switch { discr, discr_ty, targets, default });
                let ghost s1 = *self;
                proof {
                    lemma_grows_trans(s1, s0, *old(self));
                }
                let mut branch_results: Vec<(usize, SsaLocal)> = Vec::new();
                let mut k: usize = 0;
                proof {
                    assert(decreases_to!(expr => arms));
                }
                while k < arm_infos.len()
                    invariant
                        decreases_to!(expr => arms),
                        self.wf(),
                        self.grows(s1),
                        k <= arm_infos@.len(),
                        arm_infos@.len() == arms@.len(),
                        forall|j: int|
                            0 <= j < arm_infos@.len() ==> (#[trigger] arm_infos@[j]).1 == j && arm_infos@[j].0
                                < s1.blocks@.len(),
                        dest_base < s1.locals@.len(),
                        end_block < s1.blocks@.len(),
                        self.drawn@ + mcost_arms(arms@, k as int) + 1 <= budget,
                        budget <= u32::MAX,
                        self.unsafe_depth + mcost_arms(arms@, k as int) <= u32::MAX,
                        forall|j: int|
                            0 <= j < branch_results@.len() ==> (#[trigger] branch_results@[j]).0
                                < self.blocks@.len() && branch_results@[j].1.base_id < self.locals@.len(),
                        self.scope@ == old(self).scope@,
                        self.unsafe_depth == old(self).unsafe_depth,
                        self.in_forward == old(self).in_forward,
                        arms@ == arms_of(*expr),
                        forall|j: int| 0 <= j < arms@.len() ==> scalar_arm_ok((#[trigger] arms@[j]).pattern, cond_ty(*expr)),
                        has_wildcard(arms@),
                        forall|j: int| 0 <= j < k ==> lowers_expr((#[trigger] arms@[j]).expr, old(self).bound(), old(self).unsafe_depth > 0, old(self).in_forward, *shared),
                    decreases arm_infos.len() - k,
                {
                    let block = arm_infos[k].0;
                    let ai = arm_infos[k].1;
                    proof {
                        assert(decreases_to!(arms => arms@));
                        assert(decreases_to!(arms@ => arms@[ai as int]));
                        assert(decreases_to!(arms@[ai as int] => arms@[ai as int].expr));
                    }
                    let ghost it0 = *self;
                    self.switch_to_block(block);
                    let arm_expr = &arms[ai].expr;
                    let arm_diverges = is_never(&arm_expr.ty);
                    let operand = match self.build_expr(arm_expr, shared) {
                        Ok(o) => o,
                        Err(m) => {
                            proof {
                                lemma_scalar_arms(cond_ty(*expr), arms@, 0, old(self).bound(), old(self).unsafe_depth > 0, old(self).in_forward, *shared);
                            }
                            return Err(m);
                        },
                    };
                    if arm_diverges {
                        self.set_terminator(MirTerminator::Unreachable);
                    } else {
                        let arm_ver = self.new_version(dest_base);
                        let arm_ssa = SsaLocal { base_id: dest_base, version: arm_ver };
                        self.push_stmt(
                            MirStmt::Assign { dest: MirPlace::Ssa(arm_ssa), value: MirRvalue::Use(operand) },
                        );
                        branch_results.push((block, arm_ssa));
                        if self.current_terminator_is_placeholder() {
                            self.set_terminator(MirTerminator::Goto(end_block));
                        }
                    }
                    assert(self.grows(it0));
                    proof {
                        lemma_grows_trans(*self, it0, s1);
                    }
                    k += 1;
                }
                self.switch_to_block(end_block);
                self.set_terminator(MirTerminator::Unreachable);
                let mut phi_values: Vec<(usize, MirOperand)> = Vec::new();
                let mut j: usize = 0;
                while j < branch_results.len()
                    invariant
                        self.wf(),
                        j <= branch_results@.len(),
                        phi_values@.len() == j,
                        forall|q: int|
                            0 <= q < branch_results@.len() ==> (#[trigger] branch_results@[q]).0
                                < self.blocks@.len() && branch_results@[q].1.base_id < self.locals@.len(),
                        forall|q: int|
                            0 <= q < j ==> (#[trigger] phi_values@[q]).0 < self.blocks@.len()
                                && operand_need(phi_values@[q].1) <= self.locals@.len(),
                    decreases branch_results.len() - j,
                {
                    let (block, ssa) = branch_results[j];
                    phi_values.push((block, MirOperand::Move(MirPlace::Ssa(ssa))));
                    j += 1;
                }
                proof {
                    lemma_scalar_arms(cond_ty(*expr), arms@, 0, old(self).bound(), old(self).unsafe_depth > 0, old(self).in_forward, *shared);
                }
                let phi_ver = self.new_version(dest_base);
                let phi_ssa = SsaLocal { base_id: dest_base, version: phi_ver };
                self.push_stmt(
                    MirStmt::Assign {
                        dest: MirPlace::Ssa(phi_ssa),
                        value: MirRvalue::Phi { values: phi_values },
                    },
                );
                Ok(MirRvalue::Use(MirOperand::Move(MirPlace::Ssa(phi_ssa))))
            },
            _ => Err(String::new()),
        }
    }

    // -------- blocks and statements --------
    /// Lowers a block in a scope of its own; its value is that of its last
    /// statement, if that statement has one.
    fn build_block(&mut self, block: &HirBlock, shared: &HirProgram) -> (r: Result<Option<MirOperand>, String>)
        requires
            old(self).wf(),
            old(self).fits(mcost_block(*block)),
        ensures
            r is Ok ==> final(self).wf() && final(self).grows(*old(self)) && final(self).drawn@
                <= old(self).drawn@ + mcost_block(*block),
            r matches Ok(Some(o)) ==> operand_need(o) <= final(self).locals@.len(),
            r is Ok <==> lowers_block(*block, old(self).bound(), old(self).unsafe_depth > 0, old(self).in_forward, *shared),
            r is Ok ==> final(self).scope@ == old(self).scope@,
            r matches Ok(last) ==> tail_value(
                *block,
                last,
                final(self).blocks@[final(self).current_block as int],
                final(self).locals@,
            ),
            r is Ok && old(self).open_end() ==> final(self).open_end(),
            r is Ok && flat_block(*block) ==> final(self).current_block == old(self).current_block,
        decreases block, 1nat,
    {
        self.push_scope();
        let ghost inner = *self;
        let stmts = &block.stmts;
        assert(inner.scope@.drop_last() == old(self).scope@);
        let mut last: Option<MirOperand> = None;
        let mut i: usize = 0;
        while i < stmts.len()
            invariant
                self.wf(),
                self.grows(inner),
                i <= stmts@.len(),
                stmts@ == block.stmts@,
                self.scope@.len() >= 2,
                self.drawn@ + mcost_stmts(stmts@, i as int) <= inner.drawn@ + mcost_stmts(stmts@, 0),
                inner.drawn@ + mcost_stmts(stmts@, 0) <= u32::MAX,
                self.unsafe_depth + mcost_stmts(stmts@, i as int) <= u32::MAX,
                last matches Some(o) ==> operand_need(o) <= self.locals@.len(),
                i == stmts@.len() ==> tail_value(
                    *block,
                    last,
                    self.blocks@[self.current_block as int],
                    self.locals@,
                ),
                self.scope@.drop_last() == old(self).scope@,
                self.scope@.len() == old(self).scope@.len() + 1,
                self.unsafe_depth == old(self).unsafe_depth,
                self.in_forward == old(self).in_forward,
                old(self).open_end() ==> self.open_end(),
                lowers_block(*block, old(self).bound(), old(self).unsafe_depth > 0, old(self).in_forward, *shared)
                    == lowers_stmts(stmts@, i as int, self.bound(), old(self).unsafe_depth > 0, old(self).in_forward, *shared),
                flat_block(*block) ==> self.current_block == old(self).current_block,
            decreases stmts.len() - i,
        {
            proof {
                assert(decreases_to!(block => block.stmts));
                assert(decreases_to!(block.stmts => block.stmts@));
                assert(decreases_to!(block.stmts@ => block.stmts@[i as int]));
            }
            let ghost before = *self;
            assert(flat_block(*block) ==> flat_stmt(block.stmts@[i as int]));
            let tail = i + 1 == stmts.len() && match &stmts[i] {
                HirStmt::Expr { expr, .. } => !is_never(&expr.ty),
                _ => false,
            };
            last = if tail {
                match &stmts[i] {
                    HirStmt::Expr { expr, .. } => {
                        proof {
                            assert(decreases_to!(block.stmts@[i as int] => *expr));
                            assert(mcost_stmt(stmts@[i as int]) == mcost_expr(*expr));
                            assert(mcost_stmts(stmts@, i as int) == mcost_stmt(stmts@[i as int]) + mcost_stmts(
                                stmts@,
                                i + 1,
                            ));
                            assert(lowers_stmt(stmts@[i as int], self.bound(), old(self).unsafe_depth > 0, old(self).in_forward, *shared)
                                == lowers_expr(*expr, self.bound(), old(self).unsafe_depth > 0, old(self).in_forward, *shared));
                            assert(names_after(stmts@[i as int], self.bound()) == self.bound());
                        }
                        match self.build_expr(expr, shared) {
                            Ok(o) => Some(o),
                            Err(m) => return Err(m),
                        }
                    },
                    _ => None,
                }
            } else {
                match self.build_stmt(&stmts[i], shared) {
                    Ok(l) => l,
                    Err(m) => return Err(m),
                }
            };
            proof {
                lemma_grows_trans(*self, before, inner);
                assert(self.scope@.drop_last() == old(self).scope@);
                if i + 1 == stmts@.len() {
                    assert(block.stmts@.last() == stmts@[i as int]);
                }
            }
            i += 1;
        }
        let ghost fin = *self;
        assert(fin.scope@.drop_last() == old(self).scope@);
        self.pop_scope();
        proof {
            lemma_grows_through_scope(*self, fin, inner, *old(self));
            lemma_tail_value_kept(
                *block,
                last,
                fin.blocks@[fin.current_block as int],
                self.blocks@[self.current_block as int],
                self.locals@,
            );
        }
        Ok(last)
    }

    /// Lowers one statement; only an `unsafe` block has a value.
    #[verifier::rlimit(100)]
    fn build_stmt(&mut self, stmt: &HirStmt, shared: &HirProgram) -> (r: Result<Option<MirOperand>, String>)
        requires
            old(self).wf(),
            old(self).fits(mcost_stmt(*stmt)),
        ensures
            r is Ok ==> final(self).wf() && final(self).grows(*old(self)) && final(self).drawn@
                <= old(self).drawn@ + mcost_stmt(*stmt),
            r matches Ok(Some(o)) ==> operand_need(o) <= final(self).locals@.len(),
            stmt is Break ==> (r matches Err(m) && m@ == break_text()) && *final(self) == *old(self),
            stmt is For ==> (r matches Err(m) && m@ == for_text()) && *final(self) == *old(self),
            r matches Ok(Some(_)) ==> stmt is UnsafeBlock,
            stmt matches HirStmt::Expr { expr, .. } ==> (r is Ok ==> exists|v: MirRvalue|
                #[trigger] final(self).holds_stmt(MirStmt::ExprStmt(v)) && rvalue_lowered(
                    *expr,
                    Ok(v),
                ) && call_lowered(
                    *expr,
                    shared.enums@,
                    old(self).in_forward,
                    old(self).unsafe_depth,
                    Ok(v),
                ) && old(self).operands_from(
                    *expr,
                    v,
                    old(self).locals@.len() as nat,
                    final(self).locals@.len() as nat,
                )),
            stmt matches HirStmt::Let { name, init, .. } ==> (r is Ok ==> exists|o: MirOperand, x: SsaLocal|
                #[trigger] final(self).holds_stmt(
                    MirStmt::Assign { dest: MirPlace::Ssa(x), value: MirRvalue::Use(o) },
                ) && final(self).lookup_spec(name@) == Some(x.base_id) && old(self).operand_from(
                    *init,
                    o,
                    old(self).locals@.len() as nat,
                    final(self).locals@.len() as nat,
                )),
            stmt matches HirStmt::Return { expr, .. } ==> (r is Ok ==> match expr {
                Some(e) => exists|o: MirOperand|
                    #[trigger] final(self).ends_in(MirTerminator::Return(Some(o))) && old(self).operand_from(
                        *e,
                        o,
                        old(self).locals@.len() as nat,
                        final(self).locals@.len() as nat,
                    ),
                None => final(self).ends_in(MirTerminator::Return(None)),
            }),
            stmt matches HirStmt::Let { name, ty, init, mutable, persist, .. } ==> (r is Ok
                ==> final(self).let_bound(
                old(self).locals@.len() as nat,
                name@,
                declared_or(*ty, init.ty),
                *mutable,
                *persist,
            )),
            r is Ok <==> lowers_stmt(*stmt, old(self).bound(), old(self).unsafe_depth > 0, old(self).in_forward, *shared),
            r is Ok ==> final(self).scope@.drop_last() == old(self).scope@.drop_last(),
            r is Ok ==> final(self).bound() == names_after(*stmt, old(self).bound()),
            r is Ok && !(stmt is Let) ==> final(self).scope@ == old(self).scope@,
            r is Ok && old(self).open_end() ==> final(self).open_end(),
            r is Ok && flat_stmt(*stmt) ==> final(self).current_block == old(self).current_block,
        decreases stmt, 1nat,
    {
        match stmt {
            HirStmt::Let { name, ty, init, mutable, persist, .. } => {
                let value = match self.build_expr(init, shared) {
                    Ok(o) => o,
                    Err(m) => return Err(m),
                };
                let ghost s1 = *self;
                let local_ty = match ty {
                    Some(t) => t.duplicate(),
                    None => init.ty.duplicate(),
                };
                let id = if *persist {
                    self.new_persist_local(Some(name.clone()), local_ty, *mutable)
                } else {
                    self.new_local(Some(name.clone()), local_ty, *mutable, true)
                };
                let ghost made = self.locals@[id as int];
                assert(local_is(made, name@, declared_or(*ty, init.ty), *mutable, *persist));
                self.bind(name.clone(), id);
                assert(self.lookup_spec(name@) == Some(id));
                let new_version = self.new_version(id);
                let dest = MirPlace::Ssa(SsaLocal { base_id: id, version: new_version });
                let ghost c = self.current_block as int;
                let ghost k = self.blocks@[c].stmts@.len() as int;
                let ghost pushed = MirStmt::Assign { dest, value: MirRvalue::Use(value) };
                self.push_stmt(MirStmt::Assign { dest, value: MirRvalue::Use(value) });
                assert(self.blocks@[c].stmts@[k] == pushed);
                assert(self.holds_stmt(pushed));
                assert(self.grows(s1));
                proof {
                    lemma_grows_trans(*self, s1, *old(self));
                    lemma_operand_widen(
                        *old(self),
                        *old(self),
                        *init,
                        value,
                        old(self).locals@.len() as nat,
                        s1.locals@.len() as nat,
                        old(self).locals@.len() as nat,
                        self.locals@.len() as nat,
                    );
                    assert(self.locals@[id as int] == made);
                    assert(self.lookup_spec(name@) == Some(id));
                }
                Ok(None)
            },
            HirStmt::Expr { expr, .. } => {
                let value = match self.build_expr_rvalue(expr, shared) {
                    Ok(v) => v,
                    Err(m) => return Err(m),
                };
                let ghost s1 = *self;
                let ghost c = self.current_block as int;
                let ghost k = self.blocks@[c].stmts@.len() as int;
                let ghost pushed = MirStmt::ExprStmt(value);
                self.push_stmt(MirStmt::ExprStmt(value));
                assert(self.blocks@[c].stmts@[k] == pushed);
                if is_never(&expr.ty) {
                    self.set_terminator(MirTerminator::Unreachable);
                    assert(self.blocks@[c].stmts@[k] == pushed);
                    let next = self.new_block();
                    assert(self.blocks@[c] == self.blocks@.drop_last()[c]);
                    self.switch_to_block(next);
                }
                assert(self.blocks@[c].stmts@[k] == pushed);
                assert(self.holds_stmt(pushed));
                assert(self.grows(s1));
                proof {
                    lemma_grows_trans(*self, s1, *old(self));
                }
                Ok(None)
            },
            HirStmt::Return { expr, .. } => {
                let operand = match expr {
                    Some(e) => match self.build_expr(e, shared) {
                        Ok(o) => Some(o),
                        Err(m) => return Err(m),
                    },
                    None => None,
                };
                let ghost s1 = *self;
                let mut to_drop: Vec<SsaLocal> = Vec::new();
                let mut sc: usize = self.scope_vars.len();
                while sc > 0
                    invariant
                        self.wf(),
                        *self == s1,
                        sc <= self.scope_vars@.len(),
                        forall|q: int| 0 <= q < to_drop@.len() ==> (#[trigger] to_drop@[q]).base_id < self.locals@.len(),
                    decreases sc,
                {
                    sc -= 1;
                    let ids = &self.scope_vars[sc];
                    let mut k: usize = ids.len();
                    while k > 0
                        invariant
                            self.wf(),
                            *self == s1,
                            sc < self.scope_vars@.len(),
                            ids@ == self.scope_vars@[sc as int]@,
                            k <= ids@.len(),
                            forall|q: int| 0 <= q < to_drop@.len() ==> (#[trigger] to_drop@[q]).base_id < self.locals@.len(),
                        decreases k,
                    {
                        k -= 1;
                        proof {
                            assert(self.scope_vars@[sc as int]@[k as int] < self.locals@.len());
                        }
                        let ssa = self.current_ssa(ids[k]);
                        if !self.is_moved(ssa) {
                            to_drop.push(ssa);
                        }
                    }
                }
                let mut q: usize = 0;
                while q < to_drop.len()
                    invariant
                        self.wf(),
                        self.locals == s1.locals,
                        self.blocks@.len() == s1.blocks@.len(),
                        self.scope == s1.scope,
                        self.unsafe_depth == s1.unsafe_depth,
                        self.in_forward == s1.in_forward,
                        self.drawn == s1.drawn,
                        self.issued == s1.issued,
                        self.written == s1.written,
                        q <= to_drop@.len(),
                        forall|j: int| 0 <= j < to_drop@.len() ==> (#[trigger] to_drop@[j]).base_id < self.locals@.len(),
                    decreases to_drop.len() - q,
                {
                    self.push_stmt(MirStmt::Drop { place: MirPlace::Ssa(to_drop[q]) });
                    q += 1;
                }
                let ghost c = self.current_block as int;
                let ghost term = MirTerminator::Return(operand);
                self.set_terminator(MirTerminator::Return(operand));
                let next = self.new_block();
                assert(self.blocks@[c] == self.blocks@.drop_last()[c]);
                self.switch_to_block(next);
                assert(self.blocks@[c].terminator == term);
                assert(self.ends_in(term));
                assert(self.grows(s1));
                proof {
                    lemma_grows_trans(*self, s1, *old(self));
                    if let Some(e) = expr {
                        lemma_operand_widen(
                            *old(self),
                            *old(self),
                            *e,
                            operand->Some_0,
                            old(self).locals@.len() as nat,
                            s1.locals@.len() as nat,
                            old(self).locals@.len() as nat,
                            self.locals@.len() as nat,
                        );
                    }
                }
                Ok(None)
            },
            HirStmt::Assign { target, expr, .. } => {
                let place = match self.build_place(target, shared) {
                    Ok(p) => p,
                    Err(m) => return Err(m),
                };
                let ghost s1 = *self;
                let dest = match place {
                    MirPlace::Ssa(ssa) => {
                        let new_ver = self.new_version(ssa.base_id);
                        MirPlace::Ssa(SsaLocal { base_id: ssa.base_id, version: new_ver })
                    },
                    other => other,
                };
                let ghost s2 = *self;
                assert(s2.grows(s1));
                let value = match self.build_expr_rvalue(expr, shared) {
                    Ok(v) => v,
                    Err(m) => return Err(m),
                };
                let ghost s3 = *self;
                proof {
                    lemma_grows_trans(s3, s2, s1);
                    if let MirPlace::Ssa(x) = dest {
                        assert(s2.issued@.contains(x));
                        assert(!s1.issued@.contains(x));
                        assert(!s2.written@.contains(x));
                        assert(!s3.written@.contains(x));
                    }
                }
                self.push_stmt(MirStmt::Assign { dest, value });
                proof {
                    assert(self.grows(s1));
                    lemma_grows_trans(*self, s1, *old(self));
                }
                Ok(None)
            },
            HirStmt::While { cond, body, .. } => {
                let cond_block = self.new_block();
                let body_block = self.new_block();
                let end_block = self.new_block();
                self.set_terminator(MirTerminator::Goto(cond_block));
                self.switch_to_block(cond_block);
                let ghost s1 = *self;
                assert(s1.grows(*old(self)));
                let cond_operand = match self.build_expr(cond, shared) {
                    Ok(o) => o,
                    Err(m) => return Err(m),
                };
                self.set_terminator(
                    MirTerminator::If { cond: cond_operand, then_block: body_block, else_block: end_block },
                );
                self.switch_to_block(body_block);
                let ghost s2 = *self;
                proof {
                    lemma_grows_trans(s2, s1, *old(self));
                }
                match self.build_block(body, shared) {
                    Ok(_) => {},
                    Err(m) => return Err(m),
                }
                if self.current_terminator_is_placeholder() {
                    self.set_terminator(MirTerminator::Goto(cond_block));
                }
                self.switch_to_block(end_block);
                self.set_terminator(MirTerminator::Unreachable);
                proof {
                    lemma_grows_trans(*self, s2, *old(self));
                }
                Ok(None)
            },
            HirStmt::Loop { body, .. } => {
                let body_block = self.new_block();
                let end_block = self.new_block();
                self.set_terminator(MirTerminator::Goto(body_block));
                self.switch_to_block(body_block);
                let ghost s1 = *self;
                assert(s1.grows(*old(self)));
                match self.build_block(body, shared) {
                    Ok(_) => {},
                    Err(m) => return Err(m),
                }
                if self.current_terminator_is_placeholder() {
                    self.set_terminator(MirTerminator::Goto(body_block));
                }
                self.switch_to_block(end_block);
                self.set_terminator(MirTerminator::Unreachable);
                proof {
                    lemma_grows_trans(*self, s1, *old(self));
                }
                Ok(None)
            },
            HirStmt::Break { .. } => Err(
                String::from_str("MIR lowering for Break: 循环栈还没接上，下一轮跟 Continue 一起做"),
            ),
            HirStmt::For { .. } => Err(
                String::from_str(
                    "HirStmt::For 不该走到 mir_builder 这一层——应由 elaborate.rs 先展开成 while，但 elaborate.rs 目前还是空实现",
                ),
            ),
            HirStmt::UnsafeBlock { body, .. } => {
                self.unsafe_depth = self.unsafe_depth + 1;
                self.push_stmt(MirStmt::EffectCheck { effect: String::from_str("unsafe") });
                let result = match self.build_block(body, shared) {
                    Ok(l) => l,
                    Err(m) => return Err(m),
                };
                self.unsafe_depth = self.unsafe_depth - 1;
                Ok(result)
            },
        }
    }
}


// ===== functions and the whole program =====

/// Two lists of generic parameters with the same names and bounds.
pub open spec fn generics_same(a: Seq<HirGenericParam>, b: Seq<HirGenericParam>) -> bool {
    a.len() == b.len() && forall|i: int|
        0 <= i < a.len() ==> #[trigger] a[i].name@ == b[i].name@ && crate::ast::strs_same(
            a[i].bounds@,
            b[i].bounds@,
        )
}

fn duplicate_generic_params(v: &Vec<HirGenericParam>) -> (r: Vec<HirGenericParam>)
    ensures
        generics_same(r@, v@),
{
    let mut out: Vec<HirGenericParam> = Vec::new();
    let mut i: usize = 0;
    while i < v.len()
        invariant
            i <= v@.len(),
            out@.len() == i,
            forall|j: int|
                0 <= j < i ==> #[trigger] out@[j].name@ == v@[j].name@ && crate::ast::strs_same(
                    out@[j].bounds@,
                    v@[j].bounds@,
                ),
        decreases v.len() - i,
    {
        let name = v[i].name.clone();
        let bounds = crate::ast::duplicate_strings(&v[i].bounds);
        let ghost before = out@;
        out.push(HirGenericParam { name, bounds });
        assert forall|j: int| 0 <= j < i + 1 implies #[trigger] out@[j].name@ == v@[j].name@
            && crate::ast::strs_same(out@[j].bounds@, v@[j].bounds@) by {
            if j < i {
                assert(out@[j] == before[j]);
            }
        }
        i += 1;
    }
    out
}

/// The local that lowering gives parameter `p` at position `i`.
pub open spec fn param_local(l: MirLocal, i: int, p: crate::hir::HirParam) -> bool {
    &&& l.id == i
    &&& l.name matches Some(n) && n@ == p.name@
    &&& l.ty@ == p.ty@
    &&& !l.mutable
    &&& !l.persist
    &&& l.is_param
}

/// How the block where a body falls off its end is ended: in `Unreachable`
/// for a function returning `never`, else in a return of the body's value.
pub open spec fn fall_off(f: HirFn, blk: MirBlock, locals: Seq<MirLocal>) -> bool {
    if opt_type_model(f.return_type) == Some(TypeModel::Never) {
        blk.terminator is Unreachable
    } else {
        match blk.terminator {
            MirTerminator::Return(last) => tail_value(f.body, last, blk, locals),
            _ => false,
        }
    }
}

/// `m` is `f` lowered: the same signature and effects, a well-formed body
/// in static single assignment form whose first locals are the parameters
/// in order, and a block that ends the body as the return type says.
pub open spec fn fn_lowered(f: HirFn, m: MirFn) -> bool {
    &&& exists|k: int|
        0 <= k < m.body.blocks@.len() && #[trigger] fall_off(f, m.body.blocks@[k], m.body.locals@)
    &&& flat_block(f.body) ==> fall_off(f, m.body.blocks@[0], m.body.locals@)
    &&& m.name@ == f.name@
    &&& generics_same(m.generic_params@, f.generic_params@)
    &&& m.params@.len() == f.params@.len()
    &&& forall|i: int|
        0 <= i < f.params@.len() ==> #[trigger] m.params@[i].0@ == f.params@[i].name@
            && m.params@[i].1@ == f.params@[i].ty@
    &&& opt_type_model(m.return_type) == opt_type_model(f.return_type)
    &&& m.effect_set == f.effects
    &&& body_wf(m.body)
    &&& single_assignment(m.body.blocks@)
    &&& m.body.locals@.len() >= f.params@.len()
    &&& forall|i: int|
        0 <= i < f.params@.len() ==> param_local(#[trigger] m.body.locals@[i], i, f.params@[i])
}

impl MirBuilder {
    /// A builder holding only the entry block.
    fn new(in_forward: bool) -> (b: MirBuilder)
        ensures
            b.wf(),
            b.locals@.len() == 0,
            b.blocks@.len() == 1,
            b.current_block == 0,
            b.scope@.len() == 1,
            b.unsafe_depth == 0,
            b.in_forward == in_forward,
            b.drawn@ == 0,
            b.bound() == Set::<Seq<char>>::empty(),
            b.open_end(),
    {
        let mut scope: Vec<Vec<(String, usize)>> = Vec::new();
        scope.push(Vec::new());
        let mut scope_vars: Vec<Vec<usize>> = Vec::new();
        scope_vars.push(Vec::new());
        let mut blocks: Vec<MirBlock> = Vec::new();
        blocks.push(MirBlock { id: 0, stmts: Vec::new(), terminator: MirTerminator::Unreachable });
        let b = MirBuilder {
            locals: Vec::new(),
            blocks,
            current_block: 0,
            scope,
            scope_vars,
            unsafe_depth: 0,
            in_forward,
            ssa_versions: HashMap::new(),
            moved: Vec::new(),
            drawn: Ghost(0),
            issued: Ghost(Set::empty()),
            written: Ghost(Set::empty()),
        };
        assert(b.blocks@[0].stmts@.len() == 0);
        assert forall|n: Seq<char>| !#[trigger] b.bound().contains(n) by {
            assert(b.scope@[0]@.len() == 0);
            assert(first_in(b.scope@[0]@, n, 0) is None);
            assert(scopes_find(b.scope@, n, 0) is None);
            assert(scopes_find(b.scope@, n, 1) is None);
        }
        assert(b.bound() =~= Set::<Seq<char>>::empty());
        b
    }

    /// Lowers one function: its parameters become the first locals, its
    /// body the blocks from the entry on; a body that falls off its end
    /// returns its value, or is unreachable there when the function returns
    /// `never`.
    fn build_fn(f: &HirFn, shared: &HirProgram) -> (r: Result<MirFn, String>)
        requires
            mcost_block(f.body) <= u32::MAX,
        ensures
            r matches Ok(m) ==> fn_lowered(*f, m),
            r is Ok <==> fn_lowers(*f, *shared),
    {
        let mut builder = MirBuilder::new(f.is_forward);
        let params = &f.params;
        let mut i: usize = 0;
        while i < params.len()
            invariant
                builder.wf(),
                i <= params@.len(),
                builder.locals@.len() == i,
                builder.scope@.len() == 1,
                builder.unsafe_depth == 0,
                builder.drawn@ == 0,
                forall|j: int| 0 <= j < i ==> param_local(#[trigger] builder.locals@[j], j, params@[j]),
                builder.bound() == param_names(params@, i as int),
                builder.open_end(),
                builder.in_forward == f.is_forward,
                params@ == f.params@,
                builder.current_block == 0,
            decreases params.len() - i,
        {
            let id = builder.new_param_local(params[i].name.clone(), params[i].ty.duplicate());
            builder.bind(params[i].name.clone(), id);
            proof {
                assert(builder.bound() =~= param_names(params@, i + 1));
            }
            i += 1;
        }
        let ghost start = builder;
        let ret = match builder.build_block(&f.body, shared) {
            Ok(o) => o,
            Err(m) => return Err(m),
        };
        let ghost cb = builder.current_block;
        let ghost pre = builder.blocks@[cb as int];
        if builder.current_terminator_is_placeholder() {
            let term = match &f.return_type {
                Some(Type::Never) => MirTerminator::Unreachable,
                _ => MirTerminator::Return(ret),
            };
            builder.set_terminator(term);
        }
        proof {
            lemma_tail_value_kept(f.body, ret, pre, builder.blocks@[cb as int], builder.locals@);
        }
        assert(fall_off(*f, builder.blocks@[cb as int], builder.locals@));
        let mut out_params: Vec<(String, Type)> = Vec::new();
        let mut k: usize = 0;
        while k < params.len()
            invariant
                k <= params@.len(),
                out_params@.len() == k,
                forall|j: int|
                    0 <= j < k ==> (#[trigger] out_params@[j]).0@ == params@[j].name@ && out_params@[j].1@
                        == params@[j].ty@,
            decreases params.len() - k,
        {
            out_params.push((params[k].name.clone(), params[k].ty.duplicate()));
            k += 1;
        }
        let body = MirBody { locals: builder.locals, blocks: builder.blocks };
        assert forall|j: int| 0 <= j < f.params@.len() implies param_local(
            #[trigger] body.locals@[j],
            j,
            f.params@[j],
        ) by {
            assert(body.locals@[j] == start.locals@[j]);
        }
        Ok(
            MirFn {
                name: f.name.clone(),
                generic_params: duplicate_generic_params(&f.generic_params),
                params: out_params,
                return_type: crate::ast::duplicate_opt_type(&f.return_type),
                body,
                effect_set: f.effects,
            },
        )
    }
}


/// The built-in function that a statement calls, if any.
pub open spec fn stmt_intrinsic(s: MirStmt) -> Option<IntrinsicFn> {
    match s {
        MirStmt::Assign { value: MirRvalue::Call { intrinsic_name: Some(n), .. }, .. } => Some(n),
        MirStmt::ExprStmt(MirRvalue::Call { intrinsic_name: Some(n), .. }) => Some(n),
        _ => None,
    }
}

/// The built-in functions that the statements `s[..n]` call, in order.
pub open spec fn stmts_intrinsics(s: Seq<MirStmt>, n: int) -> Seq<IntrinsicFn>
    decreases n,
{
    if n <= 0 || n > s.len() {
        Seq::empty()
    } else {
        stmts_intrinsics(s, n - 1) + match stmt_intrinsic(s[n - 1]) {
            Some(f) => seq![f],
            None => Seq::empty(),
        }
    }
}

/// The built-in functions that the blocks `bs[..n]` call, in order.
pub open spec fn blocks_intrinsics(bs: Seq<MirBlock>, n: int) -> Seq<IntrinsicFn>
    decreases n,
{
    if n <= 0 || n > bs.len() {
        Seq::empty()
    } else {
        blocks_intrinsics(bs, n - 1) + stmts_intrinsics(bs[n - 1].stmts@, bs[n - 1].stmts@.len() as int)
    }
}

/// The built-in functions that the functions `fs[..n]` call, in order.
pub open spec fn fns_intrinsics(fs: Seq<MirFn>, n: int) -> Seq<IntrinsicFn>
    decreases n,
{
    if n <= 0 || n > fs.len() {
        Seq::empty()
    } else {
        fns_intrinsics(fs, n - 1) + blocks_intrinsics(
            fs[n - 1].body.blocks@,
            fs[n - 1].body.blocks@.len() as int,
        )
    }
}

/// `u` holds each of the functions in `s` once, in table order.
pub open spec fn sorted_set_of(u: Seq<IntrinsicFn>, s: Seq<IntrinsicFn>) -> bool {
    &&& forall|i: int, j: int|
        0 <= i < j < u.len() ==> crate::intrinsic::fn_index(#[trigger] u[i]) < crate::intrinsic::fn_index(
            #[trigger] u[j],
        )
    &&& forall|f: IntrinsicFn| u.contains(f) <==> s.contains(f)
}

/// The functions of the models `ms[..n]`, in order.
pub open spec fn model_fns(ms: Seq<crate::hir::HirModel>, n: int) -> Seq<HirFn>
    decreases n,
{
    if n <= 0 || n > ms.len() {
        Seq::empty()
    } else {
        model_fns(ms, n - 1) + ms[n - 1].functions@
    }
}

/// The functions of the `implement` blocks `is[..n]`, in order.
pub open spec fn impl_fns(is: Seq<crate::hir::HirImplement>, n: int) -> Seq<HirFn>
    decreases n,
{
    if n <= 0 || n > is.len() {
        Seq::empty()
    } else {
        impl_fns(is, n - 1) + is[n - 1].functions@
    }
}

/// Every function of the program, in the order lowering emits them: the
/// free functions, the models' methods, then the `implement` blocks'.
pub open spec fn program_fns(hir: HirProgram) -> Seq<HirFn> {
    hir.fns@ + model_fns(hir.models@, hir.models@.len() as int) + impl_fns(
        hir.impls@,
        hir.impls@.len() as int,
    )
}

/// Every function of the program can be lowered.
pub open spec fn program_lowerable(hir: HirProgram) -> bool {
    &&& forall|i: int| 0 <= i < hir.fns@.len() ==> fn_lowerable(#[trigger] hir.fns@[i])
    &&& forall|m: int, j: int|
        0 <= m < hir.models@.len() && 0 <= j < hir.models@[m].functions@.len() ==> fn_lowerable(
            #[trigger] hir.models@[m].functions@[j],
        )
    &&& forall|m: int, j: int|
        0 <= m < hir.impls@.len() && 0 <= j < hir.impls@[m].functions@.len() ==> fn_lowerable(
            #[trigger] hir.impls@[m].functions@[j],
        )
}

pub open spec fn struct_lowered(s: HirStruct, m: MirStruct) -> bool {
    &&& m.name@ == s.name@
    &&& generics_same(m.generic_params@, s.generic_params@)
    &&& m.fields@.len() == s.fields@.len()
    &&& forall|i: int|
        0 <= i < s.fields@.len() ==> #[trigger] m.fields@[i].0@ == s.fields@[i].name@ && m.fields@[i].1@
            == s.fields@[i].ty@
}

pub open spec fn enum_lowered(e: HirEnum, m: MirEnum) -> bool {
    &&& m.name@ == e.name@
    &&& generics_same(m.generic_params@, e.generic_params@)
    &&& m.variants@.len() == e.variants@.len()
    &&& forall|i: int|
        0 <= i < e.variants@.len() ==> #[trigger] m.variants@[i].0@ == e.variants@[i].name@
            && opt_type_model(m.variants@[i].1) == opt_type_model(e.variants@[i].ty)
}

/// `p` is `hir` lowered: each function lowered in order, structs and enums
/// carried over, and the built-in functions that the bodies call listed
/// once each in table order.
pub open spec fn program_lowered(hir: HirProgram, p: MirProgram) -> bool {
    &&& p.fns@.len() == program_fns(hir).len()
    &&& forall|i: int| 0 <= i < p.fns@.len() ==> fn_lowered(program_fns(hir)[i], #[trigger] p.fns@[i])
    &&& p.structs@.len() == hir.structs@.len()
    &&& forall|i: int| 0 <= i < p.structs@.len() ==> struct_lowered(hir.structs@[i], #[trigger] p.structs@[i])
    &&& p.enums@.len() == hir.enums@.len()
    &&& forall|i: int| 0 <= i < p.enums@.len() ==> enum_lowered(hir.enums@[i], #[trigger] p.enums@[i])
    &&& sorted_set_of(p.intrinsics_used@, fns_intrinsics(p.fns@, p.fns@.len() as int))
}

impl MirBuilder {
    /// The built-in functions that a body calls, block by block, in order.
    fn collect_intrinsics_in_body(body: &MirBody) -> (r: Vec<IntrinsicFn>)
        ensures
            r@ == blocks_intrinsics(body.blocks@, body.blocks@.len() as int),
    {
        let mut out: Vec<IntrinsicFn> = Vec::new();
        let mut b: usize = 0;
        while b < body.blocks.len()
            invariant
                b <= body.blocks@.len(),
                out@ == blocks_intrinsics(body.blocks@, b as int),
            decreases body.blocks.len() - b,
        {
            let stmts = &body.blocks[b].stmts;
            let ghost before = out@;
            let mut k: usize = 0;
            while k < stmts.len()
                invariant
                    b < body.blocks@.len(),
                    stmts@ == body.blocks@[b as int].stmts@,
                    k <= stmts@.len(),
                    out@ == before + stmts_intrinsics(stmts@, k as int),
                decreases stmts.len() - k,
            {
                let found = match &stmts[k] {
                    MirStmt::Assign { value: MirRvalue::Call { intrinsic_name: Some(n), .. }, .. } => Some(*n),
                    MirStmt::ExprStmt(MirRvalue::Call { intrinsic_name: Some(n), .. }) => Some(*n),
                    _ => None,
                };
                if let Some(n) = found {
                    out.push(n);
                }
                proof {
                    assert(out@ =~= before + stmts_intrinsics(stmts@, k + 1));
                }
                k += 1;
            }
            b += 1;
        }
        out
    }

    /// Lowers every function of the program, in order, and carries the
    /// structs and enums over; the first function that cannot be lowered
    /// makes the whole an error.
    pub fn build(hir: &HirProgram) -> (r: Result<MirProgram, String>)
        requires
            program_lowerable(*hir),
        ensures
            r matches Ok(p) ==> program_lowered(*hir, p),
            r is Ok <==> program_lowers(*hir),
    {
        let ghost mut done: Seq<HirFn> = Seq::empty();
        let mut fns: Vec<MirFn> = Vec::new();
        let mut i: usize = 0;
        while i < hir.fns.len()
            invariant
                program_lowerable(*hir),
                i <= hir.fns@.len(),
                done == hir.fns@.take(i as int),
                fns@.len() == done.len(),
                forall|j: int| 0 <= j < fns@.len() ==> fn_lowered(done[j], #[trigger] fns@[j]),
                forall|k: int| 0 <= k < i ==> fn_lowers(#[trigger] hir.fns@[k], *hir),
            decreases hir.fns.len() - i,
        {
            let f = match Self::build_fn(&hir.fns[i], hir) {
                Ok(f) => f,
                Err(m) => return Err(m),
            };
            fns.push(f);
            proof {
                done = done.push(hir.fns@[i as int]);
                assert(done =~= hir.fns@.take(i + 1));
            }
            i += 1;
        }
        proof {
            assert(done =~= hir.fns@ + model_fns(hir.models@, 0));
        }
        let mut m: usize = 0;
        while m < hir.models.len()
            invariant
                program_lowerable(*hir),
                m <= hir.models@.len(),
                done == hir.fns@ + model_fns(hir.models@, m as int),
                fns@.len() == done.len(),
                forall|j: int| 0 <= j < fns@.len() ==> fn_lowered(done[j], #[trigger] fns@[j]),
                forall|k: int| 0 <= k < hir.fns@.len() ==> fn_lowers(#[trigger] hir.fns@[k], *hir),
                forall|p: int, q: int|
                    0 <= p < m && 0 <= q < hir.models@[p].functions@.len() ==> fn_lowers(
                        #[trigger] hir.models@[p].functions@[q],
                        *hir,
                    ),
            decreases hir.models.len() - m,
        {
            let fs = &hir.models[m].functions;
            let ghost base = done;
            let mut j: usize = 0;
            while j < fs.len()
                invariant
                    program_lowerable(*hir),
                    m < hir.models@.len(),
                    fs@ == hir.models@[m as int].functions@,
                    j <= fs@.len(),
                    done == base + fs@.take(j as int),
                    fns@.len() == done.len(),
                    forall|q: int| 0 <= q < fns@.len() ==> fn_lowered(done[q], #[trigger] fns@[q]),
                    forall|k: int| 0 <= k < hir.fns@.len() ==> fn_lowers(#[trigger] hir.fns@[k], *hir),
                    forall|p: int, q: int|
                        0 <= p < m && 0 <= q < hir.models@[p].functions@.len() ==> fn_lowers(
                            #[trigger] hir.models@[p].functions@[q],
                            *hir,
                        ),
                    forall|q: int| 0 <= q < j ==> fn_lowers(#[trigger] fs@[q], *hir),
                decreases fs.len() - j,
            {
                proof {
                    assert(fn_lowerable(hir.models@[m as int].functions@[j as int]));
                }
                let f = match Self::build_fn(&fs[j], hir) {
                    Ok(f) => f,
                    Err(e) => return Err(e),
                };
                fns.push(f);
                proof {
                    done = done.push(fs@[j as int]);
                    assert(done =~= base + fs@.take(j + 1));
                }
                j += 1;
            }
            proof {
                assert(fs@.take(fs@.len() as int) =~= fs@);
                assert(done =~= hir.fns@ + model_fns(hir.models@, m + 1));
            }
            m += 1;
        }
        proof {
            assert(done =~= hir.fns@ + model_fns(hir.models@, hir.models@.len() as int) + impl_fns(
                hir.impls@,
                0,
            ));
        }
        let mut n: usize = 0;
        while n < hir.impls.len()
            invariant
                program_lowerable(*hir),
                n <= hir.impls@.len(),
                done == hir.fns@ + model_fns(hir.models@, hir.models@.len() as int) + impl_fns(
                    hir.impls@,
                    n as int,
                ),
                fns@.len() == done.len(),
                forall|j: int| 0 <= j < fns@.len() ==> fn_lowered(done[j], #[trigger] fns@[j]),
                forall|k: int| 0 <= k < hir.fns@.len() ==> fn_lowers(#[trigger] hir.fns@[k], *hir),
                forall|p: int, q: int|
                    0 <= p < hir.models@.len() && 0 <= q < hir.models@[p].functions@.len() ==> fn_lowers(
                        #[trigger] hir.models@[p].functions@[q],
                        *hir,
                    ),
                forall|p: int, q: int|
                    0 <= p < n && 0 <= q < hir.impls@[p].functions@.len() ==> fn_lowers(
                        #[trigger] hir.impls@[p].functions@[q],
                        *hir,
                    ),
            decreases hir.impls.len() - n,
        {
            let fs = &hir.impls[n].functions;
            let ghost base = done;
            let mut j: usize = 0;
            while j < fs.len()
                invariant
                    program_lowerable(*hir),
                    n < hir.impls@.len(),
                    fs@ == hir.impls@[n as int].functions@,
                    j <= fs@.len(),
                    done == base + fs@.take(j as int),
                    fns@.len() == done.len(),
                    forall|q: int| 0 <= q < fns@.len() ==> fn_lowered(done[q], #[trigger] fns@[q]),
                    forall|k: int| 0 <= k < hir.fns@.len() ==> fn_lowers(#[trigger] hir.fns@[k], *hir),
                    forall|p: int, q: int|
                        0 <= p < hir.models@.len() && 0 <= q < hir.models@[p].functions@.len() ==> fn_lowers(
                            #[trigger] hir.models@[p].functions@[q],
                            *hir,
                        ),
                    forall|p: int, q: int|
                        0 <= p < n && 0 <= q < hir.impls@[p].functions@.len() ==> fn_lowers(
                            #[trigger] hir.impls@[p].functions@[q],
                            *hir,
                        ),
                    forall|q: int| 0 <= q < j ==> fn_lowers(#[trigger] fs@[q], *hir),
                decreases fs.len() - j,
            {
                proof {
                    assert(fn_lowerable(hir.impls@[n as int].functions@[j as int]));
                }
                let f = match Self::build_fn(&fs[j], hir) {
                    Ok(f) => f,
                    Err(e) => return Err(e),
                };
                fns.push(f);
                proof {
                    done = done.push(fs@[j as int]);
                    assert(done =~= base + fs@.take(j + 1));
                }
                j += 1;
            }
            proof {
                assert(fs@.take(fs@.len() as int) =~= fs@);
                assert(done =~= hir.fns@ + model_fns(hir.models@, hir.models@.len() as int) + impl_fns(
                    hir.impls@,
                    n + 1,
                ));
            }
            n += 1;
        }
        let mut structs: Vec<MirStruct> = Vec::new();
        let mut si: usize = 0;
        while si < hir.structs.len()
            invariant
                si <= hir.structs@.len(),
                structs@.len() == si,
                forall|j: int| 0 <= j < si ==> struct_lowered(hir.structs@[j], #[trigger] structs@[j]),
            decreases hir.structs.len() - si,
        {
            let st = &hir.structs[si];
            let mut fields: Vec<(String, Type)> = Vec::new();
            let mut k: usize = 0;
            while k < st.fields.len()
                invariant
                    k <= st.fields@.len(),
                    fields@.len() == k,
                    forall|q: int|
                        0 <= q < k ==> (#[trigger] fields@[q]).0@ == st.fields@[q].name@ && fields@[q].1@
                            == st.fields@[q].ty@,
                decreases st.fields.len() - k,
            {
                fields.push((st.fields[k].name.clone(), st.fields[k].ty.duplicate()));
                k += 1;
            }
            let ms = MirStruct {
                name: st.name.clone(),
                generic_params: duplicate_generic_params(&st.generic_params),
                fields,
            };
            assert(struct_lowered(*st, ms));
            structs.push(ms);
            si += 1;
        }
        let mut enums: Vec<MirEnum> = Vec::new();
        let mut ei: usize = 0;
        while ei < hir.enums.len()
            invariant
                ei <= hir.enums@.len(),
                enums@.len() == ei,
                forall|j: int| 0 <= j < ei ==> enum_lowered(hir.enums@[j], #[trigger] enums@[j]),
            decreases hir.enums.len() - ei,
        {
            let en = &hir.enums[ei];
            let mut variants: Vec<(String, Option<Type>)> = Vec::new();
            let mut k: usize = 0;
            while k < en.variants.len()
                invariant
                    k <= en.variants@.len(),
                    variants@.len() == k,
                    forall|q: int|
                        0 <= q < k ==> (#[trigger] variants@[q]).0@ == en.variants@[q].name@
                            && opt_type_model(variants@[q].1) == opt_type_model(en.variants@[q].ty),
                decreases en.variants.len() - k,
            {
                variants.push(
                    (en.variants[k].name.clone(), crate::ast::duplicate_opt_type(&en.variants[k].ty)),
                );
                k += 1;
            }
            let me = MirEnum {
                name: en.name.clone(),
                generic_params: duplicate_generic_params(&en.generic_params),
                variants,
            };
            assert(enum_lowered(*en, me));
            enums.push(me);
            ei += 1;
        }
        let mut called: Vec<IntrinsicFn> = Vec::new();
        let mut c: usize = 0;
        while c < fns.len()
            invariant
                c <= fns@.len(),
                called@ == fns_intrinsics(fns@, c as int),
            decreases fns.len() - c,
        {
            let mut found = Self::collect_intrinsics_in_body(&fns[c].body);
            called.append(&mut found);
            c += 1;
        }
        let intrinsics_used = sorted_unique(&called);
        Ok(MirProgram { structs, enums, fns, intrinsics_used })
    }
}

/// The functions in `v`, each once, in table order.
fn sorted_unique(v: &Vec<IntrinsicFn>) -> (r: Vec<IntrinsicFn>)
    ensures
        sorted_set_of(r@, v@),
{
    let table = IntrinsicFn::all();
    let mut out: Vec<IntrinsicFn> = Vec::new();
    let mut t: usize = 0;
    while t < table.len()
        invariant
            t <= table@.len(),
            table@.len() == 14,
            forall|i: int| 0 <= i < 14 ==> crate::intrinsic::fn_index(#[trigger] table@[i]) == i,
            forall|i: int| 0 <= i < out@.len() ==> crate::intrinsic::fn_index(#[trigger] out@[i]) < t,
            forall|i: int, j: int|
                0 <= i < j < out@.len() ==> crate::intrinsic::fn_index(#[trigger] out@[i])
                    < crate::intrinsic::fn_index(#[trigger] out@[j]),
            forall|f: IntrinsicFn|
                crate::intrinsic::fn_index(f) < t ==> (out@.contains(f) <==> v@.contains(f)),
            forall|f: IntrinsicFn| out@.contains(f) ==> crate::intrinsic::fn_index(f) < t,
        decreases table.len() - t,
    {
        let f = table[t];
        let mut present = false;
        let mut k: usize = 0;
        while k < v.len()
            invariant
                k <= v@.len(),
                present <==> exists|q: int| 0 <= q < k && v@[q] == f,
            decreases v.len() - k,
        {
            if v[k] == f {
                present = true;
            }
            k += 1;
        }
        let ghost old_out = out@;
        if present {
            out.push(f);
        }
        proof {
            assert(crate::intrinsic::fn_index(f) == t);
            assert forall|g: IntrinsicFn| crate::intrinsic::fn_index(g) < t + 1 implies (out@.contains(g)
                <==> v@.contains(g)) by {
                if crate::intrinsic::fn_index(g) == t {
                    lemma_fn_index_injective(g, f);
                    if present {
                        let q = choose|q: int| 0 <= q < v@.len() && v@[q] == f;
                        assert(v@[q] == g);
                        assert(out@[out@.len() - 1] == g);
                    } else {
                        if out@.contains(g) {
                            let i = choose|i: int| 0 <= i < out@.len() && out@[i] == g;
                            assert(old_out[i] == g);
                        }
                        if v@.contains(g) {
                            let q = choose|q: int| 0 <= q < v@.len() && v@[q] == g;
                            assert(v@[q] == f);
                        }
                    }
                } else {
                    if out@.contains(g) {
                        let i = choose|i: int| 0 <= i < out@.len() && out@[i] == g;
                        if i < old_out.len() {
                            assert(old_out[i] == g);
                        }
                    }
                    if old_out.contains(g) {
                        let i = choose|i: int| 0 <= i < old_out.len() && old_out[i] == g;
                        assert(out@[i] == g);
                    }
                }
            }
            assert forall|g: IntrinsicFn| out@.contains(g) implies crate::intrinsic::fn_index(g) < t + 1 by {
                let i = choose|i: int| 0 <= i < out@.len() && out@[i] == g;
                if i < old_out.len() {
                    assert(old_out[i] == g);
                }
            }
        }
        t += 1;
    }
    proof {
        assert forall|f: IntrinsicFn| out@.contains(f) <==> v@.contains(f) by {
            assert(crate::intrinsic::fn_index(f) < 14);
        }
    }
    out
}

proof fn lemma_fn_index_injective(a: IntrinsicFn, b: IntrinsicFn)
    requires
        crate::intrinsic::fn_index(a) == crate::intrinsic::fn_index(b),
    ensures
        a == b,
{
}


impl MirBuilder {
    /// Lowers one argument of a call, named or not, to an operand.
    fn build_call_arg(&mut self, arg: &HirCallArg, shared: &HirProgram) -> (r: Result<MirOperand, String>)
        requires
            old(self).wf(),
            old(self).fits(mcost_expr(arg_expr(*arg))),
        ensures
            r is Ok ==> final(self).wf() && final(self).grows(*old(self)) && final(self).drawn@
                <= old(self).drawn@ + mcost_expr(arg_expr(*arg)),
            r matches Ok(o) ==> operand_need(o) <= final(self).locals@.len(),
            r is Ok <==> lowers_expr(arg_expr(*arg), old(self).bound(), old(self).unsafe_depth > 0, old(self).in_forward, *shared),
            r is Ok ==> final(self).scope@ == old(self).scope@,
            r matches Ok(o) ==> old(self).operand_from(
                arg_expr(*arg),
                o,
                old(self).locals@.len() as nat,
                final(self).locals@.len() as nat,
            ),
            r is Ok && old(self).open_end() ==> final(self).open_end(),
            r is Ok && flat_arg(*arg) ==> final(self).current_block == old(self).current_block,
        decreases arg, 0nat,
    {
        match arg {
            HirCallArg::Positional(e) => self.build_expr(e, shared),
            HirCallArg::Named(_, e) => self.build_expr(e, shared),
        }
    }

    /// The declared type of field `field_name` of the struct that
    /// `struct_expr` has (or refers to), `()` when there is none.
    #[allow(dead_code)]
    fn lookup_field_type(&self, struct_expr: &HirExpr, field_name: &str, shared: &HirProgram) -> (r: Type)
        ensures
            r@ == match struct_of(struct_expr.ty) {
                Some(s) => match field_type(shared.structs@, s, field_name@) {
                    Some(t) => t,
                    None => TypeModel::Unit,
                },
                None => TypeModel::Unit,
            },
    {
        let struct_name = match &struct_expr.ty {
            Type::Struct(name) => name,
            Type::Generic(name, _) => name,
            Type::Ref { inner, .. } => match &**inner {
                Type::Struct(name) => name,
                Type::Generic(name, _) => name,
                _ => return Type::Unit,
            },
            _ => return Type::Unit,
        };
        match type_of_field(shared, struct_name.as_str(), field_name) {
            Some(t) => t,
            None => Type::Unit,
        }
    }
}

/// The name of the struct that a value of type `t` is, or refers to.
pub open spec fn struct_of(t: Type) -> Option<Seq<char>> {
    match t {
        Type::Struct(n) => Some(n@),
        Type::Generic(n, _) => Some(n@),
        Type::Ref { inner, .. } => match *inner {
            Type::Struct(n) => Some(n@),
            Type::Generic(n, _) => Some(n@),
            _ => None,
        },
        _ => None,
    }
}

} // verus!
