//! The typing relation of expressions: what checking an expression gives,
//! as a function of the checker's tables, the scopes in force and the
//! results of the passes that check blocks, `match` expressions, method
//! calls, qualified static calls and calls across models.
use vstd::prelude::*;
use crate::ast::{
    BinaryOp, CallArg, EnumDef, EnumVariant, Expr, ExprKind, FnDef, IfKind, Literal, Param,
    StructDef, StructField, Type, TypeModel, UnaryOp,
};
use crate::semantic::check_expr::{binop_error, binop_type, is_int_literal, type_debug};
use crate::semantic::check_generic::{Bindings, param_names, subst, unify};
use crate::semantic::check_program::{TypeChecker, is_numeric_model};
use crate::semantic::helpers::{arg_choice, arg_expr, const_int_fits, const_int_value, first_named_from, in_i64, trunc_div};
use crate::ast::ShapeDimModel;
use crate::show::int_text;
use crate::semantic::privacy::{
    apply_tag, equal_with_privacy, equal_with_privacy_ok, extract_tag, join_labels, labels_join_ok,
    strip,
};
use crate::text::decimal_text;

verus! {

/// The scopes in force, innermost last, each a map from names to types.
pub type Scopes = Seq<Map<Seq<char>, TypeModel>>;

/// What checking gives: `None` where the check does not complete (an
/// arithmetic overflow, or a pass result that was not supplied), else the
/// type or the error.
pub type Outcome = Option<Result<TypeModel, Seq<char>>>;

/// The results of the passes that the expression walk hands work to, by
/// expression number: `check_block` (for blocks and `unsafe` blocks),
/// `check_block_with_expected`, `check_match_expr`, `check_method_call`,
/// `check_qualified_static_call` and `try_cross_model_call` (a call with
/// no entry there is no call across models).
pub struct Passes {
    pub blocks: Vec<(usize, Result<Type, String>)>,
    pub blocks_expected: Vec<(usize, Result<Type, String>)>,
    pub matches: Vec<(usize, Result<Type, String>)>,
    pub method_calls: Vec<(usize, Result<Type, String>)>,
    pub qualified_calls: Vec<(usize, Result<Type, String>)>,
    pub cross_model_calls: Vec<(usize, Result<Option<Type>, String>)>,
}

pub open spec fn result_model(r: Result<Type, String>) -> Result<TypeModel, Seq<char>> {
    match r {
        Ok(t) => Ok(t@),
        Err(m) => Err(m@),
    }
}

pub open spec fn opt_result_model(r: Result<Option<Type>, String>) -> Result<Option<TypeModel>, Seq<char>> {
    match r {
        Ok(Some(t)) => Ok(Some(t@)),
        Ok(None) => Ok(None),
        Err(m) => Err(m@),
    }
}

/// The first result recorded for expression `id` in `s[i..]`.
pub open spec fn pass_from(s: Seq<(usize, Result<Type, String>)>, id: usize, i: int) -> Option<
    Result<TypeModel, Seq<char>>,
>
    decreases s.len() - i,
{
    if 0 <= i < s.len() {
        if s[i].0 == id {
            Some(result_model(s[i].1))
        } else {
            pass_from(s, id, i + 1)
        }
    } else {
        None
    }
}

/// The first cross-model result recorded for expression `id` in `s[i..]`.
pub open spec fn cross_from(s: Seq<(usize, Result<Option<Type>, String>)>, id: usize, i: int) -> Option<
    Result<Option<TypeModel>, Seq<char>>,
>
    decreases s.len() - i,
{
    if 0 <= i < s.len() {
        if s[i].0 == id {
            Some(opt_result_model(s[i].1))
        } else {
            cross_from(s, id, i + 1)
        }
    } else {
        None
    }
}

// ===== types of literals and classes of types =====

pub open spec fn literal_type(l: Literal) -> TypeModel {
    match l {
        Literal::Int8(_) => TypeModel::I8,
        Literal::Int16(_) => TypeModel::I16,
        Literal::Int32(_) => TypeModel::I32,
        Literal::Int64(_) => TypeModel::I64,
        Literal::Int128(_) => TypeModel::I128,
        Literal::UInt8(_) => TypeModel::U8,
        Literal::UInt16(_) => TypeModel::U16,
        Literal::UInt32(_) => TypeModel::U32,
        Literal::UInt64(_) => TypeModel::U64,
        Literal::UInt128(_) => TypeModel::U128,
        Literal::Isize(_) => TypeModel::I64,
        Literal::Usize(_) => TypeModel::U64,
        Literal::Float16(_) => TypeModel::F16,
        Literal::Float32(_) => TypeModel::F32,
        Literal::Float64(_) => TypeModel::F64,
        Literal::Bool(_) => TypeModel::Bool,
        Literal::Char(_) => TypeModel::Char,
        Literal::String(_) => TypeModel::Str,
        Literal::Unit => TypeModel::Unit,
        Literal::ByteString(_) => byte_slice_ref(),
    }
}

/// `&[u8]`.
pub open spec fn byte_slice_ref() -> TypeModel {
    TypeModel::Ref { mutable: false, inner: Box::new(TypeModel::Slice(Box::new(TypeModel::U8))) }
}

/// The signed numeric types: signed integers and floating point.
pub open spec fn is_signed_model(t: TypeModel) -> bool {
    match t {
        TypeModel::I8 | TypeModel::I16 | TypeModel::I32 | TypeModel::I64 | TypeModel::I128
        | TypeModel::F16 | TypeModel::F32 | TypeModel::F64 => true,
        _ => false,
    }
}

/// The integer types.
pub open spec fn is_integer_model(t: TypeModel) -> bool {
    match t {
        TypeModel::I8 | TypeModel::I16 | TypeModel::I32 | TypeModel::I64 | TypeModel::I128
        | TypeModel::U8 | TypeModel::U16 | TypeModel::U32 | TypeModel::U64 | TypeModel::U128 => true,
        _ => false,
    }
}

/// The element type that indexing a value of type `t` gives.
pub open spec fn element_type(t: TypeModel) -> Result<TypeModel, Seq<char>>
    decreases t,
{
    match t {
        TypeModel::Ref { inner, .. } => element_type(*inner),
        TypeModel::Slice(inner) => Ok(*inner),
        TypeModel::Generic(_, args) => if args.len() == 1 {
            Ok(args[0])
        } else {
            Err("type "@ + type_debug(t) + " does not support indexing"@)
        },
        TypeModel::Str => Ok(TypeModel::U8),
        _ => Err("type "@ + type_debug(t) + " does not support indexing"@),
    }
}

// ===== names =====

/// The type that the scopes `sc[..=i]` give `name`, the innermost first.
pub open spec fn scope_find(sc: Scopes, name: Seq<char>, i: int) -> Option<TypeModel>
    decreases i + 1,
{
    if i < 0 || i >= sc.len() {
        None
    } else if sc[i].dom().contains(name) {
        Some(sc[i][name])
    } else {
        scope_find(sc, name, i - 1)
    }
}

/// What a bare identifier denotes under the scopes `sc`: `self`, then the
/// scopes, then the global constants.
pub open spec fn sym_type(tc: TypeChecker, sc: Scopes, name: Seq<char>) -> Option<TypeModel> {
    if name == "self"@ && tc.current_self_type is Some {
        Some(tc.current_self_type.unwrap()@)
    } else {
        match scope_find(sc, name, sc.len() - 1) {
            Some(t) => Some(t),
            None => tc.consts.lookup(name),
        }
    }
}

pub open spec fn struct_index(s: Seq<StructDef>, name: Seq<char>, i: int) -> Option<int>
    decreases s.len() - i,
{
    if 0 <= i < s.len() {
        if s[i].name@ == name {
            Some(i)
        } else {
            struct_index(s, name, i + 1)
        }
    } else {
        None
    }
}

pub open spec fn enum_index(s: Seq<EnumDef>, name: Seq<char>, i: int) -> Option<int>
    decreases s.len() - i,
{
    if 0 <= i < s.len() {
        if s[i].name@ == name {
            Some(i)
        } else {
            enum_index(s, name, i + 1)
        }
    } else {
        None
    }
}

pub open spec fn fn_index(s: Seq<FnDef>, name: Seq<char>, i: int) -> Option<int>
    decreases s.len() - i,
{
    if 0 <= i < s.len() {
        if s[i].name@ == name {
            Some(i)
        } else {
            fn_index(s, name, i + 1)
        }
    } else {
        None
    }
}

pub open spec fn variant_index(s: Seq<EnumVariant>, name: Seq<char>, i: int) -> Option<int>
    decreases s.len() - i,
{
    if 0 <= i < s.len() {
        if s[i].name@ == name {
            Some(i)
        } else {
            variant_index(s, name, i + 1)
        }
    } else {
        None
    }
}

/// The first field named `name` in `s[i..]`.
pub open spec fn field_first(s: Seq<StructField>, name: Seq<char>, i: int) -> Option<int>
    decreases s.len() - i,
{
    if 0 <= i < s.len() {
        if s[i].name@ == name {
            Some(i)
        } else {
            field_first(s, name, i + 1)
        }
    } else {
        None
    }
}

/// The last field named `name` in `s[..n]` (a later declaration of a name
/// replaces an earlier one in the field table).
pub open spec fn field_last(s: Seq<StructField>, name: Seq<char>, n: int) -> Option<int>
    decreases n,
{
    if n <= 0 || n > s.len() {
        None
    } else if s[n - 1].name@ == name {
        Some(n - 1)
    } else {
        field_last(s, name, n - 1)
    }
}

/// Whether `names` holds `name`.
pub open spec fn names_hold(names: Seq<String>, name: Seq<char>) -> bool {
    exists|k: int| 0 <= k < names.len() && #[trigger] names[k]@ == name
}

/// Whether the type `ty` has a method `m` in the method table: the first
/// entry for `ty` lists it.
pub open spec fn has_method(ms: Seq<(String, Vec<String>)>, ty: Seq<char>, m: Seq<char>, i: int) -> bool
    decreases ms.len() - i,
{
    if 0 <= i < ms.len() {
        if ms[i].0@ == ty {
            names_hold(ms[i].1@, m)
        } else {
            has_method(ms, ty, m, i + 1)
        }
    } else {
        false
    }
}

/// Whether the enum `e` has a variant named `v`.
pub open spec fn has_variant(e: EnumDef, v: Seq<char>) -> bool {
    variant_index(e.variants@, v, 0) is Some
}

/// The names of the enums in `s[..n]` that have a variant named `v`, in
/// order.
pub open spec fn owners_upto(s: Seq<EnumDef>, v: Seq<char>, n: int) -> Seq<Seq<char>>
    decreases n,
{
    if n <= 0 || n > s.len() {
        Seq::empty()
    } else if has_variant(s[n - 1], v) {
        owners_upto(s, v, n - 1).push(s[n - 1].name@)
    } else {
        owners_upto(s, v, n - 1)
    }
}

pub open spec fn variant_owners(s: Seq<EnumDef>, v: Seq<char>) -> Seq<Seq<char>> {
    owners_upto(s, v, s.len() as int)
}

/// The names joined by `", "`.
pub open spec fn join_names(s: Seq<Seq<char>>) -> Seq<char>
    decreases s.len(),
{
    if s.len() == 0 {
        Seq::empty()
    } else if s.len() == 1 {
        s[0]
    } else {
        join_names(s.drop_last()) + ", "@ + s.last()
    }
}

// ===== generic bindings =====

/// `names[i]` bound to `args[i]` for `i < n`, a later name replacing an
/// earlier one.
pub open spec fn preset(names: Seq<Seq<char>>, args: Seq<TypeModel>, n: int) -> Bindings
    decreases n,
{
    if n <= 0 || n > names.len() || n > args.len() {
        Map::empty()
    } else {
        preset(names, args, n - 1).insert(names[n - 1], args[n - 1])
    }
}

/// The bindings that an expected type `Name<args>` presets for a
/// construction of `name` with the generic parameters `names`.
pub open spec fn preset_from(expected: Option<TypeModel>, name: Seq<char>, names: Seq<Seq<char>>) -> Bindings {
    match expected {
        Some(TypeModel::Generic(x, xs)) => if x == name && xs.len() == names.len() {
            preset(names, xs, names.len() as int)
        } else {
            Map::empty()
        },
        _ => Map::empty(),
    }
}

/// The type that a variable takes after unification: its binding, or the
/// variable itself when unbound.
pub open spec fn bound_or_param(b: Bindings, n: Seq<char>) -> TypeModel {
    if b.dom().contains(n) {
        b[n]
    } else {
        TypeModel::TypeParam(n)
    }
}

pub open spec fn bound_args(b: Bindings, names: Seq<Seq<char>>) -> Seq<TypeModel> {
    Seq::new(names.len(), |i: int| bound_or_param(b, names[i]))
}

/// The type of a constructed enum value.
pub open spec fn enum_result(name: Seq<char>, names: Seq<Seq<char>>, b: Bindings) -> TypeModel {
    if names.len() == 0 {
        TypeModel::Enum(name)
    } else {
        TypeModel::Generic(name, bound_args(b, names))
    }
}

/// The type of a constructed struct value.
pub open spec fn struct_result(name: Seq<char>, names: Seq<Seq<char>>, b: Bindings) -> TypeModel {
    if names.len() == 0 {
        TypeModel::Struct(name)
    } else {
        TypeModel::Generic(name, bound_args(b, names))
    }
}

/// An argument's expression.
pub open spec fn arg_of(a: CallArg) -> Expr {
    match a {
        CallArg::Positional(e) => e,
        CallArg::Named(_, e) => e,
    }
}

// ===== error texts =====

pub open spec fn missing_arg_text(name: Seq<char>, pos: nat) -> Seq<char> {
    "argument '"@ + name + "' not found (tried position "@ + decimal_text(pos + 1)
        + " and name '"@ + name + "')"@
}

pub open spec fn neg_text(t: TypeModel) -> Seq<char> {
    "cannot apply unary `-` to "@ + type_debug(t)
        + "（只支持有符号数值类型，无符号类型想取负得先 `as` 成有符号类型）"@
}

pub open spec fn cast_text(t: TypeModel, to: TypeModel) -> Seq<char> {
    "invalid cast: `as` 目前只支持数值类型之间的转换，得到 "@ + type_debug(t) + " as "@ + type_debug(to)
}

pub open spec fn no_else_text() -> Seq<char> {
    "if expression requires an else branch（如果这个 if 不需要产出值、纯粹是副作用，请显式写成 `lack if`）"@
}

pub open spec fn lack_else_text() -> Seq<char> {
    "`lack if` must not have an else branch（既然写了 else，就该用普通 if，不要用 lack if）"@
}

/// The error for a `lack if` whose then branch is not of type unit; `long`
/// adds the hint that `walk_expr` gives.
pub open spec fn lack_unit_text(t: TypeModel, long: bool) -> Seq<char> {
    "`lack if` 的 then 分支必须是 Unit 类型（纯副作用、不产出值），得到 "@ + type_debug(t) + if long {
        "（如果这个 if 需要产出值，请改成普通 if 并补上 else 分支）"@
    } else {
        ""@
    }
}

pub open spec fn md003_text() -> Seq<char> {
    "error[MD003]: runtime tensor condition must use explicit dynamic operator `tensor.cond`"@
}

pub open spec fn md001_text() -> Seq<char> {
    "error[MD001]: side-effect not allowed in model block"@
}

pub open spec fn md002_text() -> Seq<char> {
    "error[MD002]: recursion not allowed in model block; graph must be topologically sortable"@
}

// ===== the walk =====

/// How an `if` ends once its then branch has type `tt`: `els` is what the
/// else branch gives (`None` when there is none), `long` chooses the longer
/// text for a `lack if` whose then branch is not of type unit.
pub open spec fn if_finish(kind: IfKind, tt: TypeModel, els: Option<Outcome>, long: bool) -> Outcome {
    match kind {
        IfKind::Normal => match els {
            None => Some(Err(no_else_text())),
            Some(Some(Ok(et))) => if !equal_with_privacy_ok(tt, et) {
                None
            } else if !equal_with_privacy(tt, et) {
                Some(
                    Err(
                        "if branches have different types: then = "@ + type_debug(tt) + ", else = "@
                            + type_debug(et),
                    ),
                )
            } else if !labels_join_ok(tt, et) {
                None
            } else {
                Some(Ok(apply_tag(strip(tt), join_labels(tt, et))))
            },
            Some(other) => other,
        },
        IfKind::Lack => if els is Some {
            Some(Err(lack_else_text()))
        } else if strip(tt) != TypeModel::Unit {
            Some(Err(lack_unit_text(tt, long)))
        } else {
            Some(Ok(TypeModel::Unit))
        },
    }
}

/// The type of `e` under the scopes `sc`.
pub open spec fn walk_expr(tc: TypeChecker, p: Passes, sc: Scopes, e: Expr) -> Outcome
    decreases e, 2int,
{
    match e.kind {
        ExprKind::Literal(l) => Some(Ok(literal_type(l))),
        ExprKind::Ident(n) => match sym_type(tc, sc, n@) {
            Some(t) => Some(Ok(t)),
            None => Some(Err("undefined variable or constant: "@ + n@)),
        },
        ExprKind::Sym(_) => Some(Ok(TypeModel::I32)),
        ExprKind::Closure { param, body } => walk_expr(
            tc,
            p,
            sc.push(Map::empty().insert(param@, TypeModel::F32)),
            *body,
        ),
        ExprKind::BinaryOp { op, left, right } => match walk_expr(tc, p, sc, *left) {
            Some(Ok(lt)) => match walk_expr(tc, p, sc, *right) {
                Some(Ok(rt)) => match binop_type(op, lt, rt, is_int_literal(*left), is_int_literal(*right)) {
                    Some(base) => if labels_join_ok(lt, rt) {
                        Some(Ok(apply_tag(base, join_labels(lt, rt))))
                    } else {
                        None
                    },
                    None => Some(Err(binop_error(op, lt, rt))),
                },
                other => other,
            },
            other => other,
        },
        ExprKind::Unary { op, expr } => match walk_expr(tc, p, sc, *expr) {
            Some(Ok(t)) => match op {
                UnaryOp::Neg => if is_signed_model(strip(t)) {
                    Some(Ok(apply_tag(strip(t), extract_tag(t))))
                } else {
                    Some(Err(neg_text(t)))
                },
                UnaryOp::Not => if strip(t) == TypeModel::Bool {
                    Some(Ok(apply_tag(TypeModel::Bool, extract_tag(t))))
                } else {
                    Some(Err("cannot apply `!` to non-bool type: "@ + type_debug(t)))
                },
            },
            other => other,
        },
        ExprKind::Cast { expr, ty } => match walk_expr(tc, p, sc, *expr) {
            Some(Ok(t)) => if !is_numeric_model(strip(t)) || !is_numeric_model(ty@) {
                Some(Err(cast_text(t, ty@)))
            } else {
                Some(Ok(apply_tag(ty@, extract_tag(t))))
            },
            other => other,
        },
        ExprKind::Index { expr, index } => match walk_expr(tc, p, sc, *expr) {
            Some(Ok(bt)) => match walk_expr(tc, p, sc, *index) {
                Some(Ok(it)) => if !is_integer_model(strip(it)) {
                    Some(Err("index must be an integer type, got "@ + type_debug(it)))
                } else {
                    match element_type(strip(bt)) {
                        Ok(el) => Some(Ok(apply_tag(el, extract_tag(bt)))),
                        Err(m) => Some(Err(m)),
                    }
                },
                other => other,
            },
            other => other,
        },
        ExprKind::LackSlice(ty) => Some(
            Ok(TypeModel::Ref { mutable: false, inner: Box::new(TypeModel::Slice(Box::new(ty@))) }),
        ),
        ExprKind::Call { .. } => walk_call(tc, p, sc, e),
        ExprKind::Block(_) => pass_from(p.blocks@, e.id, 0),
        ExprKind::StructInit { struct_name, fields } => walk_struct_init(
            tc,
            p,
            sc,
            struct_name@,
            fields@,
            None,
        ),
        ExprKind::FieldAccess { struct_expr, field_name } => match walk_expr(tc, p, sc, *struct_expr) {
            Some(Ok(t)) => Some(field_access(tc, strip(t), field_name@)),
            other => other,
        },
        ExprKind::Range { start, end } => match walk_expr(tc, p, sc, *start) {
            Some(Ok(st)) => match walk_expr(tc, p, sc, *end) {
                Some(Ok(et)) => if (st == TypeModel::I32 || st == TypeModel::I64) && (et == TypeModel::I32
                    || et == TypeModel::I64) {
                    Some(Ok(TypeModel::I32))
                } else {
                    Some(Err("range bounds must be integers"@))
                },
                other => other,
            },
            other => other,
        },
        ExprKind::If { .. } => walk_if(tc, p, sc, e),
        ExprKind::ArrayLiteral(es) => if es@.len() == 0 {
            Some(Err("array literal cannot be empty"@))
        } else {
            walk_array(tc, p, sc, es@, 0, Seq::empty())
        },
        ExprKind::EnumVariantAccess { enum_name, variant_name } => match enum_index(
            tc.enums@,
            enum_name@,
            0,
        ) {
            None => Some(Err("undefined enum: "@ + enum_name@)),
            Some(k) => if has_variant(tc.enums@[k], variant_name@) {
                Some(Ok(TypeModel::Enum(enum_name@)))
            } else {
                Some(Err("enum "@ + enum_name@ + " has no variant named "@ + variant_name@))
            },
        },
        ExprKind::EnumVariantConstruction { enum_name, variant_name, args } => walk_evc(
            tc,
            p,
            sc,
            e.id,
            enum_name@,
            variant_name@,
            args@,
            None,
        ),
        ExprKind::Match(_) => pass_from(p.matches@, e.id, 0),
        ExprKind::UnsafeBlock(_) => pass_from(p.blocks@, e.id, 0),
    }
}

/// The type of the field `f` of a value of (unlabelled) type `st`.
pub open spec fn field_access(tc: TypeChecker, st: TypeModel, f: Seq<char>) -> Result<TypeModel, Seq<char>> {
    match st {
        TypeModel::Struct(name) => plain_field(tc, name, f),
        TypeModel::Generic(name, args) => match struct_index(tc.structs@, name, 0) {
            None => Err("undefined struct: "@ + name),
            Some(k) => {
                let sd = tc.structs@[k];
                let names = param_names(sd.generic_params@);
                let n = if names.len() <= args.len() {
                    names.len()
                } else {
                    args.len()
                };
                match field_first(sd.fields@, f, 0) {
                    Some(j) => Ok(strip(subst(sd.fields@[j].ty@, preset(names, args, n as int)))),
                    None => Err("field '"@ + f + "' not found in struct "@ + name),
                }
            },
        },
        TypeModel::SelfType => match tc.current_self_type {
            Some(t) => match t@ {
                TypeModel::Struct(name) => plain_field(tc, name, f),
                _ => Err("field access on SelfType with no current self type"@),
            },
            None => Err("field access on SelfType with no current self type"@),
        },
        _ => Err("field access on non-struct type: "@ + type_debug(st)),
    }
}

/// The type of the field `f` of the struct `name`.
pub open spec fn plain_field(tc: TypeChecker, name: Seq<char>, f: Seq<char>) -> Result<TypeModel, Seq<char>> {
    match struct_index(tc.structs@, name, 0) {
        None => Err("undefined struct: "@ + name),
        Some(k) => match field_first(tc.structs@[k].fields@, f, 0) {
            Some(j) => Ok(strip(tc.structs@[k].fields@[j].ty@)),
            None => Err("field '"@ + f + "' not found in struct "@ + name),
        },
    }
}

/// An array literal's elements `es[i..]`, after the values `vals` of the
/// elements before.
pub open spec fn walk_array(tc: TypeChecker, p: Passes, sc: Scopes, es: Seq<Expr>, i: int, vals: Seq<i64>) -> Outcome
    decreases es, es.len() - i,
{
    if 0 <= i < es.len() {
        match walk_expr(tc, p, sc, es[i]) {
            Some(Ok(t)) => if t == TypeModel::I32 || t == TypeModel::I64 {
                if !const_int_fits(es[i]) {
                    None
                } else {
                    match const_int_value(es[i]) {
                        Some(v) => walk_array(tc, p, sc, es, i + 1, vals.push(v as i64)),
                        None => Some(
                            Err("array element is not a constant integer: expression #"@ + decimal_text(
                                es[i].id as nat,
                            )),
                        ),
                    }
                }
            } else {
                Some(Err("array literal elements must be integers, got "@ + type_debug(t)))
            },
            other => other,
        }
    } else {
        Some(Ok(TypeModel::ConstIntArray(vals)))
    }
}

/// An `if` expression.
pub open spec fn walk_if(tc: TypeChecker, p: Passes, sc: Scopes, e: Expr) -> Outcome
    decreases e, 1int,
{
    match e.kind {
        ExprKind::If { kind, cond, then_expr, else_expr } => {
            let guard = if tc.in_model {
                match walk_expr(tc, p, sc, *cond) {
                    Some(Ok(ct)) => if strip(ct) is Tensor {
                        Some(Some(Err(md003_text())))
                    } else {
                        None
                    },
                    other => Some(other),
                }
            } else {
                None
            };
            match guard {
                Some(g) => g,
                None => match walk_expr(tc, p, sc, *cond) {
                    Some(Ok(ct)) => if ct != TypeModel::Bool {
                        Some(Err("if condition must be bool"@))
                    } else {
                        match walk_expr(tc, p, sc, *then_expr) {
                            Some(Ok(tt)) => if_finish(
                                kind,
                                tt,
                                match else_expr {
                                    Some(x) => Some(walk_expr(tc, p, sc, *x)),
                                    None => None,
                                },
                                true,
                            ),
                            other => other,
                        }
                    },
                    other => other,
                },
            }
        },
        _ => None,
    }
}

/// An `if` expression checked against an expected type `x`.
pub open spec fn walk_if_expected(tc: TypeChecker, p: Passes, sc: Scopes, e: Expr, x: TypeModel) -> Outcome
    decreases e, 1int,
{
    match e.kind {
        ExprKind::If { kind, cond, then_expr, else_expr } => match walk_expr(tc, p, sc, *cond) {
            Some(Ok(ct)) => if ct != TypeModel::Bool {
                Some(Err("if condition must be bool"@))
            } else {
                match walk_with_expected(tc, p, sc, *then_expr, Some(x)) {
                    Some(Ok(tt)) => if_finish(
                        kind,
                        tt,
                        match else_expr {
                            Some(y) => Some(walk_with_expected(tc, p, sc, *y, Some(x))),
                            None => None,
                        },
                        false,
                    ),
                    other => other,
                }
            },
            other => other,
        },
        _ => None,
    }
}

/// The arguments `args[i..]` checked in order: `Some(None)` when all check,
/// `Some(Some(m))` for the first error `m`.
pub open spec fn walk_args_all(tc: TypeChecker, p: Passes, sc: Scopes, args: Seq<CallArg>, i: int) -> Option<
    Option<Seq<char>>,
>
    decreases args, args.len() - i,
{
    if 0 <= i < args.len() {
        match walk_expr(
            tc,
            p,
            sc,
            match args[i] {
                CallArg::Positional(x) => x,
                CallArg::Named(_, x) => x,
            },
        ) {
            Some(Ok(_)) => walk_args_all(tc, p, sc, args, i + 1),
            Some(Err(m)) => Some(Some(m)),
            None => None,
        }
    } else {
        Some(None)
    }
}

/// The arguments `args[i..]` of a call to `func` unified against the
/// parameters, from the bindings `b`.
pub open spec fn walk_fn_args(
    tc: TypeChecker,
    p: Passes,
    sc: Scopes,
    func: Seq<char>,
    params: Seq<Param>,
    args: Seq<CallArg>,
    i: int,
    b: Bindings,
) -> Option<Result<Bindings, Seq<char>>>
    decreases args, args.len() - i,
{
    if 0 <= i < args.len() && i < params.len() {
        match walk_expr(
            tc,
            p,
            sc,
            match args[i] {
                CallArg::Positional(x) => x,
                CallArg::Named(_, x) => x,
            },
        ) {
            Some(Ok(at)) => {
                let (ok, b2) = unify(at, params[i].ty@, b);
                if ok {
                    walk_fn_args(tc, p, sc, func, params, args, i + 1, b2)
                } else {
                    Some(
                        Err(
                            "type mismatch in call to `"@ + func + "`: parameter `"@ + params[i].name@
                                + "` expected "@ + type_debug(params[i].ty@) + ", got "@ + type_debug(at),
                        ),
                    )
                }
            },
            Some(Err(m)) => Some(Err(m)),
            None => None,
        }
    } else {
        Some(Ok(b))
    }
}

/// A closure checked with its parameter of type `param_ty` in a scope of its
/// own, against the expected return type `expected`.
pub open spec fn walk_closure(tc: TypeChecker, p: Passes, e: Expr, param_ty: TypeModel, expected: Option<TypeModel>) -> Outcome
    decreases e, 1int,
{
    match e.kind {
        ExprKind::Closure { param, body } => match walk_expr(
            tc,
            p,
            seq![Map::empty().insert(param@, param_ty)],
            *body,
        ) {
            Some(Ok(rt)) => match expected {
                Some(x) => if !equal_with_privacy_ok(rt, x) {
                    None
                } else if equal_with_privacy(rt, x) {
                    Some(Ok(rt))
                } else {
                    Some(
                        Err(
                            "Closure return type "@ + type_debug(rt) + " does not match expected "@
                                + type_debug(x),
                        ),
                    )
                },
                None => Some(Ok(rt)),
            },
            other => other,
        },
        _ => Some(Err("Expected a closure"@)),
    }
}

/// `tensor.cond(input, condition, then, else)`.
pub open spec fn walk_tensor_cond(tc: TypeChecker, p: Passes, sc: Scopes, args: Seq<CallArg>) -> Outcome
    decreases args, 0int,
{
    match (
        arg_choice(args, 0, "input"@),
        arg_choice(args, 1, "condition"@),
        arg_choice(args, 2, "then"@),
        arg_choice(args, 3, "else"@),
    ) {
        (None, _, _, _) => Some(Err(missing_arg_text("input"@, 0))),
        (_, None, _, _) => Some(Err(missing_arg_text("condition"@, 1))),
        (_, _, None, _) => Some(Err(missing_arg_text("then"@, 2))),
        (_, _, _, None) => Some(Err(missing_arg_text("else"@, 3))),
        (Some(ki), Some(kc), Some(kt), Some(ke)) => {
            if 0 <= ki < args.len() && 0 <= kc < args.len() && 0 <= kt < args.len() && 0 <= ke < args.len() {
                match walk_expr(
                    tc,
                    p,
                    sc,
                    match args[ki] {
                        CallArg::Positional(x) => x,
                        CallArg::Named(_, x) => x,
                    },
                ) {
                    Some(Ok(it)) => match walk_closure(
                        tc,
                        p,
                        match args[kc] {
                            CallArg::Positional(x) => x,
                            CallArg::Named(_, x) => x,
                        },
                        it,
                        Some(TypeModel::Bool),
                    ) {
                        Some(Ok(_)) => match walk_closure(
                            tc,
                            p,
                            match args[kt] {
                                CallArg::Positional(x) => x,
                                CallArg::Named(_, x) => x,
                            },
                            it,
                            Some(it),
                        ) {
                            Some(Ok(tt)) => match walk_closure(
                                tc,
                                p,
                                match args[ke] {
                                    CallArg::Positional(x) => x,
                                    CallArg::Named(_, x) => x,
                                },
                                it,
                                Some(it),
                            ) {
                                Some(Ok(et)) => if !equal_with_privacy_ok(tt, et) {
                                    None
                                } else if !equal_with_privacy(tt, et) {
                                    Some(Err("tensor.cond 'then' and 'else' branches have different types"@))
                                } else {
                                    Some(Ok(it))
                                },
                                other => other,
                            },
                            other => other,
                        },
                        other => other,
                    },
                    other => other,
                }
            } else {
                None
            }
        },
    }
}

/// `tensor.while_loop(init, cond, body)`.
pub open spec fn walk_while_loop(tc: TypeChecker, p: Passes, sc: Scopes, args: Seq<CallArg>) -> Outcome
    decreases args, 0int,
{
    match (arg_choice(args, 0, "init"@), arg_choice(args, 1, "cond"@), arg_choice(args, 2, "body"@)) {
        (None, _, _) => Some(Err(missing_arg_text("init"@, 0))),
        (_, None, _) => Some(Err(missing_arg_text("cond"@, 1))),
        (_, _, None) => Some(Err(missing_arg_text("body"@, 2))),
        (Some(ki), Some(kc), Some(kb)) => {
            if 0 <= ki < args.len() && 0 <= kc < args.len() && 0 <= kb < args.len() {
                match walk_expr(
                    tc,
                    p,
                    sc,
                    match args[ki] {
                        CallArg::Positional(x) => x,
                        CallArg::Named(_, x) => x,
                    },
                ) {
                    Some(Ok(it)) => match walk_closure(
                        tc,
                        p,
                        match args[kc] {
                            CallArg::Positional(x) => x,
                            CallArg::Named(_, x) => x,
                        },
                        it,
                        Some(TypeModel::Bool),
                    ) {
                        Some(Ok(_)) => match walk_closure(
                            tc,
                            p,
                            match args[kb] {
                                CallArg::Positional(x) => x,
                                CallArg::Named(_, x) => x,
                            },
                            it,
                            Some(it),
                        ) {
                            Some(Ok(_)) => Some(Ok(it)),
                            other => other,
                        },
                        other => other,
                    },
                    other => other,
                }
            } else {
                None
            }
        },
    }
}

/// A call to a free function `functions[k]`.
pub open spec fn walk_fn_call(tc: TypeChecker, p: Passes, sc: Scopes, func: Seq<char>, f: FnDef, args: Seq<CallArg>) -> Outcome
    decreases args, args.len() + 1,
{
    if f.params@.len() != args.len() {
        Some(
            Err(
                "function `"@ + func + "` expects "@ + decimal_text(f.params@.len()) + " arguments, got "@
                    + decimal_text(args.len()),
            ),
        )
    } else {
        match walk_fn_args(tc, p, sc, func, f.params@, args, 0, Map::empty()) {
            Some(Ok(b)) => Some(
                Ok(
                    match f.return_type {
                        Some(r) => subst(r@, b),
                        None => TypeModel::Unit,
                    },
                ),
            ),
            Some(Err(m)) => Some(Err(m)),
            None => None,
        }
    }
}

/// A call expression.
pub open spec fn walk_call(tc: TypeChecker, p: Passes, sc: Scopes, e: Expr) -> Outcome
    decreases e, 1int,
{
    match e.kind {
        ExprKind::Call { qualifier, func, args, is_method } => {
            let owners = variant_owners(tc.enums@, func@);
            let f = func@;
            if qualifier is Some {
                pass_from(p.qualified_calls@, e.id, 0)
            } else if !is_method && owners.len() == 1 {
                walk_evc(tc, p, sc, e.id, owners[0], f, args@, None)
            } else if !is_method && owners.len() > 1 {
                Some(
                    Err(
                        "ambiguous bare variant `"@ + f + "`: matches multiple enums ("@ + join_names(owners)
                            + "), use a qualified path like EnumName::"@ + f + "(...)"@,
                    ),
                )
            } else if f == "print"@ {
                if tc.in_model {
                    Some(Err(md001_text()))
                } else {
                    match walk_args_all(tc, p, sc, args@, 0) {
                        Some(None) => Some(Ok(TypeModel::I32)),
                        Some(Some(m)) => Some(Err(m)),
                        None => None,
                    }
                }
            } else if f == "panic"@ {
                if args@.len() != 1 {
                    Some(Err("`panic` expects exactly 1 argument (a message)"@))
                } else {
                    match walk_expr(
                        tc,
                        p,
                        sc,
                        match args@[0] {
                            CallArg::Positional(x) => x,
                            CallArg::Named(_, x) => x,
                        },
                    ) {
                        Some(Ok(t)) => if strip(t) != TypeModel::Str {
                            Some(Err("`panic` expects a string argument, got "@ + type_debug(t)))
                        } else {
                            Some(Ok(TypeModel::Never))
                        },
                        other => other,
                    }
                }
            } else if f == "from_utf8_unchecked"@ {
                if args@.len() != 1 {
                    Some(Err("`from_utf8_unchecked` expects exactly 1 argument"@))
                } else {
                    match walk_expr(
                        tc,
                        p,
                        sc,
                        match args@[0] {
                            CallArg::Positional(x) => x,
                            CallArg::Named(_, x) => x,
                        },
                    ) {
                        Some(Ok(t)) => if strip(t) != byte_slice_ref() {
                            Some(Err("`from_utf8_unchecked` expects &[u8], got "@ + type_debug(t)))
                        } else {
                            Some(
                                Ok(
                                    TypeModel::Ref {
                                        mutable: false,
                                        inner: Box::new(TypeModel::Str),
                                    },
                                ),
                            )
                        },
                        other => other,
                    }
                }
            } else {
                match cross_from(p.cross_model_calls@, e.id, 0) {
                    Some(Err(m)) => Some(Err(m)),
                    Some(Ok(Some(t))) => Some(Ok(t)),
                    _ => if tc.in_model && names_hold(tc.fn_stack@, f) {
                        Some(Err(md002_text()))
                    } else if !is_method && fn_index(tc.functions@, f, 0) is Some {
                        walk_fn_call(tc, p, sc, f, tc.functions@[fn_index(tc.functions@, f, 0).unwrap()], args@)
                    } else if f == "tensor.cond"@ {
                        walk_tensor_cond(tc, p, sc, args@)
                    } else if f == "tensor.while_loop"@ {
                        walk_while_loop(tc, p, sc, args@)
                    } else if f == "embedding"@ {
                        walk_embedding(tc, p, sc, args@)
                    } else if f == "linear"@ {
                        walk_linear(tc, p, sc, args@)
                    } else if f == "conv2d"@ {
                        walk_conv2d(tc, p, sc, args@)
                    } else if f == "max_pool2d"@ {
                        walk_max_pool2d(tc, p, sc, args@)
                    } else if f == "flatten"@ {
                        walk_flatten(tc, p, sc, args@)
                    } else if f == "reshape"@ {
                        walk_reshape(tc, p, sc, args@)
                    } else if f == "relu"@ || f == "dropout"@ || f == "layer_norm"@ || f == "sum"@ {
                        if args@.len() < 1 {
                            Some(Err(f + " requires at least 1 argument"@))
                        } else {
                            match walk_expr(
                                tc,
                                p,
                                sc,
                                match args@[0] {
                                    CallArg::Positional(x) => x,
                                    CallArg::Named(_, x) => x,
                                },
                            ) {
                                Some(Ok(t)) => if f == "sum"@ {
                                    Some(Ok(TypeModel::F32))
                                } else {
                                    Some(Ok(t))
                                },
                                other => other,
                            }
                        }
                    } else if is_method {
                        pass_from(p.method_calls@, e.id, 0)
                    } else {
                        match walk_args_all(tc, p, sc, args@, 0) {
                            Some(None) => Some(Err("undefined function or method: "@ + f)),
                            Some(Some(m)) => Some(Err(m)),
                            None => None,
                        }
                    },
                }
            }
        },
        _ => None,
    }
}

/// A construction of the variant `vn` of the enum `en` (expression number
/// `id`) with the arguments `args`, against the expected type `expected`.
/// A name that is no enum but has a method `vn` is a qualified static call.
pub open spec fn walk_evc(
    tc: TypeChecker,
    p: Passes,
    sc: Scopes,
    id: usize,
    en: Seq<char>,
    vn: Seq<char>,
    args: Seq<CallArg>,
    expected: Option<TypeModel>,
) -> Outcome
    decreases args, 1int,
{
    match enum_index(tc.enums@, en, 0) {
        None => if has_method(tc.methods@, en, vn, 0) {
            pass_from(p.qualified_calls@, id, 0)
        } else {
            Some(Err("undefined enum: "@ + en))
        },
        Some(k) => {
            let ed = tc.enums@[k];
            let names = param_names(ed.generic_params@);
            let b0 = preset_from(expected, en, names);
            match variant_index(ed.variants@, vn, 0) {
                None => Some(Err("enum "@ + en + " has no variant "@ + vn)),
                Some(j) => match ed.variants@[j].ty {
                    Some(vt) => if args.len() != 1 {
                        Some(Err("variant expects 1 argument"@))
                    } else {
                        let ae = match args[0] {
                            CallArg::Positional(x) => x,
                            CallArg::Named(_, x) => x,
                        };
                        match walk_expr(tc, p, sc, ae) {
                            Some(Ok(at)) => {
                                let resolved = subst(vt@, b0);
                                let eff = if is_int_literal(ae) && is_numeric_model(strip(resolved)) {
                                    resolved
                                } else {
                                    at
                                };
                                let (ok, b1) = unify(eff, vt@, b0);
                                if ok {
                                    Some(Ok(enum_result(en, names, b1)))
                                } else {
                                    Some(
                                        Err(
                                            "type mismatch: expected "@ + type_debug(vt@) + ", got "@
                                                + type_debug(at),
                                        ),
                                    )
                                }
                            },
                            other => other,
                        }
                    },
                    None => if args.len() != 0 {
                        Some(Err("variant takes no arguments"@))
                    } else {
                        Some(Ok(enum_result(en, names, b0)))
                    },
                },
            }
        },
    }
}

/// An initialisation of the struct `name` with `fields`, against the
/// expected type `expected`.
pub open spec fn walk_struct_init(
    tc: TypeChecker,
    p: Passes,
    sc: Scopes,
    name: Seq<char>,
    fields: Seq<(String, Expr)>,
    expected: Option<TypeModel>,
) -> Outcome
    decreases fields, fields.len() + 1,
{
    match struct_index(tc.structs@, name, 0) {
        None => Some(Err("undefined struct: "@ + name)),
        Some(k) => {
            let sd = tc.structs@[k];
            let names = param_names(sd.generic_params@);
            if fields.len() != sd.fields@.len() {
                Some(
                    Err(
                        "struct "@ + name + " expects "@ + decimal_text(sd.fields@.len()) + " fields, got "@
                            + decimal_text(fields.len()),
                    ),
                )
            } else {
                match walk_fields(tc, p, sc, name, sd.fields@, fields, 0, preset_from(expected, name, names)) {
                    Some(Ok(b)) => Some(Ok(struct_result(name, names, b))),
                    Some(Err(m)) => Some(Err(m)),
                    None => None,
                }
            }
        },
    }
}

/// The field initialisers `fields[i..]` of the struct `name`, declared
/// with `decl`, from the bindings `b`.
pub open spec fn walk_fields(
    tc: TypeChecker,
    p: Passes,
    sc: Scopes,
    name: Seq<char>,
    decl: Seq<StructField>,
    fields: Seq<(String, Expr)>,
    i: int,
    b: Bindings,
) -> Option<Result<Bindings, Seq<char>>>
    decreases fields, fields.len() - i,
{
    if 0 <= i < fields.len() {
        let fname = fields[i].0@;
        match field_last(decl, fname, decl.len() as int) {
            None => Some(Err("unknown field '"@ + fname + "' in struct "@ + name)),
            Some(j) => {
                let ety = decl[j].ty@;
                match walk_with_expected(tc, p, sc, fields[i].1, Some(ety)) {
                    Some(Ok(at)) => {
                        let eff = if is_int_literal(fields[i].1) && is_numeric_model(strip(ety)) {
                            ety
                        } else {
                            at
                        };
                        let (ok, b2) = unify(eff, ety, b);
                        if ok {
                            walk_fields(tc, p, sc, name, decl, fields, i + 1, b2)
                        } else {
                            Some(
                                Err(
                                    "field '"@ + fname + "' type mismatch: expected "@ + type_debug(ety)
                                        + ", got "@ + type_debug(at),
                                ),
                            )
                        }
                    },
                    Some(Err(m)) => Some(Err(m)),
                    None => None,
                }
            },
        }
    } else {
        Some(Ok(b))
    }
}

/// The type of `e` checked against the expected type `expected`: an
/// expected type presets the generic bindings of a construction, and a bare
/// integer literal (or its negation) takes an expected numeric type.
pub open spec fn walk_with_expected(tc: TypeChecker, p: Passes, sc: Scopes, e: Expr, expected: Option<TypeModel>) -> Outcome
    decreases e, 3int,
{
    match expected {
        None => walk_expr(tc, p, sc, e),
        Some(x) => match e.kind {
            ExprKind::EnumVariantConstruction { enum_name, variant_name, args } => walk_evc(
                tc,
                p,
                sc,
                e.id,
                enum_name@,
                variant_name@,
                args@,
                Some(x),
            ),
            ExprKind::StructInit { struct_name, fields } => walk_struct_init(
                tc,
                p,
                sc,
                struct_name@,
                fields@,
                Some(x),
            ),
            ExprKind::Call { qualifier, func, args, is_method } => {
                let owners = variant_owners(tc.enums@, func@);
                if qualifier is None && !is_method && owners.len() == 1 {
                    walk_evc(tc, p, sc, e.id, owners[0], func@, args@, Some(x))
                } else {
                    walk_expr(tc, p, sc, e)
                }
            },
            ExprKind::Literal(Literal::Int32(_)) => if is_numeric_model(strip(x)) {
                Some(Ok(x))
            } else {
                walk_expr(tc, p, sc, e)
            },
            ExprKind::Unary { op, expr } => if op == UnaryOp::Neg && is_int_literal(*expr) && is_signed_model(
                strip(x),
            ) {
                Some(Ok(x))
            } else {
                walk_expr(tc, p, sc, e)
            },
            ExprKind::Block(_) => pass_from(p.blocks_expected@, e.id, 0),
            ExprKind::If { .. } => walk_if_expected(tc, p, sc, e, x),
            _ => walk_expr(tc, p, sc, e),
        },
    }
}


// ===== tensor operators =====

/// What `extract_int_arg(args, name)` gives: `None` where evaluating the
/// argument overflows.
pub open spec fn int_arg(args: Seq<CallArg>, name: Seq<char>) -> Option<Result<int, Seq<char>>> {
    match first_named_from(args, name, 0) {
        Some(k) => if !const_int_fits(arg_expr(args[k])) {
            None
        } else {
            match const_int_value(arg_expr(args[k])) {
                Some(v) => Some(Ok(v)),
                None => Some(Err("parameter '"@ + name + "' is not a constant integer expression"@)),
            }
        },
        None => Some(Err("parameter '"@ + name + "' not found"@)),
    }
}

/// The value of an optional integer argument, `default` when it cannot be
/// had.
pub open spec fn int_arg_or(args: Seq<CallArg>, name: Seq<char>, default: int) -> Option<int> {
    match int_arg(args, name) {
        None => None,
        Some(Ok(v)) => Some(v),
        Some(Err(_)) => Some(default),
    }
}

/// A tensor of element type `dtype` and shape `shape`.
pub open spec fn tensor(dtype: TypeModel, shape: Seq<ShapeDimModel>) -> TypeModel {
    TypeModel::Tensor { dtype: Box::new(dtype), shape }
}

/// `(x + 2 * padding - kernel) / stride + 1` in `i64`, `None` on overflow or
/// a zero stride.
pub open spec fn conv_out(x: int, padding: int, kernel: int, stride: int) -> Option<int> {
    let a = 2 * padding;
    let b = x + a;
    let c = b - kernel;
    if !in_i64(a) || !in_i64(b) || !in_i64(c) || stride == 0 || !in_i64(trunc_div(c, stride))
        || !in_i64(trunc_div(c, stride) + 1) {
        None
    } else {
        Some(trunc_div(c, stride) + 1)
    }
}

/// `(x - kernel) / stride + 1` in `i64`, `None` on overflow or a zero stride.
pub open spec fn pool_out(x: int, kernel: int, stride: int) -> Option<int> {
    let c = x - kernel;
    if !in_i64(c) || stride == 0 || !in_i64(trunc_div(c, stride)) || !in_i64(trunc_div(c, stride) + 1) {
        None
    } else {
        Some(trunc_div(c, stride) + 1)
    }
}

/// One output dimension `v` computed from a constant input dimension: an
/// error `err` where it is not positive.
pub open spec fn dim_from(v: Option<int>, err: Seq<char>) -> Option<Result<ShapeDimModel, Seq<char>>> {
    match v {
        None => None,
        Some(v) => if v <= 0 {
            Some(Err(err))
        } else {
            Some(Ok(ShapeDimModel::Const(v as usize)))
        },
    }
}

/// One output dimension of a convolution: a constant dimension `d` gives
/// `conv_out` of it; any other dimension stays dynamic.
pub open spec fn conv_dim(d: ShapeDimModel, padding: int, kernel: int, stride: int, err: Seq<char>) -> Option<
    Result<ShapeDimModel, Seq<char>>,
> {
    match d {
        ShapeDimModel::Const(x) => dim_from(conv_out((x as i64) as int, padding, kernel, stride), err),
        _ => Some(Ok(ShapeDimModel::Dyn)),
    }
}

/// One output dimension of a pooling: a constant dimension `d` gives
/// `pool_out` of it; any other dimension stays dynamic.
pub open spec fn pool_dim(d: ShapeDimModel, kernel: int, stride: int, err: Seq<char>) -> Option<
    Result<ShapeDimModel, Seq<char>>,
> {
    match d {
        ShapeDimModel::Const(x) => dim_from(pool_out((x as i64) as int, kernel, stride), err),
        _ => Some(Ok(ShapeDimModel::Dyn)),
    }
}

/// The product of the constant dimensions of `shape[i..]` up to the first
/// other one, times `acc`, and whether all were constant; `None` where the
/// product overflows.
pub open spec fn flat_total(shape: Seq<ShapeDimModel>, i: int, acc: int) -> Option<(bool, int)>
    decreases shape.len() - i,
{
    if 0 <= i < shape.len() {
        match shape[i] {
            ShapeDimModel::Const(c) => if acc * c > usize::MAX {
                None
            } else {
                flat_total(shape, i + 1, acc * c)
            },
            _ => Some((false, acc)),
        }
    } else {
        Some((true, acc))
    }
}

pub open spec fn first_arg_type(tc: TypeChecker, p: Passes, sc: Scopes, args: Seq<CallArg>) -> Outcome
    decreases args, 0int,
{
    if args.len() > 0 {
        walk_expr(
            tc,
            p,
            sc,
            match args[0] {
                CallArg::Positional(x) => x,
                CallArg::Named(_, x) => x,
            },
        )
    } else {
        None
    }
}

/// `embedding(x, num_embeddings = .., embedding_dim = ..)`.
pub open spec fn walk_embedding(tc: TypeChecker, p: Passes, sc: Scopes, args: Seq<CallArg>) -> Outcome
    decreases args, 1int,
{
    if args.len() < 2 {
        Some(Err("embedding requires at least two arguments"@))
    } else {
        match first_arg_type(tc, p, sc, args) {
            Some(Ok(rt)) => match int_arg(args, "num_embeddings"@) {
                None => None,
                Some(Err(m)) => Some(Err(m)),
                Some(Ok(_)) => match int_arg(args, "embedding_dim"@) {
                    None => None,
                    Some(Err(m)) => Some(Err(m)),
                    Some(Ok(d)) => match strip(rt) {
                        TypeModel::Tensor { shape, .. } => Some(
                            Ok(
                                apply_tag(
                                    tensor(TypeModel::F32, shape.push(ShapeDimModel::Const(d as usize))),
                                    extract_tag(rt),
                                ),
                            ),
                        ),
                        _ => Some(Err("embedding expects a tensor, got "@ + type_debug(rt))),
                    },
                },
            },
            other => other,
        }
    }
}

/// `linear(x, in = .., out = ..)`.
pub open spec fn walk_linear(tc: TypeChecker, p: Passes, sc: Scopes, args: Seq<CallArg>) -> Outcome
    decreases args, 1int,
{
    if args.len() < 2 {
        Some(Err("linear requires at least two arguments"@))
    } else {
        match first_arg_type(tc, p, sc, args) {
            Some(Ok(rt)) => match int_arg(args, "in"@) {
                None => None,
                Some(Err(m)) => Some(Err(m)),
                Some(Ok(iv)) => match int_arg(args, "out"@) {
                    None => None,
                    Some(Err(m)) => Some(Err(m)),
                    Some(Ok(ov)) => match strip(rt) {
                        TypeModel::Tensor { dtype, shape } => if shape.len() == 0 {
                            Some(Err("tensor must have at least one dimension for linear"@))
                        } else {
                            match shape.last() {
                                ShapeDimModel::Const(c) if c != (iv as usize) => Some(
                                    Err(
                                        "shape mismatch in linear: input last dim "@ + decimal_text(c as nat)
                                            + " does not match 'in' value "@ + int_text(iv),
                                    ),
                                ),
                                _ => Some(
                                    Ok(
                                        apply_tag(
                                            tensor(
                                                *dtype,
                                                shape.update(
                                                    shape.len() - 1,
                                                    ShapeDimModel::Const(ov as usize),
                                                ),
                                            ),
                                            extract_tag(rt),
                                        ),
                                    ),
                                ),
                            }
                        },
                        _ => Some(Err("linear expects a tensor, got "@ + type_debug(rt))),
                    },
                },
            },
            other => other,
        }
    }
}

/// `conv2d(x, in = .., out = .., kernel = .., stride = .., padding = ..)`.
pub open spec fn walk_conv2d(tc: TypeChecker, p: Passes, sc: Scopes, args: Seq<CallArg>) -> Outcome
    decreases args, 1int,
{
    if args.len() < 2 {
        Some(Err("conv2d requires at least 2 arguments"@))
    } else {
        match first_arg_type(tc, p, sc, args) {
            Some(Ok(rt)) => match strip(rt) {
                TypeModel::Tensor { dtype, shape } => if shape.len() != 3 && shape.len() != 4 {
                    Some(Err("conv2d expects 3D [C, H, W] or 4D [B, C, H, W] tensor"@))
                } else {
                    let ci: int = if shape.len() == 4 {
                        1
                    } else {
                        0
                    };
                    match int_arg(args, "in"@) {
                        None => None,
                        Some(Err(m)) => Some(Err(m)),
                        Some(Ok(_)) => match int_arg(args, "out"@) {
                            None => None,
                            Some(Err(m)) => Some(Err(m)),
                            Some(Ok(ov)) => match int_arg(args, "kernel"@) {
                                None => None,
                                Some(Err(m)) => Some(Err(m)),
                                Some(Ok(k)) => match (int_arg_or(args, "stride"@, 1), int_arg_or(
                                    args,
                                    "padding"@,
                                    0,
                                )) {
                                    (Some(st), Some(pd)) => match conv_dim(shape[ci + 1], pd, k, st, "conv2d output height non-positive"@) {
                                        None => None,
                                        Some(Err(m)) => Some(Err(m)),
                                        Some(Ok(h)) => match conv_dim(shape[ci + 2], pd, k, st, "conv2d output width non-positive"@) {
                                            None => None,
                                            Some(Err(m)) => Some(Err(m)),
                                            Some(Ok(w)) => Some(
                                                Ok(
                                                    apply_tag(
                                                        tensor(
                                                            *dtype,
                                                            shape.update(ci, ShapeDimModel::Const(ov as usize)).update(
                                                                ci + 1,
                                                                h,
                                                            ).update(ci + 2, w),
                                                        ),
                                                        extract_tag(rt),
                                                    ),
                                                ),
                                            ),
                                        },
                                    },
                                    _ => None,
                                },
                            },
                        },
                    }
                },
                _ => Some(Err("conv2d expects a tensor, got "@ + type_debug(rt))),
            },
            other => other,
        }
    }
}

/// `max_pool2d(x, kernel = .., stride = ..)`.
pub open spec fn walk_max_pool2d(tc: TypeChecker, p: Passes, sc: Scopes, args: Seq<CallArg>) -> Outcome
    decreases args, 1int,
{
    if args.len() < 1 {
        Some(Err("max_pool2d requires at least 1 argument"@))
    } else {
        match first_arg_type(tc, p, sc, args) {
            Some(Ok(rt)) => match int_arg(args, "kernel"@) {
                None => None,
                Some(Err(m)) => Some(Err(m)),
                Some(Ok(k)) => match int_arg_or(args, "stride"@, k) {
                    None => None,
                    Some(st) => match strip(rt) {
                        TypeModel::Tensor { dtype, shape } => if shape.len() != 3 && shape.len() != 4 {
                            Some(Err("max_pool2d expects 3D or 4D tensor"@))
                        } else {
                            let hi: int = if shape.len() == 4 {
                                2
                            } else {
                                1
                            };
                            match pool_dim(shape[hi], k, st, "max_pool2d output height non-positive"@) {
                                None => None,
                                Some(Err(m)) => Some(Err(m)),
                                Some(Ok(h)) => match pool_dim(shape[hi + 1], k, st, "max_pool2d output width non-positive"@) {
                                    None => None,
                                    Some(Err(m)) => Some(Err(m)),
                                    Some(Ok(w)) => Some(
                                        Ok(
                                            apply_tag(
                                                tensor(*dtype, shape.update(hi, h).update(hi + 1, w)),
                                                extract_tag(rt),
                                            ),
                                        ),
                                    ),
                                },
                            }
                        },
                        _ => Some(Err("max_pool2d expects a tensor, got "@ + type_debug(rt))),
                    },
                },
            },
            other => other,
        }
    }
}

/// `flatten(x)`.
pub open spec fn walk_flatten(tc: TypeChecker, p: Passes, sc: Scopes, args: Seq<CallArg>) -> Outcome
    decreases args, 1int,
{
    if args.len() < 1 {
        Some(Err("flatten requires at least 1 argument"@))
    } else {
        match first_arg_type(tc, p, sc, args) {
            Some(Ok(rt)) => match strip(rt) {
                TypeModel::Tensor { dtype, shape } => match flat_total(shape, 0, 1) {
                    None => None,
                    Some((all, total)) => Some(
                        Ok(
                            apply_tag(
                                if all {
                                    tensor(*dtype, seq![ShapeDimModel::Const(total as usize)])
                                } else {
                                    tensor(*dtype, shape)
                                },
                                extract_tag(rt),
                            ),
                        ),
                    ),
                },
                _ => Some(Err("flatten expects a tensor, got "@ + type_debug(rt))),
            },
            other => other,
        }
    }
}

/// `reshape(x, [dims..])`.
pub open spec fn walk_reshape(tc: TypeChecker, p: Passes, sc: Scopes, args: Seq<CallArg>) -> Outcome
    decreases args, 1int,
{
    if args.len() < 2 {
        Some(Err("reshape requires target shape"@))
    } else {
        match first_arg_type(tc, p, sc, args) {
            Some(Ok(rt)) => match walk_expr(
                tc,
                p,
                sc,
                match args[1] {
                    CallArg::Positional(x) => x,
                    CallArg::Named(_, x) => x,
                },
            ) {
                Some(Ok(TypeModel::ConstIntArray(vals))) => match strip(rt) {
                    TypeModel::Tensor { dtype, .. } => Some(
                        Ok(
                            apply_tag(
                                tensor(
                                    *dtype,
                                    Seq::new(vals.len(), |i: int| ShapeDimModel::Const(vals[i] as usize)),
                                ),
                                extract_tag(rt),
                            ),
                        ),
                    ),
                    _ => Some(Err("reshape expects a tensor"@)),
                },
                Some(Ok(_)) => Some(Err("reshape expects a constant integer array for shape"@)),
                other => other,
            },
            other => other,
        }
    }
}

} // verus!
