//! Laws of the expression walk: what a type annotation, a literal and a
//! type's methods decide, how scopes shadow, how `if`, unary, binary and
//! cast expressions are typed, and the shapes the tensor operators give.
use vstd::prelude::*;
use crate::ast::{BinaryOp, CallArg, Expr, ExprKind, FnDef, Param, IfKind, Literal, ShapeDimModel, StructField, Type, TypeModel, UnaryOp};
use crate::semantic::check_generic::{
    agrees, image, law_unify_extends, lemma_subst_agrees, lemma_unify_binds, lemma_unify_complete, mentions_param,
    param_names, subst, unify, unify_plain,
};
use crate::semantic::check_program::{TypeChecker, is_numeric_model};
use crate::semantic::privacy::{apply_tag, extract_tag, join_labels, labels_join_ok, strip};
use crate::semantic::check_expr::{binop_type, is_int_literal};
use crate::semantic::walk_spec::{
    Passes, Scopes, bound_args, enum_index, field_last, first_arg_type, flat_total, has_method, int_arg,
    conv_dim, conv_out, field_access, field_first, int_arg_or, pool_dim, pool_out, pass_from, preset, scope_find, struct_index, sym_type, variant_index, walk_conv2d, walk_evc, walk_expr,
    walk_array, walk_embedding, walk_fields, walk_fn_args, walk_fn_call, walk_flatten, walk_linear, walk_reshape, walk_max_pool2d, walk_struct_init, walk_with_expected,
};
use crate::semantic::helpers::{in_i64, trunc_div};
use crate::semantic::check_generic::Bindings;

verus! {

proof fn lemma_preset_lookup(names: Seq<Seq<char>>, xs: Seq<TypeModel>, n: int, i: int)
    requires
        names.no_duplicates(),
        0 <= i < n <= names.len(),
        n <= xs.len(),
    ensures
        preset(names, xs, n).dom().contains(names[i]),
        preset(names, xs, n)[names[i]] == xs[i],
    decreases n,
{
    if i < n - 1 {
        lemma_preset_lookup(names, xs, n - 1, i);
    }
}

proof fn lemma_preset_args(names: Seq<Seq<char>>, xs: Seq<TypeModel>)
    requires
        names.no_duplicates(),
        names.len() == xs.len(),
    ensures
        bound_args(preset(names, xs, names.len() as int), names) == xs,
{
    let b = preset(names, xs, names.len() as int);
    assert forall|i: int| 0 <= i < names.len() implies bound_args(b, names)[i] == xs[i] by {
        lemma_preset_lookup(names, xs, names.len() as int, i);
    }
    assert(bound_args(b, names) =~= xs);
}

/// A bare integer literal checked against a numeric expected type (labels
/// looked through) takes that type.
pub proof fn law_literal_takes_expected_type(tc: TypeChecker, p: Passes, sc: Scopes, e: Expr, x: TypeModel)
    requires
        e.kind matches ExprKind::Literal(Literal::Int32(_)),
        is_numeric_model(strip(x)),
    ensures
        walk_with_expected(tc, p, sc, e, Some(x)) == Some(Ok::<TypeModel, Seq<char>>(x)),
{
}

/// `Type::name(..)` where no enum `Type` is declared: when `name` is one of
/// the methods of `Type` it is a qualified static call, and gives what that
/// call's check gave; otherwise the enum is undefined.
pub proof fn law_qualified_call_falls_back_to_methods(
    tc: TypeChecker,
    p: Passes,
    sc: Scopes,
    id: usize,
    ty: Seq<char>,
    name: Seq<char>,
    args: Seq<CallArg>,
    expected: Option<TypeModel>,
)
    requires
        enum_index(tc.enums@, ty, 0) is None,
    ensures
        has_method(tc.methods@, ty, name, 0) ==> walk_evc(tc, p, sc, id, ty, name, args, expected) == pass_from(
            p.qualified_calls@,
            id,
            0,
        ),
        !has_method(tc.methods@, ty, name, 0) ==> walk_evc(tc, p, sc, id, ty, name, args, expected) == Some(
            Err::<TypeModel, Seq<char>>("undefined enum: "@ + ty),
        ),
{
}

/// An annotation `E<xs>` on a construction of a variant of the generic enum
/// `E` that carries no payload gives exactly `E<xs>`: the generic arguments
/// that nothing else fixes come from the annotation.
pub proof fn law_annotation_fixes_payloadless_variant(
    tc: TypeChecker,
    p: Passes,
    sc: Scopes,
    id: usize,
    en: Seq<char>,
    vn: Seq<char>,
    xs: Seq<TypeModel>,
)
    requires
        enum_index(tc.enums@, en, 0) matches Some(k) && {
            let ed = tc.enums@[k];
            &&& variant_index(ed.variants@, vn, 0) matches Some(j) && ed.variants@[j].ty is None
            &&& param_names(ed.generic_params@).no_duplicates()
            &&& xs.len() == ed.generic_params@.len()
            &&& xs.len() > 0
        },
    ensures
        walk_evc(tc, p, sc, id, en, vn, Seq::empty(), Some(TypeModel::Generic(en, xs))) == Some(
            Ok::<TypeModel, Seq<char>>(TypeModel::Generic(en, xs)),
        ),
{
    let k = enum_index(tc.enums@, en, 0).unwrap();
    let names = param_names(tc.enums@[k].generic_params@);
    lemma_preset_args(names, xs);
}

/// An annotation `E<xs>` on a construction of a variant of the generic enum
/// `E` whose payload is the `i`-th generic parameter, from a bare integer
/// literal, gives exactly `E<xs>` where the annotation's `i`-th argument is
/// numeric: the literal takes that type, and the other arguments come from
/// the annotation (so `Result::Ok(1)` under `Result<i32, i32>` is a
/// `Result<i32, i32>`).
pub proof fn law_annotation_fixes_literal_payload(
    tc: TypeChecker,
    p: Passes,
    sc: Scopes,
    id: usize,
    en: Seq<char>,
    vn: Seq<char>,
    arg: CallArg,
    xs: Seq<TypeModel>,
    i: int,
)
    requires
        enum_index(tc.enums@, en, 0) matches Some(k) && {
            let ed = tc.enums@[k];
            let names = param_names(ed.generic_params@);
            &&& variant_index(ed.variants@, vn, 0) matches Some(j) && ed.variants@[j].ty matches Some(vt)
                && vt@ == TypeModel::TypeParam(names[i])
            &&& names.no_duplicates()
            &&& xs.len() == names.len()
            &&& 0 <= i < xs.len()
        },
        (match arg {
            CallArg::Positional(x) => x,
            CallArg::Named(_, x) => x,
        }).kind matches ExprKind::Literal(Literal::Int32(_)),
        is_numeric_model(strip(xs[i])),
    ensures
        walk_evc(tc, p, sc, id, en, vn, seq![arg], Some(TypeModel::Generic(en, xs))) == Some(
            Ok::<TypeModel, Seq<char>>(TypeModel::Generic(en, xs)),
        ),
{
    let k = enum_index(tc.enums@, en, 0).unwrap();
    let names = param_names(tc.enums@[k].generic_params@);
    lemma_preset_args(names, xs);
    lemma_preset_lookup(names, xs, names.len() as int, i);
}

/// The initialiser `f` names a field of `decl` whose declared type is
/// numeric (without a label), and is a bare integer literal.
pub open spec fn literal_for_numeric_field(decl: Seq<StructField>, f: (String, Expr)) -> bool {
    &&& field_last(decl, f.0@, decl.len() as int) matches Some(j) && is_numeric_model(decl[j].ty@)
    &&& f.1.kind matches ExprKind::Literal(Literal::Int32(_))
}

proof fn lemma_literal_fields(
    tc: TypeChecker,
    p: Passes,
    sc: Scopes,
    name: Seq<char>,
    decl: Seq<StructField>,
    fields: Seq<(String, Expr)>,
    i: int,
    b: Bindings,
)
    requires
        0 <= i <= fields.len(),
        forall|k: int| i <= k < fields.len() ==> literal_for_numeric_field(decl, #[trigger] fields[k]),
    ensures
        walk_fields(tc, p, sc, name, decl, fields, i, b) == Some(Ok::<Bindings, Seq<char>>(b)),
    decreases fields.len() - i,
{
    if i < fields.len() {
        assert(literal_for_numeric_field(decl, fields[i]));
        let j = field_last(decl, fields[i].0@, decl.len() as int).unwrap();
        let ety = decl[j].ty@;
        assert(strip(ety) == ety);
        law_literal_takes_expected_type(tc, p, sc, fields[i].1, ety);
        assert(unify(ety, ety, b) == (true, b));
        lemma_literal_fields(tc, p, sc, name, decl, fields, i + 1, b);
    }
}

/// Bare integer literals initialising the numeric fields of a struct
/// without generic parameters take the fields' declared types: the
/// initialisation is accepted whatever numeric types the fields have.
pub proof fn law_struct_literals_take_field_types(
    tc: TypeChecker,
    p: Passes,
    sc: Scopes,
    name: Seq<char>,
    fields: Seq<(String, Expr)>,
    expected: Option<TypeModel>,
)
    requires
        struct_index(tc.structs@, name, 0) matches Some(k) && {
            let sd = tc.structs@[k];
            &&& sd.generic_params@.len() == 0
            &&& fields.len() == sd.fields@.len()
            &&& forall|i: int| 0 <= i < fields.len() ==> literal_for_numeric_field(sd.fields@, #[trigger] fields[i])
        },
    ensures
        walk_struct_init(tc, p, sc, name, fields, expected) == Some(
            Ok::<TypeModel, Seq<char>>(TypeModel::Struct(name)),
        ),
{
    let k = struct_index(tc.structs@, name, 0).unwrap();
    let sd = tc.structs@[k];
    let names = param_names(sd.generic_params@);
    lemma_literal_fields(
        tc,
        p,
        sc,
        name,
        sd.fields@,
        fields,
        0,
        crate::semantic::walk_spec::preset_from(expected, name, names),
    );
}

/// A type with no privacy label on it or behind its references.
pub open spec fn unlabelled(t: TypeModel) -> bool {
    strip(t) == t && extract_tag(t) is None
}

/// An `if` with an `else`, outside a model, whose condition is a `bool`:
/// where both branches have one unlabelled type it has that type; where
/// they have different unlabelled types it is refused.
pub proof fn law_if_branch_types(tc: TypeChecker, p: Passes, sc: Scopes, e: Expr, t: TypeModel, u: TypeModel)
    requires
        !tc.in_model,
        e.kind matches ExprKind::If { kind, cond, then_expr, else_expr } && kind == IfKind::Normal
            && else_expr is Some && walk_expr(tc, p, sc, *cond) == Some(Ok::<TypeModel, Seq<char>>(TypeModel::Bool))
            && walk_expr(tc, p, sc, *then_expr) == Some(Ok::<TypeModel, Seq<char>>(t)) && walk_expr(
            tc,
            p,
            sc,
            *else_expr.unwrap(),
        ) == Some(Ok::<TypeModel, Seq<char>>(u)),
        unlabelled(t),
        unlabelled(u),
    ensures
        t == u ==> walk_expr(tc, p, sc, e) == Some(Ok::<TypeModel, Seq<char>>(t)),
        t != u ==> walk_expr(tc, p, sc, e) matches Some(Err(_)),
{
    assert(walk_expr(tc, p, sc, e) == crate::semantic::walk_spec::walk_if(tc, p, sc, e));
}

/// An `if` whose condition is not a `bool` is refused, outside a model.
pub proof fn law_if_condition_bool(tc: TypeChecker, p: Passes, sc: Scopes, e: Expr, c: TypeModel)
    requires
        !tc.in_model,
        e.kind matches ExprKind::If { cond, .. } && walk_expr(tc, p, sc, *cond) == Some(
            Ok::<TypeModel, Seq<char>>(c),
        ),
        c != TypeModel::Bool,
    ensures
        walk_expr(tc, p, sc, e) == Some(Err::<TypeModel, Seq<char>>("if condition must be bool"@)),
{
    assert(walk_expr(tc, p, sc, e) == crate::semantic::walk_spec::walk_if(tc, p, sc, e));
}

/// A `lack if` (no value) with a `bool` condition, outside a model, is of
/// the unit type when its branch is; an `else` on it, or a branch of
/// another type, is refused.
pub proof fn law_lack_if(tc: TypeChecker, p: Passes, sc: Scopes, e: Expr, t: TypeModel)
    requires
        !tc.in_model,
        e.kind matches ExprKind::If { kind, cond, then_expr, .. } && kind == IfKind::Lack && walk_expr(
            tc,
            p,
            sc,
            *cond,
        ) == Some(Ok::<TypeModel, Seq<char>>(TypeModel::Bool)) && walk_expr(tc, p, sc, *then_expr) == Some(
            Ok::<TypeModel, Seq<char>>(t),
        ),
    ensures
        e.kind->If_else_expr is Some ==> walk_expr(tc, p, sc, e) matches Some(Err(_)),
        e.kind->If_else_expr is None && strip(t) == TypeModel::Unit ==> walk_expr(tc, p, sc, e) == Some(
            Ok::<TypeModel, Seq<char>>(TypeModel::Unit),
        ),
        strip(t) != TypeModel::Unit ==> walk_expr(tc, p, sc, e) matches Some(Err(_)),
{
    assert(walk_expr(tc, p, sc, e) == crate::semantic::walk_spec::walk_if(tc, p, sc, e));
}

proof fn lemma_scope_find_below(sc: Scopes, m: Map<Seq<char>, TypeModel>, n: Seq<char>, i: int)
    requires
        i < sc.len(),
    ensures
        scope_find(sc.push(m), n, i) == scope_find(sc, n, i),
    decreases i + 1,
{
    if i >= 0 && !sc[i].dom().contains(n) {
        lemma_scope_find_below(sc, m, n, i - 1);
    }
}

/// A name resolves to its binding in the innermost scope that binds it: a
/// scope opened on top shadows the outer ones for the names it binds and
/// leaves the others as they were.
pub proof fn law_inner_scope_shadows(sc: Scopes, m: Map<Seq<char>, TypeModel>, n: Seq<char>)
    ensures
        m.dom().contains(n) ==> scope_find(sc.push(m), n, sc.len() as int) == Some(m[n]),
        !m.dom().contains(n) ==> scope_find(sc.push(m), n, sc.len() as int) == scope_find(
            sc,
            n,
            sc.len() - 1,
        ),
{
    if !m.dom().contains(n) {
        lemma_scope_find_below(sc, m, n, sc.len() - 1);
    }
}

/// A name bound in some scope is found there, and one bound nowhere (and
/// no constant) is undefined.
pub proof fn law_ident_lookup(tc: TypeChecker, p: Passes, sc: Scopes, e: Expr)
    requires
        e.kind matches ExprKind::Ident(n) && n@ != "self"@,
    ensures
        e.kind matches ExprKind::Ident(n) && (sym_type(tc, sc, n@) matches Some(t) ==> walk_expr(tc, p, sc, e)
            == Some(Ok::<TypeModel, Seq<char>>(t))),
        e.kind matches ExprKind::Ident(n) && (scope_find(sc, n@, sc.len() - 1) matches Some(t) ==> walk_expr(
            tc,
            p,
            sc,
            e,
        ) == Some(Ok::<TypeModel, Seq<char>>(t))),
        e.kind matches ExprKind::Ident(n) && (sym_type(tc, sc, n@) is None ==> walk_expr(tc, p, sc, e) matches Some(
            Err(_),
        )),
{
}

/// A constant dimension `d` that differs from `i`.
pub open spec fn clashes(d: ShapeDimModel, i: int) -> bool {
    d matches ShapeDimModel::Const(c) && c != (i as usize)
}

/// `linear(x, in = i, out = o)` on a tensor whose last dimension is `i`
/// (or not a constant) keeps the element type, the leading dimensions and
/// the label, and makes the last dimension `o`; a constant last dimension
/// other than `i` is refused.
pub proof fn law_linear_shape(
    tc: TypeChecker,
    p: Passes,
    sc: Scopes,
    args: Seq<CallArg>,
    t: TypeModel,
    i: int,
    o: int,
)
    requires
        args.len() >= 2,
        first_arg_type(tc, p, sc, args) == Some(Ok::<TypeModel, Seq<char>>(t)),
        strip(t) is Tensor,
        strip(t)->Tensor_shape.len() > 0,
        int_arg(args, "in"@) == Some(Ok::<int, Seq<char>>(i)),
        int_arg(args, "out"@) == Some(Ok::<int, Seq<char>>(o)),
    ensures
        clashes(strip(t)->Tensor_shape.last(), i) ==> walk_linear(tc, p, sc, args) matches Some(Err(_)),
        !clashes(strip(t)->Tensor_shape.last(), i) ==> (walk_linear(tc, p, sc, args) matches Some(Ok(r))
            && extract_tag(r) == extract_tag(t) && strip(r) is Tensor && strip(r)->Tensor_dtype == strip(
            t,
        )->Tensor_dtype && strip(r)->Tensor_shape.len() == strip(t)->Tensor_shape.len() && strip(
            r,
        )->Tensor_shape.last() == ShapeDimModel::Const(o as usize) && strip(r)->Tensor_shape.drop_last()
            == strip(t)->Tensor_shape.drop_last()),
{
    match extract_tag(t) {
        Some(tag) => crate::semantic::privacy::law_apply_then_extract(
            crate::semantic::walk_spec::tensor(
                *strip(t)->Tensor_dtype,
                strip(t)->Tensor_shape.update(
                    strip(t)->Tensor_shape.len() - 1,
                    ShapeDimModel::Const(o as usize),
                ),
            ),
            tag,
        ),
        None => {},
    }
}

/// `h` windows, `s` apart, are what a span of `c` past the first window
/// holds: the last one starts within the span and one more would not.
pub open spec fn windows(c: int, s: int, h: int) -> bool {
    s * (h - 1) <= c < s * h
}

/// Bounds under which the arithmetic of an output dimension cannot
/// overflow.
pub open spec fn small(x: int) -> bool {
    0 <= x < 0x4000_0000
}

proof fn lemma_windows(c: int, s: int)
    requires
        0 <= c,
        0 < s,
    ensures
        trunc_div(c, s) == c / s,
        windows(c, s, c / s + 1),
        0 <= c / s <= c,
{
    assert(s * (c / s) <= c < s * (c / s + 1) && 0 <= c / s <= c) by (nonlinear_arith)
        requires
            0 <= c,
            0 < s,
    ;
}

proof fn lemma_conv_dim(x: usize, pd: int, k: int, st: int, err: Seq<char>)
    requires
        small(x as int),
        small(pd),
        small(k),
        small(st),
        st > 0,
        x + 2 * pd >= k,
    ensures
        conv_dim(ShapeDimModel::Const(x), pd, k, st, err) matches Some(Ok(ShapeDimModel::Const(h)))
            && windows(x + 2 * pd - k, st, h as int),
{
    let c = x + 2 * pd - k;
    lemma_windows(c, st);
    assert(((x as i64) as int) == x);
    assert(conv_out(x as int, pd, k, st) == Some(c / st + 1));
    assert(((c / st + 1) as usize) as int == c / st + 1);
}

proof fn lemma_pool_dim(x: usize, k: int, st: int, err: Seq<char>)
    requires
        small(x as int),
        small(k),
        small(st),
        st > 0,
        x >= k,
    ensures
        pool_dim(ShapeDimModel::Const(x), k, st, err) matches Some(Ok(ShapeDimModel::Const(h)))
            && windows(x - k, st, h as int),
{
    let c = x - k;
    lemma_windows(c, st);
    assert(((x as i64) as int) == x);
    assert(pool_out(x as int, k, st) == Some(c / st + 1));
    assert(((c / st + 1) as usize) as int == c / st + 1);
}

/// `conv2d(x, in = .., out = o, kernel = k, stride = s, padding = p)` on a
/// `[C, H, W]` or `[B, C, H, W]` tensor whose height and width are
/// constants with `H + 2p >= k` and `W + 2p >= k`: the channels become `o`
/// and the height and width become the number of windows of size `k`,
/// `s` apart, that fit the padded input; the element type, any batch
/// dimension and the label are kept.
pub proof fn law_conv2d_shape(
    tc: TypeChecker,
    p: Passes,
    sc: Scopes,
    args: Seq<CallArg>,
    t: TypeModel,
    h: usize,
    w: usize,
    o: int,
    k: int,
    st: int,
    pd: int,
)
    requires
        args.len() >= 2,
        first_arg_type(tc, p, sc, args) == Some(Ok::<TypeModel, Seq<char>>(t)),
        strip(t) is Tensor,
        strip(t)->Tensor_shape.len() == 3 || strip(t)->Tensor_shape.len() == 4,
        strip(t)->Tensor_shape[strip(t)->Tensor_shape.len() - 2] == ShapeDimModel::Const(h),
        strip(t)->Tensor_shape[strip(t)->Tensor_shape.len() - 1] == ShapeDimModel::Const(w),
        int_arg(args, "in"@) matches Some(Ok(_)),
        int_arg(args, "out"@) == Some(Ok::<int, Seq<char>>(o)),
        int_arg(args, "kernel"@) == Some(Ok::<int, Seq<char>>(k)),
        int_arg(args, "stride"@) == Some(Ok::<int, Seq<char>>(st)),
        int_arg(args, "padding"@) == Some(Ok::<int, Seq<char>>(pd)),
        small(h as int),
        small(w as int),
        small(k),
        small(st),
        small(pd),
        st > 0,
        h + 2 * pd >= k,
        w + 2 * pd >= k,
    ensures
        walk_conv2d(tc, p, sc, args) matches Some(Ok(r)) && {
            let n = strip(t)->Tensor_shape.len();
            let rs = strip(r)->Tensor_shape;
            &&& extract_tag(r) == extract_tag(t)
            &&& strip(r) is Tensor
            &&& strip(r)->Tensor_dtype == strip(t)->Tensor_dtype
            &&& rs.len() == n
            &&& n == 4 ==> rs[0] == strip(t)->Tensor_shape[0]
            &&& rs[n - 3] == ShapeDimModel::Const(o as usize)
            &&& rs[n - 2] matches ShapeDimModel::Const(h2) && windows(h + 2 * pd - k, st, h2 as int)
            &&& rs[n - 1] matches ShapeDimModel::Const(w2) && windows(w + 2 * pd - k, st, w2 as int)
        },
{
    let shape = strip(t)->Tensor_shape;
    let n = shape.len();
    lemma_conv_dim(h, pd, k, st, "conv2d output height non-positive"@);
    lemma_conv_dim(w, pd, k, st, "conv2d output width non-positive"@);
    assert(int_arg_or(args, "stride"@, 1) == Some(st));
    assert(int_arg_or(args, "padding"@, 0) == Some(pd));
    let hd = conv_dim(shape[n - 2], pd, k, st, "conv2d output height non-positive"@).unwrap()->Ok_0;
    let wd = conv_dim(shape[n - 1], pd, k, st, "conv2d output width non-positive"@).unwrap()->Ok_0;
    let ci = n - 3;
    let rs = shape.update(ci, ShapeDimModel::Const(o as usize)).update(ci + 1, hd).update(ci + 2, wd);
    let base = crate::semantic::walk_spec::tensor(*strip(t)->Tensor_dtype, rs);
    match extract_tag(t) {
        Some(tag) => crate::semantic::privacy::law_apply_then_extract(base, tag),
        None => {},
    }
}

/// `max_pool2d(x, kernel = k, stride = s)` on a `[C, H, W]` or
/// `[B, C, H, W]` tensor whose height and width are constants at least
/// `k`: the height and width become the number of windows of size `k`,
/// `s` apart, that fit the input; everything else is kept.
pub proof fn law_max_pool2d_shape(
    tc: TypeChecker,
    p: Passes,
    sc: Scopes,
    args: Seq<CallArg>,
    t: TypeModel,
    h: usize,
    w: usize,
    k: int,
    st: int,
)
    requires
        args.len() >= 1,
        first_arg_type(tc, p, sc, args) == Some(Ok::<TypeModel, Seq<char>>(t)),
        strip(t) is Tensor,
        strip(t)->Tensor_shape.len() == 3 || strip(t)->Tensor_shape.len() == 4,
        strip(t)->Tensor_shape[strip(t)->Tensor_shape.len() - 2] == ShapeDimModel::Const(h),
        strip(t)->Tensor_shape[strip(t)->Tensor_shape.len() - 1] == ShapeDimModel::Const(w),
        int_arg(args, "kernel"@) == Some(Ok::<int, Seq<char>>(k)),
        int_arg(args, "stride"@) == Some(Ok::<int, Seq<char>>(st)),
        small(h as int),
        small(w as int),
        small(k),
        small(st),
        st > 0,
        h >= k,
        w >= k,
    ensures
        walk_max_pool2d(tc, p, sc, args) matches Some(Ok(r)) && {
            let n = strip(t)->Tensor_shape.len();
            let rs = strip(r)->Tensor_shape;
            &&& extract_tag(r) == extract_tag(t)
            &&& strip(r) is Tensor
            &&& strip(r)->Tensor_dtype == strip(t)->Tensor_dtype
            &&& rs.len() == n
            &&& forall|j: int| 0 <= j < n - 2 ==> rs[j] == strip(t)->Tensor_shape[j]
            &&& rs[n - 2] matches ShapeDimModel::Const(h2) && windows(h - k, st, h2 as int)
            &&& rs[n - 1] matches ShapeDimModel::Const(w2) && windows(w - k, st, w2 as int)
        },
{
    let shape = strip(t)->Tensor_shape;
    let n = shape.len();
    lemma_pool_dim(h, k, st, "max_pool2d output height non-positive"@);
    lemma_pool_dim(w, k, st, "max_pool2d output width non-positive"@);
    assert(int_arg_or(args, "stride"@, k) == Some(st));
    let hd = pool_dim(shape[n - 2], k, st, "max_pool2d output height non-positive"@).unwrap()->Ok_0;
    let wd = pool_dim(shape[n - 1], k, st, "max_pool2d output width non-positive"@).unwrap()->Ok_0;
    let rs = shape.update(n - 2, hd).update(n - 1, wd);
    let base = crate::semantic::walk_spec::tensor(*strip(t)->Tensor_dtype, rs);
    match extract_tag(t) {
        Some(tag) => crate::semantic::privacy::law_apply_then_extract(base, tag),
        None => {},
    }
}

/// The product of the constant dimensions of `s[i..]`; any other
/// dimension counts as one.
pub open spec fn const_product(s: Seq<ShapeDimModel>, i: int) -> int
    decreases s.len() - i,
{
    if 0 <= i < s.len() {
        (match s[i] {
            ShapeDimModel::Const(c) => c as int,
            _ => 1,
        }) * const_product(s, i + 1)
    } else {
        1
    }
}

/// Every constant dimension of `s` is at least one.
pub open spec fn positive_dims(s: Seq<ShapeDimModel>) -> bool {
    forall|j: int| 0 <= j < s.len() ==> (#[trigger] s[j] matches ShapeDimModel::Const(c) ==> c >= 1)
}

/// Every dimension of `s[i..]` is a constant.
pub open spec fn consts_from(s: Seq<ShapeDimModel>, i: int) -> bool {
    forall|j: int| i <= j < s.len() ==> #[trigger] s[j] is Const
}

proof fn lemma_const_product_positive(s: Seq<ShapeDimModel>, i: int)
    requires
        0 <= i,
        positive_dims(s),
    ensures
        const_product(s, i) >= 1,
    decreases s.len() - i,
{
    if i < s.len() {
        lemma_const_product_positive(s, i + 1);
        let d: int = match s[i] {
            ShapeDimModel::Const(c) => c as int,
            _ => 1,
        };
        assert(d >= 1);
        assert(d * const_product(s, i + 1) >= 1) by (nonlinear_arith)
            requires
                d >= 1,
                const_product(s, i + 1) >= 1,
        ;
    }
}

proof fn lemma_flat_total(s: Seq<ShapeDimModel>, i: int, acc: int)
    requires
        0 <= i <= s.len(),
        acc >= 1,
        positive_dims(s),
        acc * const_product(s, i) <= usize::MAX,
    ensures
        flat_total(s, i, acc) matches Some((all, total)) && all == consts_from(s, i) && (all ==> total == acc
            * const_product(s, i)),
    decreases s.len() - i,
{
    if i < s.len() {
        match s[i] {
            ShapeDimModel::Const(c) => {
                let rest = const_product(s, i + 1);
                lemma_const_product_positive(s, i + 1);
                assert(c >= 1);
                assert(acc * c <= acc * (c * rest) && (acc * c) * rest == acc * (c * rest) && acc * c >= 1)
                    by (nonlinear_arith)
                    requires
                        acc >= 1,
                        c >= 1,
                        rest >= 1,
                ;
                lemma_flat_total(s, i + 1, acc * c);
                if consts_from(s, i + 1) {
                    assert(consts_from(s, i));
                } else {
                    let j = choose|j: int| i + 1 <= j < s.len() && !(s[j] is Const);
                    assert(!(s[j] is Const));
                }
            },
            _ => {
                assert(!(s[i] is Const));
            },
        }
    }
}

/// `flatten(x)` on a tensor whose constant dimensions are positive and
/// multiply to a `usize`: where every dimension is a constant, the tensor
/// becomes one-dimensional with their product; otherwise its shape is
/// kept. The element type and the label are kept either way.
pub proof fn law_flatten_shape(tc: TypeChecker, p: Passes, sc: Scopes, args: Seq<CallArg>, t: TypeModel)
    requires
        args.len() >= 1,
        first_arg_type(tc, p, sc, args) == Some(Ok::<TypeModel, Seq<char>>(t)),
        strip(t) is Tensor,
        positive_dims(strip(t)->Tensor_shape),
        const_product(strip(t)->Tensor_shape, 0) <= usize::MAX,
    ensures
        walk_flatten(tc, p, sc, args) matches Some(Ok(r)) && {
            let shape = strip(t)->Tensor_shape;
            &&& extract_tag(r) == extract_tag(t)
            &&& strip(r) is Tensor
            &&& strip(r)->Tensor_dtype == strip(t)->Tensor_dtype
            &&& consts_from(shape, 0) ==> strip(r)->Tensor_shape == seq![
                ShapeDimModel::Const(const_product(shape, 0) as usize),
            ]
            &&& !consts_from(shape, 0) ==> strip(r)->Tensor_shape == shape
        },
{
    let shape = strip(t)->Tensor_shape;
    lemma_flat_total(shape, 0, 1);
    let (all, total) = flat_total(shape, 0, 1).unwrap();
    let base = if all {
        crate::semantic::walk_spec::tensor(*strip(t)->Tensor_dtype, seq![ShapeDimModel::Const(total as usize)])
    } else {
        crate::semantic::walk_spec::tensor(*strip(t)->Tensor_dtype, shape)
    };
    match extract_tag(t) {
        Some(tag) => crate::semantic::privacy::law_apply_then_extract(base, tag),
        None => {},
    }
}

/// `embedding(x, num_embeddings = .., embedding_dim = d)` on a tensor of
/// indices gives an `f32` tensor of the same dimensions with one more, `d`,
/// at the end; the label is kept.
pub proof fn law_embedding_shape(tc: TypeChecker, p: Passes, sc: Scopes, args: Seq<CallArg>, t: TypeModel, d: int)
    requires
        args.len() >= 2,
        first_arg_type(tc, p, sc, args) == Some(Ok::<TypeModel, Seq<char>>(t)),
        strip(t) is Tensor,
        int_arg(args, "num_embeddings"@) matches Some(Ok(_)),
        int_arg(args, "embedding_dim"@) == Some(Ok::<int, Seq<char>>(d)),
    ensures
        walk_embedding(tc, p, sc, args) matches Some(Ok(r)) && {
            let shape = strip(t)->Tensor_shape;
            let rs = strip(r)->Tensor_shape;
            &&& extract_tag(r) == extract_tag(t)
            &&& strip(r) is Tensor
            &&& *strip(r)->Tensor_dtype == TypeModel::F32
            &&& rs.len() == shape.len() + 1
            &&& rs.drop_last() == shape
            &&& rs.last() == ShapeDimModel::Const(d as usize)
        },
{
    let shape = strip(t)->Tensor_shape;
    let base = crate::semantic::walk_spec::tensor(TypeModel::F32, shape.push(ShapeDimModel::Const(d as usize)));
    assert(base->Tensor_shape.drop_last() =~= shape);
    match extract_tag(t) {
        Some(tag) => crate::semantic::privacy::law_apply_then_extract(base, tag),
        None => {},
    }
}

/// `reshape(x, [d0, d1, ..])` on a tensor gives a tensor of the same
/// element type and label whose dimensions are exactly the constants
/// listed.
pub proof fn law_reshape_shape(
    tc: TypeChecker,
    p: Passes,
    sc: Scopes,
    args: Seq<CallArg>,
    t: TypeModel,
    vals: Seq<i64>,
)
    requires
        args.len() >= 2,
        first_arg_type(tc, p, sc, args) == Some(Ok::<TypeModel, Seq<char>>(t)),
        strip(t) is Tensor,
        walk_expr(tc, p, sc, crate::semantic::walk_spec::arg_of(args[1])) == Some(
            Ok::<TypeModel, Seq<char>>(TypeModel::ConstIntArray(vals)),
        ),
    ensures
        walk_reshape(tc, p, sc, args) matches Some(Ok(r)) && {
            let rs = strip(r)->Tensor_shape;
            &&& extract_tag(r) == extract_tag(t)
            &&& strip(r) is Tensor
            &&& strip(r)->Tensor_dtype == strip(t)->Tensor_dtype
            &&& rs.len() == vals.len()
            &&& forall|j: int| 0 <= j < vals.len() ==> #[trigger] rs[j] == ShapeDimModel::Const(vals[j] as usize)
        },
{
    let rs = Seq::new(vals.len(), |j: int| ShapeDimModel::Const(vals[j] as usize));
    let base = crate::semantic::walk_spec::tensor(*strip(t)->Tensor_dtype, rs);
    match extract_tag(t) {
        Some(tag) => crate::semantic::privacy::law_apply_then_extract(base, tag),
        None => {},
    }
}

proof fn lemma_relabel(t: TypeModel, tag: Option<crate::ast::PrivacyTagModel>)
    ensures
        strip(apply_tag(t, tag)) == strip(t),
        extract_tag(apply_tag(t, tag)) == (match tag {
            Some(g) => Some(g),
            None => extract_tag(t),
        }),
{
    match tag {
        Some(g) => crate::semantic::privacy::law_apply_then_extract(t, g),
        None => {},
    }
}

/// `-` accepts a signed numeric operand and keeps its type and label, and
/// refuses any other; `!` accepts a `bool` operand and keeps its label, and
/// refuses any other.
pub proof fn law_unary_types(
    tc: TypeChecker,
    p: Passes,
    sc: Scopes,
    e: Expr,
    op: UnaryOp,
    inner: Expr,
    t: TypeModel,
)
    requires
        e.kind == (ExprKind::Unary { op, expr: Box::new(inner) }),
        walk_expr(tc, p, sc, inner) == Some(Ok::<TypeModel, Seq<char>>(t)),
    ensures
        op == UnaryOp::Neg && crate::semantic::walk_spec::is_signed_model(strip(t)) ==> (walk_expr(tc, p, sc, e) matches Some(
            Ok(r),
        ) && strip(r) == strip(t) && extract_tag(r) == extract_tag(t)),
        op == UnaryOp::Neg && !crate::semantic::walk_spec::is_signed_model(strip(t)) ==> walk_expr(tc, p, sc, e) matches Some(
            Err(_),
        ),
        op == UnaryOp::Not && strip(t) == TypeModel::Bool ==> (walk_expr(tc, p, sc, e) matches Some(Ok(r)) && strip(r)
            == TypeModel::Bool && extract_tag(r) == extract_tag(t)),
        op == UnaryOp::Not && strip(t) != TypeModel::Bool ==> walk_expr(tc, p, sc, e) matches Some(Err(_)),
{
    crate::semantic::privacy::law_strip_idempotent(t);
    crate::semantic::privacy::law_strip_removes_tag(t);
    lemma_relabel(strip(t), extract_tag(t));
    lemma_relabel(TypeModel::Bool, extract_tag(t));
}

/// `as` converts between numeric types only: the result has the target
/// type and keeps the operand's label.
pub proof fn law_cast_types(tc: TypeChecker, p: Passes, sc: Scopes, e: Expr, inner: Expr, ty: Type, t: TypeModel)
    requires
        e.kind == (ExprKind::Cast { expr: Box::new(inner), ty }),
        walk_expr(tc, p, sc, inner) == Some(Ok::<TypeModel, Seq<char>>(t)),
    ensures
        is_numeric_model(strip(t)) && is_numeric_model(ty@) ==> (walk_expr(tc, p, sc, e) matches Some(Ok(r))
            && strip(r) == ty@ && extract_tag(r) == extract_tag(t)),
        !(is_numeric_model(strip(t)) && is_numeric_model(ty@)) ==> walk_expr(tc, p, sc, e) matches Some(Err(_)),
{
    lemma_relabel(ty@, extract_tag(t));
}

/// A binary expression has the type that the operator's rule gives its
/// operands' types, labelled with the join of their labels; where the rule
/// gives none it is refused.
pub proof fn law_binary_expr_types(
    tc: TypeChecker,
    p: Passes,
    sc: Scopes,
    e: Expr,
    op: BinaryOp,
    left: Expr,
    right: Expr,
    lt: TypeModel,
    rt: TypeModel,
)
    requires
        e.kind == (ExprKind::BinaryOp { op, left: Box::new(left), right: Box::new(right) }),
        walk_expr(tc, p, sc, left) == Some(Ok::<TypeModel, Seq<char>>(lt)),
        walk_expr(tc, p, sc, right) == Some(Ok::<TypeModel, Seq<char>>(rt)),
        labels_join_ok(lt, rt),
    ensures
        binop_type(op, lt, rt, is_int_literal(left), is_int_literal(right)) matches Some(base) ==> (walk_expr(
            tc,
            p,
            sc,
            e,
        ) matches Some(Ok(r)) && strip(r) == strip(base) && (join_labels(lt, rt) is Some ==> extract_tag(r)
            == join_labels(lt, rt))),
        binop_type(op, lt, rt, is_int_literal(left), is_int_literal(right)) is None ==> walk_expr(tc, p, sc, e) matches Some(
            Err(_),
        ),
{
    match binop_type(op, lt, rt, is_int_literal(left), is_int_literal(right)) {
        Some(base) => lemma_relabel(base, join_labels(lt, rt)),
        None => {},
    }
}

proof fn lemma_array_of_literals(
    tc: TypeChecker,
    p: Passes,
    sc: Scopes,
    es: Seq<Expr>,
    vs: Seq<i32>,
    i: int,
    acc: Seq<i64>,
)
    requires
        es.len() == vs.len(),
        0 <= i <= es.len(),
        acc.len() == i,
        forall|j: int| 0 <= j < i ==> acc[j] == vs[j] as i64,
        forall|j: int| 0 <= j < es.len() ==> #[trigger] es[j].kind == ExprKind::Literal(Literal::Int32(vs[j])),
    ensures
        walk_array(tc, p, sc, es, i, acc) matches Some(Ok(TypeModel::ConstIntArray(vals))) && vals.len()
            == vs.len() && forall|j: int| 0 <= j < vs.len() ==> #[trigger] vals[j] == vs[j] as i64,
    decreases es.len() - i,
{
    if i < es.len() {
        assert(es[i].kind == ExprKind::Literal(Literal::Int32(vs[i])));
        assert(walk_expr(tc, p, sc, es[i]) == Some(Ok::<TypeModel, Seq<char>>(TypeModel::I32)));
        lemma_array_of_literals(tc, p, sc, es, vs, i + 1, acc.push(vs[i] as i64));
    }
}

/// An array literal of integer literals is a constant integer array of
/// their values, in order.
pub proof fn law_array_of_literals(tc: TypeChecker, p: Passes, sc: Scopes, e: Expr, vs: Seq<i32>)
    requires
        e.kind matches ExprKind::ArrayLiteral(es) && es@.len() == vs.len() && vs.len() > 0 && forall|j: int|
            0 <= j < vs.len() ==> #[trigger] es@[j].kind == ExprKind::Literal(Literal::Int32(vs[j])),
    ensures
        walk_expr(tc, p, sc, e) matches Some(Ok(TypeModel::ConstIntArray(vals))) && vals.len() == vs.len()
            && forall|j: int| 0 <= j < vs.len() ==> #[trigger] vals[j] == vs[j] as i64,
{
    match e.kind {
        ExprKind::ArrayLiteral(es) => lemma_array_of_literals(tc, p, sc, es@, vs, 0, Seq::empty()),
        _ => {},
    }
}

/// A field of a generic struct whose declared type is the struct's `i`-th
/// parameter has, on a value of `S<args>`, the type `args[i]` (labels
/// removed).
pub proof fn law_generic_field_type(tc: TypeChecker, name: Seq<char>, args: Seq<TypeModel>, f: Seq<char>, i: int)
    requires
        struct_index(tc.structs@, name, 0) matches Some(k) && {
            let sd = tc.structs@[k];
            let names = param_names(sd.generic_params@);
            &&& names.no_duplicates()
            &&& names.len() == args.len()
            &&& 0 <= i < args.len()
            &&& field_first(sd.fields@, f, 0) matches Some(j) && sd.fields@[j].ty@ == TypeModel::TypeParam(names[i])
        },
    ensures
        field_access(tc, TypeModel::Generic(name, args), f) == Ok::<TypeModel, Seq<char>>(strip(args[i])),
{
    let k = struct_index(tc.structs@, name, 0).unwrap();
    let names = param_names(tc.structs@[k].generic_params@);
    lemma_preset_lookup(names, args, names.len() as int, i);
}

proof fn lemma_fn_args(
    tc: TypeChecker,
    p: Passes,
    sc: Scopes,
    func: Seq<char>,
    params: Seq<Param>,
    args: Seq<CallArg>,
    i: int,
    b: Bindings,
    c: Bindings,
    ts: Seq<TypeModel>,
)
    requires
        0 <= i <= args.len(),
        params.len() == args.len(),
        ts.len() == args.len(),
        agrees(b, c),
        forall|j: int| i <= j < args.len() ==> walk_expr(tc, p, sc, crate::semantic::walk_spec::arg_of(#[trigger] args[j]))
            == Some(Ok::<TypeModel, Seq<char>>(ts[j])),
        forall|j: int| i <= j < args.len() ==> unify_plain(#[trigger] params[j].ty@, c) && subst(params[j].ty@, c)
            == ts[j],
    ensures
        walk_fn_args(tc, p, sc, func, params, args, i, b) matches Some(Ok(b2)) && agrees(b2, c) && b.submap_of(b2)
            && forall|j: int, n: Seq<char>|
            i <= j < args.len() && #[trigger] mentions_param(params[j].ty@, n) && c.dom().contains(n)
                ==> b2.dom().contains(n),
    decreases args.len() - i,
{
    if i < args.len() {
        assert(walk_expr(tc, p, sc, crate::semantic::walk_spec::arg_of(args[i])) == Some(
            Ok::<TypeModel, Seq<char>>(ts[i]),
        ));
        assert(unify_plain(params[i].ty@, c) && subst(params[i].ty@, c) == ts[i]);
        lemma_unify_complete(ts[i], params[i].ty@, b, c);
        law_unify_extends(ts[i], params[i].ty@, b);
        let b1 = unify(ts[i], params[i].ty@, b).1;
        lemma_fn_args(tc, p, sc, func, params, args, i + 1, b1, c, ts);
        let b2 = walk_fn_args(tc, p, sc, func, params, args, i + 1, b1).unwrap()->Ok_0;
        vstd::map_lib::lemma_submap_of_trans(b, b1, b2);
        assert forall|j: int, n: Seq<char>|
            i <= j < args.len() && #[trigger] mentions_param(params[j].ty@, n) && c.dom().contains(n) implies b2.dom().contains(
            n,
        ) by {
            if j == i {
                lemma_unify_binds(ts[i], params[i].ty@, b, c, n);
            }
        }
    }
}

/// Every type variable of the return type of `f` is bound by `c` and
/// occurs in the type of one of its parameters.
pub open spec fn return_fixed_by(f: FnDef, c: Bindings) -> bool {
    f.return_type matches Some(rt) && forall|n: Seq<char>| #[trigger] mentions_param(rt@, n) ==> c.dom().contains(n)
        && exists|j: int| 0 <= j < f.params@.len() && mentions_param(#[trigger] f.params@[j].ty@, n)
}

/// A call of a declared function whose argument types are the parameter
/// types instantiated by some bindings `c` (no privacy label at a position
/// that unification visits, and no tuple or array there holding a
/// variable that `c` binds) succeeds. A function without a return type
/// gives unit; where every type variable of the return type is bound by
/// `c` and occurs in a parameter's type, the call has the return type
/// instantiated by `c`.
pub proof fn law_generic_call(
    tc: TypeChecker,
    p: Passes,
    sc: Scopes,
    func: Seq<char>,
    f: FnDef,
    args: Seq<CallArg>,
    c: Bindings,
    ts: Seq<TypeModel>,
)
    requires
        f.params@.len() == args.len(),
        ts.len() == args.len(),
        forall|j: int| 0 <= j < args.len() ==> walk_expr(tc, p, sc, crate::semantic::walk_spec::arg_of(#[trigger] args[j]))
            == Some(Ok::<TypeModel, Seq<char>>(ts[j])),
        forall|j: int| 0 <= j < args.len() ==> unify_plain(#[trigger] f.params@[j].ty@, c) && subst(
            f.params@[j].ty@,
            c,
        ) == ts[j],
    ensures
        walk_fn_call(tc, p, sc, func, f, args) matches Some(Ok(r)) && (f.return_type is None ==> r
            == TypeModel::Unit) && (return_fixed_by(f, c) ==> r == subst(f.return_type.unwrap()@, c)),
{
    let b0: Bindings = Map::empty();
    assert(agrees(b0, c));
    lemma_fn_args(tc, p, sc, func, f.params@, args, 0, b0, c, ts);
    let b2 = walk_fn_args(tc, p, sc, func, f.params@, args, 0, b0).unwrap()->Ok_0;
    match f.return_type {
        Some(rt) => {
            if return_fixed_by(f, c) {
                assert forall|n: Seq<char>| #[trigger] mentions_param(rt@, n) implies (b2.dom().contains(n)
                    <==> c.dom().contains(n)) && (b2.dom().contains(n) ==> b2[n] == c[n]) by {
                    let j = choose|j: int| 0 <= j < f.params@.len() && mentions_param(#[trigger] f.params@[j].ty@, n);
                    assert(mentions_param(f.params@[j].ty@, n));
                    assert(b2.dom().contains(n));
                    assert(b2[n] == image(c, n));
                }
                lemma_subst_agrees(rt@, b2, c);
            }
        },
        None => {},
    }
}

} // verus!
