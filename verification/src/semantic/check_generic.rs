//! Generic instantiation: the names of generic parameters, unification of a
//! declared type against an actual one, and substitution of bindings.
use vstd::prelude::*;
use crate::ast::{GenericParam, Type, TypeModel, shapes_model, types_model};
use crate::semantic::check_program::{TypeChecker, TypeTable, shape_dims_eq};
use crate::semantic::privacy::strip;

verus! {

/// Bindings of type variables, by name.
pub type Bindings = Map<Seq<char>, TypeModel>;

pub open spec fn generic_name(p: GenericParam) -> Seq<char> {
    match p {
        GenericParam::Type { name, .. } => name@,
    }
}

/// The names of the generic parameters `g`, in order.
pub open spec fn param_names(g: Seq<GenericParam>) -> Seq<Seq<char>> {
    g.map_values(|p: GenericParam| generic_name(p))
}

/// Whether the type variable `n` occurs anywhere in `t`.
pub open spec fn mentions_param(t: TypeModel, n: Seq<char>) -> bool
    decreases t, 0int,
{
    match t {
        TypeModel::TypeParam(m) => m == n,
        TypeModel::Ref { inner, .. } => mentions_param(*inner, n),
        TypeModel::Slice(inner) => mentions_param(*inner, n),
        TypeModel::Privacy(inner, _) => mentions_param(*inner, n),
        TypeModel::Generic(_, args) => mentions_from(args, n, 0),
        TypeModel::Tensor { dtype, .. } => mentions_param(*dtype, n),
        TypeModel::Tuple(elems) => mentions_from(elems, n, 0),
        TypeModel::Array(elem, _) => mentions_param(*elem, n),
        _ => false,
    }
}

/// Whether the type variable `n` occurs in one of `s[i..]`.
pub open spec fn mentions_from(s: Seq<TypeModel>, n: Seq<char>, i: int) -> bool
    decreases s, s.len() - i,
{
    if 0 <= i < s.len() {
        mentions_param(s[i], n) || mentions_from(s, n, i + 1)
    } else {
        false
    }
}

/// Unifies `actual` against the declared type `expected`, starting from the
/// bindings `b`; gives whether it succeeded and the bindings afterwards
/// (which also hold what was bound before a failure).
pub open spec fn unify(actual: TypeModel, expected: TypeModel, b: Bindings) -> (bool, Bindings)
    decreases expected, 0int,
{
    match expected {
        TypeModel::TypeParam(n) => if b.dom().contains(n) {
            (b[n] == actual, b)
        } else {
            (true, b.insert(n, actual))
        },
        TypeModel::Ref { mutable: em, inner: ei } => match actual {
            TypeModel::Ref { mutable: am, inner: ai } => if em == am {
                unify(*ai, *ei, b)
            } else {
                (false, b)
            },
            _ => (false, b),
        },
        TypeModel::Slice(ei) => match actual {
            TypeModel::Slice(ai) => unify(*ai, *ei, b),
            _ => (false, b),
        },
        TypeModel::Privacy(ei, _) => unify(strip(actual), *ei, b),
        TypeModel::Generic(en, eargs) => match actual {
            TypeModel::Generic(an, aargs) => if en == an && eargs.len() == aargs.len() {
                unify_from(aargs, eargs, 0, b)
            } else {
                (false, b)
            },
            _ => (false, b),
        },
        TypeModel::Tensor { dtype: ed, shape: es } => match actual {
            TypeModel::Tensor { dtype: ad, shape: ash } => {
                let (ok, b2) = unify(*ad, *ed, b);
                (ok && es == ash, b2)
            },
            _ => (false, b),
        },
        _ => (actual == expected, b),
    }
}

/// Unifies `a[i..]` against `e[i..]` pairwise, left to right, stopping at the
/// first failure.
pub open spec fn unify_from(a: Seq<TypeModel>, e: Seq<TypeModel>, i: int, b: Bindings) -> (
    bool,
    Bindings,
)
    decreases e, e.len() - i,
{
    if 0 <= i < e.len() && i < a.len() {
        let (ok, b2) = unify(a[i], e[i], b);
        if ok {
            unify_from(a, e, i + 1, b2)
        } else {
            (false, b2)
        }
    } else {
        (true, b)
    }
}

/// `t` with every bound type variable at a position that substitution visits
/// replaced by its binding.
pub open spec fn subst(t: TypeModel, b: Bindings) -> TypeModel
    decreases t,
{
    match t {
        TypeModel::TypeParam(n) => if b.dom().contains(n) {
            b[n]
        } else {
            t
        },
        TypeModel::Ref { mutable, inner } => TypeModel::Ref {
            mutable,
            inner: Box::new(subst(*inner, b)),
        },
        TypeModel::Slice(inner) => TypeModel::Slice(Box::new(subst(*inner, b))),
        TypeModel::Privacy(inner, tag) => TypeModel::Privacy(Box::new(subst(*inner, b)), tag),
        TypeModel::Generic(n, args) => TypeModel::Generic(
            n,
            Seq::new(
                args.len(),
                |i: int|
                    if 0 <= i < args.len() {
                        subst(args[i], b)
                    } else {
                        TypeModel::Unit
                    },
            ),
        ),
        TypeModel::Tensor { dtype, shape } => TypeModel::Tensor {
            dtype: Box::new(subst(*dtype, b)),
            shape,
        },
        TypeModel::Tuple(elems) => TypeModel::Tuple(
            Seq::new(
                elems.len(),
                |i: int|
                    if 0 <= i < elems.len() {
                        subst(elems[i], b)
                    } else {
                        TypeModel::Unit
                    },
            ),
        ),
        TypeModel::Array(elem, n) => TypeModel::Array(Box::new(subst(*elem, b)), n),
        _ => t,
    }
}

/// No type variable occurs in `t`.
pub open spec fn param_free(t: TypeModel) -> bool {
    forall|n: Seq<char>| !mentions_param(t, n)
}

/// No type variable that occurs in `t` is bound in `c`.
pub open spec fn unbound_in(t: TypeModel, c: Bindings) -> bool {
    forall|n: Seq<char>| mentions_param(t, n) ==> !c.dom().contains(n)
}

/// The positions that unification visits hold no privacy label, and no
/// tuple or array there (which unification compares as a whole, but
/// substitution enters) holds a type variable that `c` binds.
pub open spec fn unify_plain(t: TypeModel, c: Bindings) -> bool
    decreases t, 0int,
{
    match t {
        TypeModel::Privacy(_, _) => false,
        TypeModel::Tuple(_) => unbound_in(t, c),
        TypeModel::Array(_, _) => unbound_in(t, c),
        TypeModel::Ref { inner, .. } => unify_plain(*inner, c),
        TypeModel::Slice(inner) => unify_plain(*inner, c),
        TypeModel::Generic(_, args) => all_unify_plain(args, 0, c),
        TypeModel::Tensor { dtype, .. } => unify_plain(*dtype, c),
        _ => true,
    }
}

/// Every type in `s[i..]` is `unify_plain` under `c`.
pub open spec fn all_unify_plain(s: Seq<TypeModel>, i: int, c: Bindings) -> bool
    decreases s, s.len() - i,
{
    if 0 <= i < s.len() {
        unify_plain(s[i], c) && all_unify_plain(s, i + 1, c)
    } else {
        true
    }
}

/// Substituting no bindings leaves a type unchanged.
pub proof fn law_subst_empty(t: TypeModel)
    ensures
        subst(t, Map::empty()) == t,
    decreases t,
{
    match t {
        TypeModel::Ref { inner, .. } => law_subst_empty(*inner),
        TypeModel::Slice(inner) => law_subst_empty(*inner),
        TypeModel::Privacy(inner, _) => law_subst_empty(*inner),
        TypeModel::Tensor { dtype, .. } => law_subst_empty(*dtype),
        TypeModel::Array(elem, _) => law_subst_empty(*elem),
        TypeModel::Tuple(elems) => {
            assert forall|i: int| 0 <= i < elems.len() implies subst(elems[i], Map::empty())
                == elems[i] by {
                law_subst_empty(elems[i]);
            }
            assert(subst(t, Map::empty())->Tuple_0 =~= elems);
        },
        TypeModel::Generic(n, args) => {
            assert forall|i: int| 0 <= i < args.len() implies subst(args[i], Map::empty())
                == args[i] by {
                law_subst_empty(args[i]);
            }
            assert(subst(t, Map::empty())->Generic_1 =~= args);
        },
        _ => {},
    }
}

proof fn lemma_mentions_from_at(s: Seq<TypeModel>, n: Seq<char>, i: int, j: int)
    requires
        0 <= i <= j < s.len(),
        mentions_param(s[j], n),
    ensures
        mentions_from(s, n, i),
    decreases j - i,
{
    if i < j {
        lemma_mentions_from_at(s, n, i + 1, j);
    }
}

/// Substituting into a type without type variables leaves it unchanged.
pub proof fn law_subst_param_free(t: TypeModel, c: Bindings)
    requires
        param_free(t),
    ensures
        subst(t, c) == t,
{
    lemma_subst_unbound(t, c);
}

/// Substitution leaves a type unchanged whose type variables are all unbound.
pub proof fn lemma_subst_unbound(t: TypeModel, c: Bindings)
    requires
        unbound_in(t, c),
    ensures
        subst(t, c) == t,
    decreases t,
{
    match t {
        TypeModel::TypeParam(m) => {
            assert(mentions_param(t, m));
        },
        TypeModel::Ref { inner, .. } => {
            assert forall|n: Seq<char>| mentions_param(*inner, n) implies !c.dom().contains(n) by {
                assert(mentions_param(t, n));
            }
            lemma_subst_unbound(*inner, c);
        },
        TypeModel::Slice(inner) => {
            assert forall|n: Seq<char>| mentions_param(*inner, n) implies !c.dom().contains(n) by {
                assert(mentions_param(t, n));
            }
            lemma_subst_unbound(*inner, c);
        },
        TypeModel::Privacy(inner, _) => {
            assert forall|n: Seq<char>| mentions_param(*inner, n) implies !c.dom().contains(n) by {
                assert(mentions_param(t, n));
            }
            lemma_subst_unbound(*inner, c);
        },
        TypeModel::Tensor { dtype, .. } => {
            assert forall|n: Seq<char>| mentions_param(*dtype, n) implies !c.dom().contains(n) by {
                assert(mentions_param(t, n));
            }
            lemma_subst_unbound(*dtype, c);
        },
        TypeModel::Array(elem, _) => {
            assert forall|n: Seq<char>| mentions_param(*elem, n) implies !c.dom().contains(n) by {
                assert(mentions_param(t, n));
            }
            lemma_subst_unbound(*elem, c);
        },
        TypeModel::Tuple(elems) => {
            assert forall|j: int| 0 <= j < elems.len() implies subst(elems[j], c) == elems[j] by {
                assert forall|n: Seq<char>| mentions_param(elems[j], n) implies !c.dom().contains(n) by {
                    lemma_mentions_from_at(elems, n, 0, j);
                    assert(mentions_param(t, n));
                }
                lemma_subst_unbound(elems[j], c);
            }
            assert(subst(t, c)->Tuple_0 =~= elems);
        },
        TypeModel::Generic(_, args) => {
            assert forall|j: int| 0 <= j < args.len() implies subst(args[j], c) == args[j] by {
                assert forall|n: Seq<char>| mentions_param(args[j], n) implies !c.dom().contains(n) by {
                    lemma_mentions_from_at(args, n, 0, j);
                    assert(mentions_param(t, n));
                }
                lemma_subst_unbound(args[j], c);
            }
            assert(subst(t, c)->Generic_1 =~= args);
        },
        _ => {},
    }
}

/// Unification only adds bindings: every variable bound before is bound to
/// the same type afterwards, whether or not it succeeds.
pub proof fn law_unify_extends(actual: TypeModel, expected: TypeModel, b: Bindings)
    ensures
        b.submap_of(unify(actual, expected, b).1),
    decreases expected, 0int,
{
    match expected {
        TypeModel::Ref { mutable: em, inner: ei } => match actual {
            TypeModel::Ref { mutable: am, inner: ai } => if em == am {
                law_unify_extends(*ai, *ei, b);
            },
            _ => {},
        },
        TypeModel::Slice(ei) => match actual {
            TypeModel::Slice(ai) => law_unify_extends(*ai, *ei, b),
            _ => {},
        },
        TypeModel::Privacy(ei, _) => law_unify_extends(strip(actual), *ei, b),
        TypeModel::Generic(en, eargs) => match actual {
            TypeModel::Generic(an, aargs) => if en == an && eargs.len() == aargs.len() {
                lemma_unify_from_extends(aargs, eargs, 0, b);
            },
            _ => {},
        },
        TypeModel::Tensor { dtype: ed, .. } => match actual {
            TypeModel::Tensor { dtype: ad, .. } => law_unify_extends(*ad, *ed, b),
            _ => {},
        },
        _ => {},
    }
}

pub proof fn lemma_unify_from_extends(a: Seq<TypeModel>, e: Seq<TypeModel>, i: int, b: Bindings)
    ensures
        b.submap_of(unify_from(a, e, i, b).1),
    decreases e, e.len() - i,
{
    if 0 <= i < e.len() && i < a.len() {
        let (ok, b2) = unify(a[i], e[i], b);
        law_unify_extends(a[i], e[i], b);
        if ok {
            lemma_unify_from_extends(a, e, i + 1, b2);
            vstd::map_lib::lemma_submap_of_trans(b, b2, unify_from(a, e, i + 1, b2).1);
        }
    }
}

/// Unification binds no name but the type variables of the declared type:
/// a name bound afterwards was bound before or occurs in `expected`.
pub proof fn law_unify_adds_only_params(actual: TypeModel, expected: TypeModel, b: Bindings, n: Seq<char>)
    ensures
        unify(actual, expected, b).1.dom().contains(n) ==> b.dom().contains(n)
            || mentions_param(expected, n),
    decreases expected, 0int,
{
    match expected {
        TypeModel::Ref { mutable: em, inner: ei } => match actual {
            TypeModel::Ref { mutable: am, inner: ai } => if em == am {
                law_unify_adds_only_params(*ai, *ei, b, n);
            },
            _ => {},
        },
        TypeModel::Slice(ei) => match actual {
            TypeModel::Slice(ai) => law_unify_adds_only_params(*ai, *ei, b, n),
            _ => {},
        },
        TypeModel::Privacy(ei, _) => law_unify_adds_only_params(strip(actual), *ei, b, n),
        TypeModel::Generic(en, eargs) => match actual {
            TypeModel::Generic(an, aargs) => if en == an && eargs.len() == aargs.len() {
                lemma_unify_from_adds_only_params(aargs, eargs, 0, b, n);
            },
            _ => {},
        },
        TypeModel::Tensor { dtype: ed, .. } => match actual {
            TypeModel::Tensor { dtype: ad, .. } => law_unify_adds_only_params(*ad, *ed, b, n),
            _ => {},
        },
        _ => {},
    }
}

pub proof fn lemma_unify_from_adds_only_params(
    a: Seq<TypeModel>,
    e: Seq<TypeModel>,
    i: int,
    b: Bindings,
    n: Seq<char>,
)
    ensures
        unify_from(a, e, i, b).1.dom().contains(n) ==> b.dom().contains(n) || mentions_from(e, n, i),
    decreases e, e.len() - i,
{
    if 0 <= i < e.len() && i < a.len() {
        let (ok, b2) = unify(a[i], e[i], b);
        law_unify_adds_only_params(a[i], e[i], b, n);
        if ok {
            lemma_unify_from_adds_only_params(a, e, i + 1, b2, n);
        }
    }
}

/// Unifying against a declared type with no type variable in it leaves the
/// bindings as they were.
pub proof fn law_unify_without_params(actual: TypeModel, expected: TypeModel, b: Bindings)
    requires
        forall|n: Seq<char>| !mentions_param(expected, n),
    ensures
        unify(actual, expected, b).1 == b,
{
    let c = unify(actual, expected, b).1;
    law_unify_extends(actual, expected, b);
    assert forall|n: Seq<char>| c.dom().contains(n) implies b.dom().contains(n) by {
        law_unify_adds_only_params(actual, expected, b, n);
    }
    assert(c =~= b);
}

/// A successful unification instantiates the declared type to the actual
/// one: substituting the resulting bindings, or any bindings that extend
/// them, into `expected` gives `actual` back (where no privacy label stands
/// at a position that unification visits, and no tuple or array there holds
/// a type variable that those bindings bind).
pub proof fn law_unify_sound(actual: TypeModel, expected: TypeModel, b: Bindings, c: Bindings)
    requires
        unify(actual, expected, b).0,
        unify_plain(expected, c),
        unify(actual, expected, b).1.submap_of(c),
    ensures
        subst(expected, c) == actual,
    decreases expected, 0int,
{
    match expected {
        TypeModel::TypeParam(n) => {
            assert(unify(actual, expected, b).1.dom().contains(n));
            assert(c.dom().contains(n));
        },
        TypeModel::Ref { mutable: em, inner: ei } => match actual {
            TypeModel::Ref { mutable: am, inner: ai } => {
                law_unify_sound(*ai, *ei, b, c);
            },
            _ => {},
        },
        TypeModel::Slice(ei) => match actual {
            TypeModel::Slice(ai) => law_unify_sound(*ai, *ei, b, c),
            _ => {},
        },
        TypeModel::Generic(en, eargs) => match actual {
            TypeModel::Generic(an, aargs) => {
                assert(en == an && eargs.len() == aargs.len());
                lemma_unify_from_sound(aargs, eargs, 0, b, c);
                assert forall|j: int| 0 <= j < eargs.len() implies subst(expected, c)->Generic_1[j]
                    == aargs[j] by {
                    assert(subst(eargs[j], c) == aargs[j]);
                }
                assert(subst(expected, c)->Generic_1 =~= aargs);
            },
            _ => {},
        },
        TypeModel::Tensor { dtype: ed, .. } => match actual {
            TypeModel::Tensor { dtype: ad, .. } => law_unify_sound(*ad, *ed, b, c),
            _ => {},
        },
        TypeModel::Tuple(_) => lemma_subst_unbound(expected, c),
        TypeModel::Array(_, _) => lemma_subst_unbound(expected, c),
        _ => {},
    }
}

pub proof fn lemma_unify_from_sound(
    a: Seq<TypeModel>,
    e: Seq<TypeModel>,
    i: int,
    b: Bindings,
    c: Bindings,
)
    requires
        0 <= i,
        a.len() == e.len(),
        unify_from(a, e, i, b).0,
        all_unify_plain(e, i, c),
        unify_from(a, e, i, b).1.submap_of(c),
    ensures
        forall|j: int| i <= j < e.len() ==> #[trigger] subst(e[j], c) == a[j],
    decreases e, e.len() - i,
{
    if i < e.len() {
        let (ok, b2) = unify(a[i], e[i], b);
        lemma_unify_from_extends(a, e, i + 1, b2);
        vstd::map_lib::lemma_submap_of_trans(b2, unify_from(a, e, i + 1, b2).1, c);
        law_unify_sound(a[i], e[i], b, c);
        lemma_unify_from_sound(a, e, i + 1, b2, c);
    }
}

proof fn lemma_mentions_from_witness(s: Seq<TypeModel>, n: Seq<char>, i: int)
    requires
        0 <= i,
        mentions_from(s, n, i),
    ensures
        exists|j: int| i <= j < s.len() && mentions_param(#[trigger] s[j], n),
    decreases s.len() - i,
{
    if i < s.len() && !mentions_param(s[i], n) {
        lemma_mentions_from_witness(s, n, i + 1);
    }
}

/// Substitution replaces every bound type variable, at any depth (under
/// references, slices, privacy labels, generic arguments, tensors, tuples
/// and arrays): a variable `n` that the bindings `c` bind, and that none of
/// the bound types mentions, does not occur in the result.
pub proof fn law_subst_removes_bound(t: TypeModel, c: Bindings, n: Seq<char>)
    requires
        c.dom().contains(n),
        forall|m: Seq<char>| c.dom().contains(m) ==> !mentions_param(#[trigger] c[m], n),
    ensures
        !mentions_param(subst(t, c), n),
    decreases t,
{
    match t {
        TypeModel::TypeParam(m) => {
            if c.dom().contains(m) {
                assert(!mentions_param(c[m], n));
            }
        },
        TypeModel::Ref { inner, .. } => law_subst_removes_bound(*inner, c, n),
        TypeModel::Slice(inner) => law_subst_removes_bound(*inner, c, n),
        TypeModel::Privacy(inner, _) => law_subst_removes_bound(*inner, c, n),
        TypeModel::Tensor { dtype, .. } => law_subst_removes_bound(*dtype, c, n),
        TypeModel::Array(elem, _) => law_subst_removes_bound(*elem, c, n),
        TypeModel::Tuple(elems) => {
            let r = subst(t, c)->Tuple_0;
            assert forall|j: int| 0 <= j < r.len() implies !mentions_param(#[trigger] r[j], n) by {
                law_subst_removes_bound(elems[j], c, n);
            }
            if mentions_from(r, n, 0) {
                lemma_mentions_from_witness(r, n, 0);
            }
        },
        TypeModel::Generic(_, args) => {
            let r = subst(t, c)->Generic_1;
            assert forall|j: int| 0 <= j < r.len() implies !mentions_param(#[trigger] r[j], n) by {
                law_subst_removes_bound(args[j], c, n);
            }
            if mentions_from(r, n, 0) {
                lemma_mentions_from_witness(r, n, 0);
            }
        },
        _ => {},
    }
}

/// What substituting `c` makes of the variable `n`: its binding, or the
/// variable itself where `c` does not bind it.
pub open spec fn image(c: Bindings, n: Seq<char>) -> TypeModel {
    if c.dom().contains(n) {
        c[n]
    } else {
        TypeModel::TypeParam(n)
    }
}

/// Every binding in `b` is what `c` makes of its variable.
pub open spec fn agrees(b: Bindings, c: Bindings) -> bool {
    forall|n: Seq<char>| b.dom().contains(n) ==> #[trigger] b[n] == image(c, n)
}

pub proof fn lemma_unify_complete(actual: TypeModel, expected: TypeModel, b: Bindings, c: Bindings)
    requires
        unify_plain(expected, c),
        subst(expected, c) == actual,
        agrees(b, c),
    ensures
        unify(actual, expected, b).0,
        agrees(unify(actual, expected, b).1, c),
    decreases expected, 0int,
{
    match expected {
        TypeModel::TypeParam(n) => {
            if !b.dom().contains(n) {
                assert(agrees(b.insert(n, actual), c));
            }
        },
        TypeModel::Ref { inner: ei, .. } => lemma_unify_complete(subst(*ei, c), *ei, b, c),
        TypeModel::Slice(ei) => lemma_unify_complete(subst(*ei, c), *ei, b, c),
        TypeModel::Generic(_, eargs) => {
            let aargs = actual->Generic_1;
            lemma_unify_from_complete(aargs, eargs, 0, b, c);
        },
        TypeModel::Tensor { dtype: ed, .. } => lemma_unify_complete(subst(*ed, c), *ed, b, c),
        TypeModel::Tuple(_) => lemma_subst_unbound(expected, c),
        TypeModel::Array(_, _) => lemma_subst_unbound(expected, c),
        _ => {},
    }
}

proof fn lemma_unify_from_complete(a: Seq<TypeModel>, e: Seq<TypeModel>, i: int, b: Bindings, c: Bindings)
    requires
        0 <= i,
        a.len() == e.len(),
        all_unify_plain(e, i, c),
        forall|j: int| i <= j < e.len() ==> #[trigger] subst(e[j], c) == a[j],
        agrees(b, c),
    ensures
        unify_from(a, e, i, b).0,
        agrees(unify_from(a, e, i, b).1, c),
    decreases e, e.len() - i,
{
    if i < e.len() {
        assert(subst(e[i], c) == a[i]);
        lemma_unify_complete(a[i], e[i], b, c);
        let b2 = unify(a[i], e[i], b).1;
        lemma_unify_from_complete(a, e, i + 1, b2, c);
    }
}

/// Unification is complete: where bindings `c` that extend `b` instantiate
/// the declared type to the actual one (no privacy label standing at a
/// position that unification visits, and no tuple or array there holding a
/// variable that `c` binds), unification succeeds, and every variable it
/// binds is bound to what `c` makes of it.
pub proof fn law_unify_complete(actual: TypeModel, expected: TypeModel, b: Bindings, c: Bindings)
    requires
        b.submap_of(c),
        unify_plain(expected, c),
        subst(expected, c) == actual,
    ensures
        unify(actual, expected, b).0,
        agrees(unify(actual, expected, b).1, c),
{
    assert(agrees(b, c));
    lemma_unify_complete(actual, expected, b, c);
}

/// A successful unification binds every type variable of the declared
/// type that `c` binds (where no privacy label stands at a visited position
/// and no tuple or array there holds a variable that `c` binds).
pub proof fn lemma_unify_binds(actual: TypeModel, expected: TypeModel, b: Bindings, c: Bindings, n: Seq<char>)
    requires
        unify_plain(expected, c),
        unify(actual, expected, b).0,
        mentions_param(expected, n),
        c.dom().contains(n),
    ensures
        unify(actual, expected, b).1.dom().contains(n),
    decreases expected, 0int,
{
    match expected {
        TypeModel::Ref { inner: ei, .. } => lemma_unify_binds(*actual->Ref_inner, *ei, b, c, n),
        TypeModel::Slice(ei) => lemma_unify_binds(*actual->Slice_0, *ei, b, c, n),
        TypeModel::Tensor { dtype: ed, .. } => lemma_unify_binds(*actual->Tensor_dtype, *ed, b, c, n),
        TypeModel::Generic(_, eargs) => {
            lemma_mentions_from_witness(eargs, n, 0);
            let j = choose|j: int| 0 <= j < eargs.len() && mentions_param(#[trigger] eargs[j], n);
            lemma_unify_from_binds(actual->Generic_1, eargs, 0, b, c, n, j);
        },
        _ => {},
    }
}

proof fn lemma_unify_from_binds(
    a: Seq<TypeModel>,
    e: Seq<TypeModel>,
    i: int,
    b: Bindings,
    c: Bindings,
    n: Seq<char>,
    j: int,
)
    requires
        0 <= i <= j < e.len(),
        a.len() == e.len(),
        all_unify_plain(e, i, c),
        unify_from(a, e, i, b).0,
        mentions_param(e[j], n),
        c.dom().contains(n),
    ensures
        unify_from(a, e, i, b).1.dom().contains(n),
    decreases e, e.len() - i,
{
    let (ok, b2) = unify(a[i], e[i], b);
    lemma_unify_from_extends(a, e, i + 1, b2);
    if i == j {
        lemma_unify_binds(a[i], e[i], b, c, n);
    } else {
        lemma_unify_from_binds(a, e, i + 1, b2, c, n, j);
    }
}

/// Substituting two bindings that agree on the type variables of `t` gives
/// the same type.
pub proof fn lemma_subst_agrees(t: TypeModel, b: Bindings, c: Bindings)
    requires
        forall|n: Seq<char>| #[trigger] mentions_param(t, n) ==> (b.dom().contains(n) <==> c.dom().contains(n)) && (
        b.dom().contains(n) ==> b[n] == c[n]),
    ensures
        subst(t, b) == subst(t, c),
    decreases t,
{
    match t {
        TypeModel::TypeParam(m) => {
            assert(mentions_param(t, m));
        },
        TypeModel::Ref { inner, .. } => {
            assert forall|n: Seq<char>| #[trigger] mentions_param(*inner, n) implies (b.dom().contains(n)
                <==> c.dom().contains(n)) && (b.dom().contains(n) ==> b[n] == c[n]) by {
                assert(mentions_param(t, n));
            }
            lemma_subst_agrees(*inner, b, c);
        },
        TypeModel::Slice(inner) => {
            assert forall|n: Seq<char>| #[trigger] mentions_param(*inner, n) implies (b.dom().contains(n)
                <==> c.dom().contains(n)) && (b.dom().contains(n) ==> b[n] == c[n]) by {
                assert(mentions_param(t, n));
            }
            lemma_subst_agrees(*inner, b, c);
        },
        TypeModel::Privacy(inner, _) => {
            assert forall|n: Seq<char>| #[trigger] mentions_param(*inner, n) implies (b.dom().contains(n)
                <==> c.dom().contains(n)) && (b.dom().contains(n) ==> b[n] == c[n]) by {
                assert(mentions_param(t, n));
            }
            lemma_subst_agrees(*inner, b, c);
        },
        TypeModel::Tensor { dtype, .. } => {
            assert forall|n: Seq<char>| #[trigger] mentions_param(*dtype, n) implies (b.dom().contains(n)
                <==> c.dom().contains(n)) && (b.dom().contains(n) ==> b[n] == c[n]) by {
                assert(mentions_param(t, n));
            }
            lemma_subst_agrees(*dtype, b, c);
        },
        TypeModel::Array(elem, _) => {
            assert forall|n: Seq<char>| #[trigger] mentions_param(*elem, n) implies (b.dom().contains(n)
                <==> c.dom().contains(n)) && (b.dom().contains(n) ==> b[n] == c[n]) by {
                assert(mentions_param(t, n));
            }
            lemma_subst_agrees(*elem, b, c);
        },
        TypeModel::Tuple(elems) => {
            assert forall|j: int| 0 <= j < elems.len() implies subst(elems[j], b) == subst(elems[j], c) by {
                assert forall|n: Seq<char>| #[trigger] mentions_param(elems[j], n) implies (b.dom().contains(n)
                    <==> c.dom().contains(n)) && (b.dom().contains(n) ==> b[n] == c[n]) by {
                    lemma_mentions_from_at(elems, n, 0, j);
                    assert(mentions_param(t, n));
                }
                lemma_subst_agrees(elems[j], b, c);
            }
            assert(subst(t, b)->Tuple_0 =~= subst(t, c)->Tuple_0);
        },
        TypeModel::Generic(_, args) => {
            assert forall|j: int| 0 <= j < args.len() implies subst(args[j], b) == subst(args[j], c) by {
                assert forall|n: Seq<char>| #[trigger] mentions_param(args[j], n) implies (b.dom().contains(n)
                    <==> c.dom().contains(n)) && (b.dom().contains(n) ==> b[n] == c[n]) by {
                    lemma_mentions_from_at(args, n, 0, j);
                    assert(mentions_param(t, n));
                }
                lemma_subst_agrees(args[j], b, c);
            }
            assert(subst(t, b)->Generic_1 =~= subst(t, c)->Generic_1);
        },
        _ => {},
    }
}

impl TypeChecker {
    /// The names of the generic parameters, in order.
    pub fn generic_param_names(params: &[GenericParam]) -> (r: Vec<String>)
        ensures
            r@.len() == params@.len(),
            forall|i: int| 0 <= i < params@.len() ==> #[trigger] r@[i]@ == generic_name(params@[i]),
            r@.map_values(|s: String| s@) == param_names(params@),
    {
        let mut out: Vec<String> = Vec::new();
        let mut i: usize = 0;
        while i < params.len()
            invariant
                i <= params@.len(),
                out@.len() == i,
                forall|j: int| 0 <= j < i ==> #[trigger] out@[j]@ == generic_name(params@[j]),
            decreases params.len() - i,
        {
            let name = match &params[i] {
                GenericParam::Type { name, .. } => name.clone(),
            };
            out.push(name);
            i += 1;
        }
        assert(out@.map_values(|s: String| s@) =~= param_names(params@));
        out
    }

    /// Unifies the type `actual` met at a call or construction against the
    /// declared type `expected`, recording in `bindings` what each type
    /// variable stands for; a variable already bound must meet an equal type.
    pub fn unify_type(&self, actual: &Type, expected: &Type, bindings: &mut TypeTable) -> (r: bool)
        ensures
            (r, final(bindings).model()) == unify(actual@, expected@, old(bindings).model()),
        decreases expected, 1nat,
    {
        match expected {
            Type::TypeParam(name) => {
                match bindings.get(name.as_str()) {
                    Some(bound) => self.types_equal(bound, actual),
                    None => {
                        bindings.insert(name.clone(), actual.duplicate());
                        true
                    },
                }
            },
            Type::Ref { mutable: em, inner: einner } => {
                match actual {
                    Type::Ref { mutable: am, inner: ainner } => {
                        *em == *am && self.unify_type(ainner, einner, bindings)
                    },
                    _ => false,
                }
            },
            Type::Slice(einner) => {
                match actual {
                    Type::Slice(ainner) => self.unify_type(ainner, einner, bindings),
                    _ => false,
                }
            },
            Type::Privacy(einner, _) => {
                let stripped = self.strip_privacy(actual);
                self.unify_type(&stripped, einner, bindings)
            },
            Type::Generic(ename, eargs) => {
                match actual {
                    Type::Generic(aname, aargs) => {
                        assert(expected@->Generic_1 =~= types_model(eargs@));
                        assert(actual@->Generic_1 =~= types_model(aargs@));
                        *ename == *aname && eargs.len() == aargs.len() && self.unify_lists(
                            aargs,
                            eargs,
                            bindings,
                        )
                    },
                    _ => false,
                }
            },
            Type::Tensor { dtype: edtype, shape: eshape } => {
                match actual {
                    Type::Tensor { dtype: adtype, shape: ashape } => {
                        self.unify_type(adtype, edtype, bindings) && shape_dims_eq(eshape, ashape)
                    },
                    _ => false,
                }
            },
            _ => {
                let r = self.types_equal(actual, expected);
                r
            },
        }
    }

    /// Unifies the argument lists pairwise, left to right, stopping at the
    /// first failure.
    fn unify_lists(&self, actual: &Vec<Type>, expected: &Vec<Type>, bindings: &mut TypeTable) -> (r:
        bool)
        requires
            actual@.len() == expected@.len(),
        ensures
            (r, final(bindings).model()) == unify_from(
                types_model(actual@),
                types_model(expected@),
                0,
                old(bindings).model(),
            ),
        decreases expected@, 0nat,
    {
        let ghost a = types_model(actual@);
        let ghost e = types_model(expected@);
        let ghost whole = unify_from(a, e, 0, old(bindings).model());
        let mut i: usize = 0;
        while i < expected.len()
            invariant
                actual@.len() == expected@.len(),
                a == types_model(actual@),
                e == types_model(expected@),
                i <= expected@.len(),
                whole == unify_from(a, e, 0, old(bindings).model()),
                unify_from(a, e, i as int, bindings.model()) == whole,
            decreases expected.len() - i,
        {
            proof {
                assert(decreases_to!(expected@ => expected@[i as int]));
            }
            let ok = self.unify_type(&actual[i], &expected[i], bindings);
            if !ok {
                return false;
            }
            i += 1;
        }
        true
    }

    /// `ty` with the type variables bound in `bindings` replaced; unbound
    /// ones are left as they are.
    pub fn substitute_type(&self, ty: &Type, bindings: &TypeTable) -> (r: Type)
        ensures
            r@ == subst(ty@, bindings.model()),
        decreases ty, 1nat,
    {
        match ty {
            Type::TypeParam(name) => {
                match bindings.get(name.as_str()) {
                    Some(bound) => bound.duplicate(),
                    None => ty.duplicate(),
                }
            },
            Type::Ref { mutable, inner } => Type::Ref {
                mutable: *mutable,
                inner: Box::new(self.substitute_type(inner, bindings)),
            },
            Type::Slice(inner) => Type::Slice(Box::new(self.substitute_type(inner, bindings))),
            Type::Privacy(inner, tag) => Type::Privacy(
                Box::new(self.substitute_type(inner, bindings)),
                tag.duplicate(),
            ),
            Type::Generic(name, args) => {
                let subs = self.substitute_list(args, bindings);
                let r = Type::Generic(name.clone(), subs);
                proof {
                    assert(ty@->Generic_1 =~= types_model(args@));
                    assert(r@->Generic_1 =~= types_model(subs@));
                    assert(r@->Generic_1 =~= subst(ty@, bindings.model())->Generic_1);
                }
                r
            },
            Type::Tensor { dtype, shape } => Type::Tensor {
                dtype: Box::new(self.substitute_type(dtype, bindings)),
                shape: crate::ast::duplicate_shape(shape),
            },
            Type::Tuple(elems) => {
                let subs = self.substitute_list(elems, bindings);
                let r = Type::Tuple(subs);
                proof {
                    assert(ty@->Tuple_0 =~= types_model(elems@));
                    assert(r@->Tuple_0 =~= types_model(subs@));
                    assert(r@->Tuple_0 =~= subst(ty@, bindings.model())->Tuple_0);
                }
                r
            },
            Type::Array(elem, n) => Type::Array(Box::new(self.substitute_type(elem, bindings)), *n),
            _ => ty.duplicate(),
        }
    }

    fn substitute_list(&self, args: &Vec<Type>, bindings: &TypeTable) -> (r: Vec<Type>)
        ensures
            r@.len() == args@.len(),
            forall|i: int| 0 <= i < args@.len() ==> #[trigger] r@[i]@ == subst(args@[i]@, bindings.model()),
        decreases args@, 0nat,
    {
        let mut out: Vec<Type> = Vec::new();
        let mut i: usize = 0;
        while i < args.len()
            invariant
                i <= args@.len(),
                out@.len() == i,
                forall|j: int| 0 <= j < i ==> #[trigger] out@[j]@ == subst(args@[j]@, bindings.model()),
            decreases args.len() - i,
        {
            proof {
                assert(decreases_to!(args@ => args@[i as int]));
            }
            out.push(self.substitute_type(&args[i], bindings));
            i += 1;
        }
        out
    }
}

} // verus!
