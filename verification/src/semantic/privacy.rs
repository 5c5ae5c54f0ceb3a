//! Privacy labels on types: comparing, joining, reading, attaching and
//! removing them.
use vstd::prelude::*;
use crate::ast::{Type, TypeModel, PrivacyTag, PrivacyTagModel, opt_tag_model};
use crate::semantic::check_program::TypeChecker;
use crate::semantic::rational::{
    comparable, rational_leq, rational_same, small_denominator, law_rational_leq_transitive,
    law_rational_same_transitive,
};

verus! {

/// Whether the comparison of two tags can be carried out: every pair of
/// budgets that `privacy_tags_equal` compares is `comparable`.
pub open spec fn tags_comparable(a: PrivacyTagModel, b: PrivacyTagModel) -> bool {
    match (a, b) {
        (
            PrivacyTagModel::Differential { eps: e1, delta: d1 },
            PrivacyTagModel::Differential { eps: e2, delta: d2 },
        ) => {
            &&& comparable(e1, e2)
            &&& rational_same(e1, e2) ==> match (d1, d2) {
                (Some(x), Some(y)) => comparable(x, y),
                _ => true,
            }
        },
        _ => true,
    }
}

/// Two tags are equal: both public, both private, or both differential with
/// equal budgets (and both or neither with a `delta`).
pub open spec fn tags_equiv(a: PrivacyTagModel, b: PrivacyTagModel) -> bool {
    match (a, b) {
        (PrivacyTagModel::Public, PrivacyTagModel::Public) => true,
        (PrivacyTagModel::Private, PrivacyTagModel::Private) => true,
        (
            PrivacyTagModel::Differential { eps: e1, delta: d1 },
            PrivacyTagModel::Differential { eps: e2, delta: d2 },
        ) => rational_same(e1, e2) && match (d1, d2) {
            (Some(x), Some(y)) => rational_same(x, y),
            (None, None) => true,
            _ => false,
        },
        _ => false,
    }
}

/// Whether two tags can be joined: the budgets that `join_privacy_tags`
/// compares are `comparable`.
pub open spec fn join_ok(a: PrivacyTagModel, b: PrivacyTagModel) -> bool {
    match (a, b) {
        (
            PrivacyTagModel::Differential { eps: e1, delta: d1 },
            PrivacyTagModel::Differential { eps: e2, delta: d2 },
        ) => {
            &&& comparable(e1, e2)
            &&& match (d1, d2) {
                (Some(x), Some(y)) => comparable(x, y),
                _ => true,
            }
        },
        _ => true,
    }
}

/// The join of two tags: public is neutral, private absorbs the rest, and two
/// differential tags take the smaller `eps` and the larger `delta`.
pub open spec fn join_tags(a: PrivacyTagModel, b: PrivacyTagModel) -> PrivacyTagModel {
    match (a, b) {
        (PrivacyTagModel::Public, x) => x,
        (x, PrivacyTagModel::Public) => x,
        (PrivacyTagModel::Private, _) => PrivacyTagModel::Private,
        (_, PrivacyTagModel::Private) => PrivacyTagModel::Private,
        (
            PrivacyTagModel::Differential { eps: e1, delta: d1 },
            PrivacyTagModel::Differential { eps: e2, delta: d2 },
        ) => PrivacyTagModel::Differential {
            eps: if rational_leq(e1, e2) {
                e1
            } else {
                e2
            },
            delta: match (d1, d2) {
                (Some(x), Some(y)) => if rational_leq(x, y) {
                    Some(y)
                } else {
                    Some(x)
                },
                (Some(x), None) => Some(x),
                (None, Some(y)) => Some(y),
                (None, None) => None,
            },
        },
    }
}

/// Joining two differential labels keeps the stricter budget: the smaller
/// `eps` of the two and the larger `delta`, a `delta` that only one side
/// has being kept as it is.
pub proof fn law_join_differential(e1: Seq<char>, d1: Option<Seq<char>>, e2: Seq<char>, d2: Option<Seq<char>>)
    ensures
        join_tags(
            PrivacyTagModel::Differential { eps: e1, delta: d1 },
            PrivacyTagModel::Differential { eps: e2, delta: d2 },
        ) matches PrivacyTagModel::Differential { eps, delta } && {
            &&& eps == e1 || eps == e2
            &&& rational_leq(eps, e1)
            &&& rational_leq(eps, e2)
            &&& match (d1, d2) {
                (Some(x), Some(y)) => delta matches Some(z) && (z == x || z == y) && rational_leq(x, z)
                    && rational_leq(y, z),
                (Some(x), None) => delta == Some(x),
                (None, Some(y)) => delta == Some(y),
                (None, None) => delta is None,
            }
        },
{
}

/// The tag of `t`, looking through references.
pub open spec fn extract_tag(t: TypeModel) -> Option<PrivacyTagModel>
    decreases t,
{
    match t {
        TypeModel::Privacy(_, tag) => Some(tag),
        TypeModel::Ref { inner, .. } => extract_tag(*inner),
        _ => None,
    }
}

/// `t` with every privacy label removed from its outer layers and from
/// behind references.
pub open spec fn strip(t: TypeModel) -> TypeModel
    decreases t,
{
    match t {
        TypeModel::Privacy(inner, _) => strip(*inner),
        TypeModel::Ref { mutable, inner } => TypeModel::Ref {
            mutable,
            inner: Box::new(strip(*inner)),
        },
        _ => t,
    }
}

pub open spec fn apply_tag(t: TypeModel, tag: Option<PrivacyTagModel>) -> TypeModel {
    match tag {
        Some(g) => TypeModel::Privacy(Box::new(t), g),
        None => t,
    }
}

pub open spec fn join_labels(a: TypeModel, b: TypeModel) -> Option<PrivacyTagModel> {
    match (extract_tag(a), extract_tag(b)) {
        (Some(t1), Some(t2)) => Some(join_tags(t1, t2)),
        (Some(t), None) => Some(t),
        (None, Some(t)) => Some(t),
        (None, None) => None,
    }
}

pub open spec fn labels_join_ok(a: TypeModel, b: TypeModel) -> bool {
    match (extract_tag(a), extract_tag(b)) {
        (Some(t1), Some(t2)) => join_ok(t1, t2),
        _ => true,
    }
}

/// What `types_equal_with_privacy` compares: the types beneath a top-level
/// label, and the labels when both sides carry one.
pub open spec fn equal_with_privacy(a: TypeModel, b: TypeModel) -> bool {
    match (a, b) {
        (TypeModel::Privacy(i1, t1), TypeModel::Privacy(i2, t2)) => *i1 == *i2 && tags_equiv(t1, t2),
        (TypeModel::Privacy(i, _), other) => *i == other,
        (other, TypeModel::Privacy(i, _)) => other == *i,
        _ => a == b,
    }
}

pub open spec fn equal_with_privacy_ok(a: TypeModel, b: TypeModel) -> bool {
    match (a, b) {
        (TypeModel::Privacy(i1, t1), TypeModel::Privacy(i2, t2)) => *i1 == *i2 ==> tags_comparable(
            t1,
            t2,
        ),
        _ => true,
    }
}

/// Equality of tags is reflexive.
pub proof fn law_tags_equiv_reflexive(t: PrivacyTagModel)
    ensures
        tags_equiv(t, t),
{
}

/// Equality of tags does not depend on the order of the two.
pub proof fn law_tags_equiv_symmetric(a: PrivacyTagModel, b: PrivacyTagModel)
    ensures
        tags_equiv(a, b) == tags_equiv(b, a),
{
}

/// A public tag leaves the other side of a join unchanged.
pub proof fn law_join_public_identity(t: PrivacyTagModel)
    ensures
        join_tags(PrivacyTagModel::Public, t) == t,
        join_tags(t, PrivacyTagModel::Public) == t,
{
}

/// A private tag absorbs whatever it is joined with.
pub proof fn law_join_private_absorbs(t: PrivacyTagModel)
    ensures
        join_tags(PrivacyTagModel::Private, t) == PrivacyTagModel::Private,
        join_tags(t, PrivacyTagModel::Private) == PrivacyTagModel::Private,
{
}

/// Joining a tag with itself gives the same tag.
pub proof fn law_join_idempotent(t: PrivacyTagModel)
    ensures
        join_tags(t, t) == t,
{
}

/// Joining in either order gives equal tags.
pub proof fn law_join_commutative(a: PrivacyTagModel, b: PrivacyTagModel)
    ensures
        tags_equiv(join_tags(a, b), join_tags(b, a)),
{
}

/// Every denominator in the tag is at most `i128::MAX`.
pub open spec fn tag_small(t: PrivacyTagModel) -> bool {
    match t {
        PrivacyTagModel::Differential { eps, delta } => small_denominator(eps) && match delta {
            Some(d) => small_denominator(d),
            None => true,
        },
        _ => true,
    }
}

/// The order in which three tags are joined does not matter, where every
/// denominator in them is at most `i128::MAX`.
pub proof fn law_join_associative(a: PrivacyTagModel, b: PrivacyTagModel, c: PrivacyTagModel)
    requires
        tag_small(a),
        tag_small(b),
        tag_small(c),
    ensures
        tags_equiv(join_tags(join_tags(a, b), c), join_tags(a, join_tags(b, c))),
{
    match (a, b, c) {
        (
            PrivacyTagModel::Differential { eps: e1, delta: d1 },
            PrivacyTagModel::Differential { eps: e2, delta: d2 },
            PrivacyTagModel::Differential { eps: e3, delta: d3 },
        ) => {
            lemma_order_of_three(e1, e2, e3);
            match (d1, d2, d3) {
                (Some(x), Some(y), Some(z)) => lemma_order_of_three(x, y, z),
                _ => {},
            }
        },
        _ => {},
    }
}

/// Transitivity of `<=` and of equality among three budgets, in every order.
proof fn lemma_order_of_three(x: Seq<char>, y: Seq<char>, z: Seq<char>)
    requires
        small_denominator(x),
        small_denominator(y),
        small_denominator(z),
    ensures
        forall|p: Seq<char>, q: Seq<char>, r: Seq<char>|
            (p == x || p == y || p == z) && (q == x || q == y || q == z) && (r == x || r == y || r
                == z) ==> (rational_leq(p, q) && rational_leq(q, r) ==> rational_leq(p, r)) && (
            rational_same(p, q) && rational_same(q, r) ==> rational_same(p, r)),
{
    assert forall|p: Seq<char>, q: Seq<char>, r: Seq<char>|
        (p == x || p == y || p == z) && (q == x || q == y || q == z) && (r == x || r == y || r == z)
            implies (rational_leq(p, q) && rational_leq(q, r) ==> rational_leq(p, r)) && (
    rational_same(p, q) && rational_same(q, r) ==> rational_same(p, r)) by {
        if rational_leq(p, q) && rational_leq(q, r) {
            law_rational_leq_transitive(p, q, r);
        }
        if rational_same(p, q) && rational_same(q, r) {
            law_rational_same_transitive(p, q, r);
        }
    }
}

/// Removing labels twice is removing them once.
pub proof fn law_strip_idempotent(t: TypeModel)
    ensures
        strip(strip(t)) == strip(t),
    decreases t,
{
    match t {
        TypeModel::Privacy(inner, _) => law_strip_idempotent(*inner),
        TypeModel::Ref { inner, .. } => law_strip_idempotent(*inner),
        _ => {},
    }
}

/// A type with its labels removed carries no tag.
pub proof fn law_strip_removes_tag(t: TypeModel)
    ensures
        extract_tag(strip(t)) is None,
    decreases t,
{
    match t {
        TypeModel::Privacy(inner, _) => law_strip_removes_tag(*inner),
        TypeModel::Ref { inner, .. } => law_strip_removes_tag(*inner),
        _ => {},
    }
}

/// The tag read back from a labelled type is the label attached, and the
/// label is gone again once labels are removed.
pub proof fn law_apply_then_extract(t: TypeModel, tag: PrivacyTagModel)
    ensures
        extract_tag(apply_tag(t, Some(tag))) == Some(tag),
        strip(apply_tag(t, Some(tag))) == strip(t),
        apply_tag(t, None) == t,
{
}

/// Equality with privacy is reflexive and does not depend on the order of
/// the two types.
pub proof fn law_equal_with_privacy_symmetric(a: TypeModel, b: TypeModel)
    ensures
        equal_with_privacy(a, a),
        equal_with_privacy(a, b) == equal_with_privacy(b, a),
{
}

impl TypeChecker {
    /// Equality of types where a top-level privacy label on one side only is
    /// ignored, and labels on both sides must be equal.
    pub fn types_equal_with_privacy(&self, a: &Type, b: &Type) -> (r: bool)
        requires
            equal_with_privacy_ok(a@, b@),
        ensures
            r == equal_with_privacy(a@, b@),
    {
        match (a, b) {
            (Type::Privacy(inner1, tag1), Type::Privacy(inner2, tag2)) => {
                self.types_equal(inner1, inner2) && self.privacy_tags_equal(tag1, tag2)
            },
            (Type::Privacy(inner, _), other) => self.types_equal(inner, other),
            (other, Type::Privacy(inner, _)) => self.types_equal(other, inner),
            _ => self.types_equal(a, b),
        }
    }

    /// Equality of privacy tags; budgets are compared as rationals.
    pub fn privacy_tags_equal(&self, a: &PrivacyTag, b: &PrivacyTag) -> (r: bool)
        requires
            tags_comparable(a@, b@),
        ensures
            r == tags_equiv(a@, b@),
    {
        match (a, b) {
            (PrivacyTag::Public, PrivacyTag::Public) => true,
            (PrivacyTag::Private, PrivacyTag::Private) => true,
            (
                PrivacyTag::Differential { eps: e1, delta: d1 },
                PrivacyTag::Differential { eps: e2, delta: d2 },
            ) => {
                Self::rational_eq(e1.as_str(), e2.as_str()) && match (d1, d2) {
                    (Some(d1), Some(d2)) => Self::rational_eq(d1.as_str(), d2.as_str()),
                    (None, None) => true,
                    _ => false,
                }
            },
            _ => false,
        }
    }

    /// The least restrictive tag that covers both.
    pub fn join_privacy_tags(&self, a: &PrivacyTag, b: &PrivacyTag) -> (r: PrivacyTag)
        requires
            join_ok(a@, b@),
        ensures
            r@ == join_tags(a@, b@),
    {
        match (a, b) {
            (PrivacyTag::Public, x) => x.duplicate(),
            (x, PrivacyTag::Public) => x.duplicate(),
            (PrivacyTag::Private, _) => PrivacyTag::Private,
            (_, PrivacyTag::Private) => PrivacyTag::Private,
            (
                PrivacyTag::Differential { eps: e1, delta: d1 },
                PrivacyTag::Differential { eps: e2, delta: d2 },
            ) => {
                let eps = Self::rational_min(e1.as_str(), e2.as_str());
                let delta = match (d1, d2) {
                    (Some(d1), Some(d2)) => {
                        if Self::rational_le(d1.as_str(), d2.as_str()) {
                            Some(d2.clone())
                        } else {
                            Some(d1.clone())
                        }
                    },
                    (Some(d), None) => Some(d.clone()),
                    (None, Some(d)) => Some(d.clone()),
                    (None, None) => None,
                };
                PrivacyTag::Differential { eps, delta }
            },
        }
    }

    /// The privacy tag of `ty`, looking through references.
    pub fn extract_privacy_tag(&self, ty: &Type) -> (r: Option<PrivacyTag>)
        ensures
            opt_tag_model(r) == extract_tag(ty@),
        decreases ty,
    {
        match ty {
            Type::Privacy(_, tag) => Some(tag.duplicate()),
            Type::Ref { inner, .. } => self.extract_privacy_tag(inner),
            _ => None,
        }
    }

    /// `ty` labelled with `tag`, or `ty` itself when there is no tag.
    pub fn apply_privacy_tag(&self, ty: Type, tag: Option<PrivacyTag>) -> (r: Type)
        ensures
            r@ == apply_tag(ty@, opt_tag_model(tag)),
    {
        match tag {
            Some(t) => Type::Privacy(Box::new(ty), t),
            None => ty,
        }
    }

    /// The join of the labels of `a` and `b`; a side without a label leaves
    /// the other side's label unchanged.
    pub fn join_privacy_labels(&self, a: &Type, b: &Type) -> (r: Option<PrivacyTag>)
        requires
            labels_join_ok(a@, b@),
        ensures
            opt_tag_model(r) == join_labels(a@, b@),
    {
        let tag_a = self.extract_privacy_tag(a);
        let tag_b = self.extract_privacy_tag(b);
        match (tag_a, tag_b) {
            (Some(t1), Some(t2)) => Some(self.join_privacy_tags(&t1, &t2)),
            (Some(t), None) => Some(t),
            (None, Some(t)) => Some(t),
            (None, None) => None,
        }
    }

    /// `ty` without privacy labels on its outer layers and behind references.
    pub fn strip_privacy(&self, ty: &Type) -> (r: Type)
        ensures
            r@ == strip(ty@),
        decreases ty,
    {
        match ty {
            Type::Privacy(inner, _) => self.strip_privacy(inner),
            Type::Ref { mutable, inner } => Type::Ref {
                mutable: *mutable,
                inner: Box::new(self.strip_privacy(inner)),
            },
            _ => ty.duplicate(),
        }
    }
}

} // verus!
