//! The high-level intermediate representation: the syntax tree with a type,
//! a privacy label and a set of effects on every expression.
use vstd::prelude::*;
use crate::ast::{BinaryOp, IfKind, Literal, Pattern, PrivacyTag, Type, UnaryOp, UnsafeKind};

verus! {

/// A position in the source; built nodes carry the default position.
#[derive(Debug, Clone, Copy, PartialEq, Eq, Structural)]
pub struct Span {
    pub line: usize,
    pub column: usize,
}

impl Default for Span {
    fn default() -> (r: Span)
        ensures
            r == (Span { line: 0, column: 0 }),
    {
        Span { line: 0, column: 0 }
    }
}

/// How sensitive a value is; not analysed yet, so always unknown.
#[derive(Debug, Clone, Copy, PartialEq, Eq, Structural)]
pub enum Sensitivity {
    Unknown,
}

/// The side effects an expression may have.
#[derive(Debug, Clone, Copy, PartialEq, Eq, Structural)]
pub struct EffectSet {
    pub has_io: bool,
    pub has_rng: bool,
    pub has_ai: bool,
    pub has_ffi: bool,
    pub has_panic: bool,
}

/// No effect at all.
pub open spec fn no_effects() -> EffectSet {
    EffectSet { has_io: false, has_rng: false, has_ai: false, has_ffi: false, has_panic: false }
}

/// The union of two effect sets.
pub open spec fn union_effects(a: EffectSet, b: EffectSet) -> EffectSet {
    EffectSet {
        has_io: a.has_io || b.has_io,
        has_rng: a.has_rng || b.has_rng,
        has_ai: a.has_ai || b.has_ai,
        has_ffi: a.has_ffi || b.has_ffi,
        has_panic: a.has_panic || b.has_panic,
    }
}

/// The union of the effect sets `s[..n]`.
pub open spec fn union_all(s: Seq<EffectSet>, n: int) -> EffectSet
    decreases n,
{
    if n <= 0 || n > s.len() {
        no_effects()
    } else {
        union_effects(union_all(s, n - 1), s[n - 1])
    }
}

impl Default for EffectSet {
    fn default() -> (r: EffectSet)
        ensures
            r == no_effects(),
    {
        EffectSet { has_io: false, has_rng: false, has_ai: false, has_ffi: false, has_panic: false }
    }
}

impl EffectSet {
    /// The union of all the given effect sets.
    pub fn merge(sets: &[EffectSet]) -> (r: EffectSet)
        ensures
            r == union_all(sets@, sets@.len() as int),
    {
        let mut acc = EffectSet::default();
        let mut i: usize = 0;
        while i < sets.len()
            invariant
                i <= sets@.len(),
                acc == union_all(sets@, i as int),
            decreases sets.len() - i,
        {
            acc.merge_with(&sets[i]);
            i += 1;
        }
        acc
    }

    /// Adds the effects of `other` to `self`.
    pub fn merge_with(&mut self, other: &EffectSet)
        ensures
            *final(self) == union_effects(*old(self), *other),
    {
        self.has_io = self.has_io || other.has_io;
        self.has_rng = self.has_rng || other.has_rng;
        self.has_ai = self.has_ai || other.has_ai;
        self.has_ffi = self.has_ffi || other.has_ffi;
        self.has_panic = self.has_panic || other.has_panic;
    }
}

#[derive(Debug)]
pub struct HirProgram {
    pub models: Vec<HirModel>,
    pub fns: Vec<HirFn>,
    pub structs: Vec<HirStruct>,
    pub enums: Vec<HirEnum>,
    pub consts: Vec<HirConst>,
    pub protos: Vec<HirProto>,
    pub impls: Vec<HirImplement>,
    pub interfaces: Vec<HirInterface>,
}

#[derive(Debug)]
pub struct HirGenericParam {
    pub name: String,
    pub bounds: Vec<String>,
}

#[derive(Debug)]
pub struct HirField {
    pub name: String,
    pub ty: Type,
}

#[derive(Debug)]
pub struct HirParam {
    pub name: String,
    pub ty: Type,
}

#[derive(Debug)]
pub struct HirModel {
    pub name: String,
    pub generic_params: Vec<HirGenericParam>,
    pub fields: Vec<HirField>,
    pub functions: Vec<HirFn>,
    pub sensitivity: Option<Sensitivity>,
    /// Some parameter of `forward` carries a differential-privacy label.
    pub training_context_required: bool,
    /// The `eps` budget of the first such parameter.
    pub privacy_eps: Option<String>,
}

#[derive(Debug)]
pub struct HirFn {
    pub name: String,
    pub generic_params: Vec<HirGenericParam>,
    pub params: Vec<HirParam>,
    pub return_type: Option<Type>,
    pub body: HirBlock,
    pub effects: EffectSet,
    pub sensitivity: Option<Sensitivity>,
    pub is_forward: bool,
}

#[derive(Debug)]
pub struct HirStruct {
    pub name: String,
    pub generic_params: Vec<HirGenericParam>,
    pub fields: Vec<HirField>,
}

#[derive(Debug)]
pub struct HirEnumVariant {
    pub name: String,
    pub ty: Option<Type>,
}

#[derive(Debug)]
pub struct HirEnum {
    pub name: String,
    pub generic_params: Vec<HirGenericParam>,
    pub variants: Vec<HirEnumVariant>,
}

#[derive(Debug)]
pub struct HirConst {
    pub name: String,
    pub ty: Type,
    pub value: HirExpr,
}

#[derive(Debug)]
pub struct HirProtoVariant {
    pub name: String,
    pub ty: Option<Type>,
}

#[derive(Debug)]
pub struct HirProto {
    pub name: String,
    pub variants: Vec<HirProtoVariant>,
}

#[derive(Debug)]
pub struct HirImplement {
    pub generic_params: Vec<HirGenericParam>,
    pub target_type: Type,
    pub interface_name: Option<String>,
    pub functions: Vec<HirFn>,
}

#[derive(Debug)]
pub struct HirFnSig {
    pub name: String,
    pub generic_params: Vec<HirGenericParam>,
    pub params: Vec<HirParam>,
    pub return_type: Option<Type>,
}

#[derive(Debug)]
pub struct HirInterface {
    pub name: String,
    pub generic_params: Vec<HirGenericParam>,
    pub methods: Vec<HirFnSig>,
}

#[derive(Debug)]
pub struct HirBlock {
    pub stmts: Vec<HirStmt>,
    pub span: Span,
}

#[derive(Debug)]
#[allow(inconsistent_fields)]
pub enum HirStmt {
    Let { name: String, ty: Option<Type>, init: HirExpr, mutable: bool, persist: bool, span: Span },
    Expr { expr: HirExpr, span: Span },
    Return { expr: Option<HirExpr>, span: Span },
    While { cond: HirExpr, body: HirBlock, span: Span },
    For { var: String, iterable: HirExpr, body: HirBlock, span: Span },
    Assign { target: Box<HirExpr>, expr: HirExpr, span: Span },
    Loop { body: HirBlock, span: Span },
    Break { span: Span },
    UnsafeBlock { kind: UnsafeKind, body: HirBlock, span: Span },
}

#[derive(Debug)]
pub struct HirExpr {
    pub kind: HirExprKind,
    pub ty: Type,
    pub privacy_tag: Option<PrivacyTag>,
    pub sensitivity: Sensitivity,
    pub effects: EffectSet,
    pub span: Span,
}

#[derive(Debug)]
pub enum HirCallArg {
    Positional(HirExpr),
    Named(String, HirExpr),
}

#[derive(Debug)]
pub struct HirMatchArm {
    pub pattern: Pattern,
    pub expr: HirExpr,
}

#[derive(Debug)]
#[allow(inconsistent_fields)]
pub enum HirExprKind {
    Literal(Literal),
    Ident(String),
    Sym(String),
    BinaryOp { op: BinaryOp, left: Box<HirExpr>, right: Box<HirExpr> },
    Call {
        qualifier: Option<String>,
        func: String,
        generic_args: Vec<Type>,
        args: Vec<HirCallArg>,
        is_method: bool,
    },
    Block(HirBlock),
    StructInit { struct_name: String, generic_args: Vec<Type>, fields: Vec<(String, HirExpr)> },
    FieldAccess { struct_expr: Box<HirExpr>, field_name: String },
    Range { start: Box<HirExpr>, end: Box<HirExpr> },
    EnumVariantAccess { enum_name: String, variant_name: String },
    EnumVariantConstruction {
        enum_name: String,
        generic_args: Vec<Type>,
        variant_name: String,
        args: Vec<HirCallArg>,
    },
    Match { cond: Box<HirExpr>, arms: Vec<HirMatchArm> },
    Closure { param: String, body: Box<HirExpr> },
    If {
        kind: IfKind,
        cond: Box<HirExpr>,
        then_expr: Box<HirExpr>,
        else_expr: Option<Box<HirExpr>>,
    },
    ArrayLiteral(Vec<HirExpr>),
    UnsafeBlock { kind: UnsafeKind, body: HirBlock, span: Span },
    Unary { op: UnaryOp, expr: Box<HirExpr> },
    Cast { expr: Box<HirExpr>, ty: Type },
    Index { expr: Box<HirExpr>, index: Box<HirExpr> },
    LackSlice(Type),
}

} // verus!
