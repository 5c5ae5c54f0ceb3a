//! Syntax tree of the xiyi language, together with the mathematical models
//! (`@`) of the type-level part of it.
//!
//! Floating-point literals are carried as their IEEE-754 bit patterns, so the
//! tree itself holds only integers, booleans, characters and text.
use vstd::prelude::*;

verus! {

/// A program is a list of items.
#[derive(Debug, PartialEq)]
pub struct Program {
    pub items: Vec<Item>,
}

#[derive(Debug, PartialEq)]
pub enum Item {
    FnDef(FnDef),
    StructDef(StructDef),
    EnumDef(EnumDef),
    ConstDef(ConstDef),
    ModelDef(ModelDef),
    ProtoDef(ProtoDef),
    Use(UseStmt),
    Implement(ImplementDef),
    Interface(InterfaceDef),
}

#[derive(Debug, PartialEq)]
pub struct Attribute {
    pub name: String,
    pub args: Vec<AttributeArg>,
}

/// An attribute argument; `Float` holds the bit pattern of an `f64`.
#[derive(Debug, PartialEq)]
pub enum AttributeArg {
    Ident(String),
    StringLit(String),
    Int(i64),
    Float(u64),
    Rational(String),
    KeyValue(String, Box<AttributeArg>),
}

#[derive(Debug, PartialEq)]
pub enum GenericParam {
    Type { name: String, bounds: Vec<String> },
}

#[derive(Debug, PartialEq)]
pub struct FnDef {
    pub attributes: Vec<Attribute>,
    pub name: String,
    pub generic_params: Vec<GenericParam>,
    pub params: Vec<Param>,
    pub return_type: Option<Type>,
    pub body: Block,
}

#[derive(Debug, PartialEq)]
pub struct StructDef {
    pub name: String,
    pub generic_params: Vec<GenericParam>,
    pub fields: Vec<StructField>,
}

#[derive(Debug, PartialEq)]
pub struct StructField {
    pub name: String,
    pub ty: Type,
}

#[derive(Debug, PartialEq)]
pub struct EnumDef {
    pub name: String,
    pub generic_params: Vec<GenericParam>,
    pub variants: Vec<EnumVariant>,
}

#[derive(Debug, PartialEq)]
pub struct EnumVariant {
    pub name: String,
    pub ty: Option<Type>,
}

#[derive(Debug, PartialEq)]
pub struct ConstDef {
    pub name: String,
    pub ty: Type,
    pub value: Box<Expr>,
}

#[derive(Debug, PartialEq)]
pub struct ModelDef {
    pub attributes: Vec<Attribute>,
    pub name: String,
    pub generic_params: Vec<GenericParam>,
    pub fields: Vec<ModelField>,
    pub functions: Vec<FnDef>,
}

#[derive(Debug, PartialEq)]
pub struct ModelField {
    pub name: String,
    pub ty: Type,
}

#[derive(Debug, PartialEq)]
pub struct ProtoDef {
    pub name: String,
    pub variants: Vec<ProtoVariant>,
}

#[derive(Debug, PartialEq)]
pub struct ProtoVariant {
    pub name: String,
    pub ty: Option<Type>,
}

#[derive(Debug, PartialEq)]
pub struct UseStmt {
    pub path: String,
    pub alias: Option<String>,
}

#[derive(Debug, PartialEq)]
pub struct ImplementDef {
    pub attributes: Vec<Attribute>,
    pub generic_params: Vec<GenericParam>,
    pub target_type: Type,
    pub interface_name: Option<String>,
    pub functions: Vec<FnDef>,
    pub where_clause: Vec<WhereClause>,
}

#[derive(Debug, PartialEq)]
pub struct InterfaceDef {
    pub attributes: Vec<Attribute>,
    pub name: String,
    pub generic_params: Vec<GenericParam>,
    pub methods: Vec<FnSig>,
}

#[derive(Debug, PartialEq)]
pub struct FnSig {
    pub name: String,
    pub params: Vec<Param>,
    pub return_type: Option<Type>,
    pub generic_params: Vec<GenericParam>,
}

#[derive(Debug, PartialEq)]
pub struct WhereClause {
    pub bound_param: String,
    pub bounds: Vec<String>,
}

#[derive(Debug, PartialEq)]
pub struct Param {
    pub name: String,
    pub ty: Type,
}

#[derive(Debug, PartialEq)]
pub struct Block {
    pub stmts: Vec<Stmt>,
}

#[derive(Debug, PartialEq)]
pub struct ForStmt {
    pub var: String,
    pub iterable: Box<Expr>,
    pub body: Block,
}

/// Assignment; the target is any expression, whether it can be assigned to
/// is decided by the type checker.
#[derive(Debug, PartialEq)]
pub struct AssignStmt {
    pub target: Box<Expr>,
    pub expr: Box<Expr>,
}

#[derive(Debug, PartialEq)]
pub struct LoopStmt {
    pub body: Block,
}

#[derive(Debug, PartialEq)]
pub struct BreakStmt {}

#[derive(Debug, PartialEq)]
pub struct MatchExpr {
    pub cond: Box<Expr>,
    pub arms: Vec<MatchArm>,
}

#[derive(Debug, PartialEq)]
pub struct MatchArm {
    pub pattern: Pattern,
    pub expr: Box<Expr>,
}

/// Patterns: enum variants (with at most one binding), scalar literals, and
/// one-level destructuring of structs, tuples and arrays.
#[derive(Debug, PartialEq)]
pub enum Pattern {
    EnumVariant { enum_name: String, variant_name: String },
    EnumVariantWithBinding { enum_name: String, variant_name: String, binding: String },
    Wildcard,
    IntLiteral(i64),
    BoolLiteral(bool),
    CharLiteral(char),
    Struct { struct_name: String, fields: Vec<(String, String)> },
    Tuple(Vec<Option<String>>),
    Array(Vec<Option<String>>),
}

#[derive(Debug, PartialEq)]
pub enum Stmt {
    Let(LetStmt),
    ExprStmt(Expr),
    Return(Option<Expr>),
    While(WhileStmt),
    For(ForStmt),
    Assign(AssignStmt),
    Loop(LoopStmt),
    Break(BreakStmt),
    UnsafeBlock(UnsafeBlockStmt),
}

#[derive(Debug, PartialEq)]
pub struct LetStmt {
    pub name: String,
    pub ty: Option<Type>,
    pub init: Box<Expr>,
    pub mutable: bool,
    pub persist: bool,
}

#[derive(Debug, PartialEq)]
pub struct UnsafeBlockStmt {
    pub kind: UnsafeKind,
    pub body: Block,
}

#[derive(Debug, PartialEq, Eq, Structural, Clone, Copy)]
pub enum UnsafeKind {
    Normal,
    Verify,
}

#[derive(Debug, PartialEq)]
pub struct WhileStmt {
    pub cond: Box<Expr>,
    pub body: Block,
}

#[derive(Debug, PartialEq)]
pub enum CallArg {
    Positional(Expr),
    Named(String, Expr),
}

#[derive(Debug, PartialEq)]
pub struct Expr {
    pub id: usize,
    pub kind: ExprKind,
}

#[derive(Debug, PartialEq)]
#[allow(inconsistent_fields)]
pub enum ExprKind {
    Literal(Literal),
    Ident(String),
    Sym(String),
    BinaryOp { op: BinaryOp, left: Box<Expr>, right: Box<Expr> },
    Call { qualifier: Option<String>, func: String, args: Vec<CallArg>, is_method: bool },
    Block(Block),
    StructInit { struct_name: String, fields: Vec<(String, Expr)> },
    FieldAccess { struct_expr: Box<Expr>, field_name: String },
    Range { start: Box<Expr>, end: Box<Expr> },
    EnumVariantAccess { enum_name: String, variant_name: String },
    EnumVariantConstruction { enum_name: String, variant_name: String, args: Vec<CallArg> },
    Match(MatchExpr),
    Closure { param: String, body: Box<Expr> },
    If { kind: IfKind, cond: Box<Expr>, then_expr: Box<Expr>, else_expr: Option<Box<Expr>> },
    ArrayLiteral(Vec<Expr>),
    UnsafeBlock(UnsafeBlockStmt),
    Unary { op: UnaryOp, expr: Box<Expr> },
    Cast { expr: Box<Expr>, ty: Type },
    Index { expr: Box<Expr>, index: Box<Expr> },
    LackSlice(Type),
}

#[derive(Debug, PartialEq, Eq, Structural, Clone, Copy)]
pub enum UnaryOp {
    Neg,
    Not,
}

/// `Normal` must have an else branch; `Lack` (`lack if`) must not, and its
/// then branch must be of type unit.
#[derive(Debug, PartialEq, Eq, Structural, Clone, Copy)]
pub enum IfKind {
    Normal,
    Lack,
}

/// Literal values. The three floating-point variants hold the IEEE-754 bit
/// pattern of the value (`Float16` is stored as an `f32`).
#[derive(Debug, PartialEq)]
pub enum Literal {
    Int8(i8),
    Int16(i16),
    Int32(i32),
    Int64(i64),
    Int128(i128),
    UInt8(u8),
    UInt16(u16),
    UInt32(u32),
    UInt64(u64),
    UInt128(u128),
    Isize(isize),
    Usize(usize),
    Float16(u32),
    Float32(u32),
    Float64(u64),
    Bool(bool),
    Char(char),
    String(String),
    Unit,
    ByteString(Vec<u8>),
}

#[derive(Debug, PartialEq, Eq, Structural, Clone, Copy)]
pub enum BinaryOp {
    Add,
    Sub,
    Mul,
    Div,
    Mod,
    Eq,
    Neq,
    Lt,
    Gt,
    Le,
    Ge,
    And,
    Or,
}

#[derive(Debug, PartialEq)]
pub enum Type {
    I8,
    I16,
    I32,
    I64,
    I128,
    U8,
    U16,
    U32,
    U64,
    U128,
    F16,
    F32,
    F64,
    SymInt,
    Bool,
    Char,
    Str,
    Struct(String),
    Enum(String),
    TypeParam(String),
    Generic(String, Vec<Type>),
    Tensor { dtype: Box<Type>, shape: Vec<ShapeDim> },
    Privacy(Box<Type>, PrivacyTag),
    SelfType,
    ConstIntArray(Vec<i64>),
    Tuple(Vec<Type>),
    Array(Box<Type>, usize),
    Ref { mutable: bool, inner: Box<Type> },
    Slice(Box<Type>),
    Unit,
    Never,
}

#[derive(Debug, PartialEq)]
pub enum PrivacyTag {
    Public,
    Private,
    Differential { eps: String, delta: Option<String> },
}

#[derive(Debug, PartialEq)]
pub enum ShapeDim {
    Const(usize),
    Sym(String),
    Dyn,
}

// ===== models =====

/// The value of a [`Type`], with text as character sequences.
pub enum TypeModel {
    I8,
    I16,
    I32,
    I64,
    I128,
    U8,
    U16,
    U32,
    U64,
    U128,
    F16,
    F32,
    F64,
    SymInt,
    Bool,
    Char,
    Str,
    Struct(Seq<char>),
    Enum(Seq<char>),
    TypeParam(Seq<char>),
    Generic(Seq<char>, Seq<TypeModel>),
    Tensor { dtype: Box<TypeModel>, shape: Seq<ShapeDimModel> },
    Privacy(Box<TypeModel>, PrivacyTagModel),
    SelfType,
    ConstIntArray(Seq<i64>),
    Tuple(Seq<TypeModel>),
    Array(Box<TypeModel>, usize),
    Ref { mutable: bool, inner: Box<TypeModel> },
    Slice(Box<TypeModel>),
    Unit,
    Never,
}

/// The value of a [`PrivacyTag`].
pub enum PrivacyTagModel {
    Public,
    Private,
    Differential { eps: Seq<char>, delta: Option<Seq<char>> },
}

/// The value of a [`ShapeDim`].
pub enum ShapeDimModel {
    Const(usize),
    Sym(Seq<char>),
    Dyn,
}

impl ShapeDim {
    pub open spec fn model(&self) -> ShapeDimModel {
        match self {
            ShapeDim::Const(c) => ShapeDimModel::Const(*c),
            ShapeDim::Sym(s) => ShapeDimModel::Sym(s@),
            ShapeDim::Dyn => ShapeDimModel::Dyn,
        }
    }

    pub fn duplicate(&self) -> (r: ShapeDim)
        ensures
            r.model() == self.model(),
    {
        match self {
            ShapeDim::Const(c) => ShapeDim::Const(*c),
            ShapeDim::Sym(s) => ShapeDim::Sym(s.clone()),
            ShapeDim::Dyn => ShapeDim::Dyn,
        }
    }
}

impl View for ShapeDim {
    type V = ShapeDimModel;

    open spec fn view(&self) -> ShapeDimModel {
        self.model()
    }
}

pub open spec fn opt_text(o: Option<String>) -> Option<Seq<char>> {
    match o {
        Some(s) => Some(s@),
        None => None,
    }
}

pub fn duplicate_opt_string(o: &Option<String>) -> (r: Option<String>)
    ensures
        opt_text(r) == opt_text(*o),
{
    match o {
        Some(s) => Some(s.clone()),
        None => None,
    }
}

impl PrivacyTag {
    pub open spec fn model(&self) -> PrivacyTagModel {
        match self {
            PrivacyTag::Public => PrivacyTagModel::Public,
            PrivacyTag::Private => PrivacyTagModel::Private,
            PrivacyTag::Differential { eps, delta } => PrivacyTagModel::Differential {
                eps: eps@,
                delta: opt_text(*delta),
            },
        }
    }

    pub fn duplicate(&self) -> (r: PrivacyTag)
        ensures
            r@ == self@,
    {
        match self {
            PrivacyTag::Public => PrivacyTag::Public,
            PrivacyTag::Private => PrivacyTag::Private,
            PrivacyTag::Differential { eps, delta } => PrivacyTag::Differential {
                eps: eps.clone(),
                delta: duplicate_opt_string(delta),
            },
        }
    }
}

impl View for PrivacyTag {
    type V = PrivacyTagModel;

    open spec fn view(&self) -> PrivacyTagModel {
        self.model()
    }
}

pub open spec fn shapes_model(s: Seq<ShapeDim>) -> Seq<ShapeDimModel> {
    s.map_values(|d: ShapeDim| d.model())
}

impl Type {
    pub open spec fn model(&self) -> TypeModel
        decreases self,
    {
        match self {
            Type::I8 => TypeModel::I8,
            Type::I16 => TypeModel::I16,
            Type::I32 => TypeModel::I32,
            Type::I64 => TypeModel::I64,
            Type::I128 => TypeModel::I128,
            Type::U8 => TypeModel::U8,
            Type::U16 => TypeModel::U16,
            Type::U32 => TypeModel::U32,
            Type::U64 => TypeModel::U64,
            Type::U128 => TypeModel::U128,
            Type::F16 => TypeModel::F16,
            Type::F32 => TypeModel::F32,
            Type::F64 => TypeModel::F64,
            Type::SymInt => TypeModel::SymInt,
            Type::Bool => TypeModel::Bool,
            Type::Char => TypeModel::Char,
            Type::Str => TypeModel::Str,
            Type::Struct(n) => TypeModel::Struct(n@),
            Type::Enum(n) => TypeModel::Enum(n@),
            Type::TypeParam(n) => TypeModel::TypeParam(n@),
            Type::Generic(n, args) => TypeModel::Generic(
                n@,
                Seq::new(
                    args@.len(),
                    |i: int|
                        if 0 <= i < args@.len() {
                            args@[i].model()
                        } else {
                            TypeModel::Unit
                        },
                ),
            ),
            Type::Tensor { dtype, shape } => TypeModel::Tensor {
                dtype: Box::new(dtype.model()),
                shape: shapes_model(shape@),
            },
            Type::Privacy(inner, tag) => TypeModel::Privacy(Box::new(inner.model()), tag.model()),
            Type::SelfType => TypeModel::SelfType,
            Type::ConstIntArray(v) => TypeModel::ConstIntArray(v@),
            Type::Tuple(elems) => TypeModel::Tuple(
                Seq::new(
                    elems@.len(),
                    |i: int|
                        if 0 <= i < elems@.len() {
                            elems@[i].model()
                        } else {
                            TypeModel::Unit
                        },
                ),
            ),
            Type::Array(elem, n) => TypeModel::Array(Box::new(elem.model()), *n),
            Type::Ref { mutable, inner } => TypeModel::Ref {
                mutable: *mutable,
                inner: Box::new(inner.model()),
            },
            Type::Slice(inner) => TypeModel::Slice(Box::new(inner.model())),
            Type::Unit => TypeModel::Unit,
            Type::Never => TypeModel::Never,
        }
    }
}

impl View for Type {
    type V = TypeModel;

    open spec fn view(&self) -> TypeModel {
        self.model()
    }
}

/// Models of a sequence of types, element by element.
pub open spec fn types_model(s: Seq<Type>) -> Seq<TypeModel> {
    s.map_values(|t: Type| t@)
}

pub open spec fn opt_type_model(o: Option<Type>) -> Option<TypeModel> {
    match o {
        Some(t) => Some(t@),
        None => None,
    }
}

pub open spec fn opt_ref_type_model(o: Option<&Type>) -> Option<TypeModel> {
    match o {
        Some(t) => Some(t@),
        None => None,
    }
}

pub open spec fn opt_tag_model(o: Option<PrivacyTag>) -> Option<PrivacyTagModel> {
    match o {
        Some(t) => Some(t@),
        None => None,
    }
}

/// Copies an optional type.
pub fn duplicate_opt_type(t: &Option<Type>) -> (r: Option<Type>)
    ensures
        opt_type_model(r) == opt_type_model(*t),
{
    match t {
        Some(t) => Some(t.duplicate()),
        None => None,
    }
}

/// Copies a vector of types element by element.
pub fn duplicate_types(v: &Vec<Type>) -> (r: Vec<Type>)
    ensures
        types_model(r@) == types_model(v@),
        r@.len() == v@.len(),
    decreases v@, 0nat,
{
    let mut out: Vec<Type> = Vec::new();
    let mut i: usize = 0;
    while i < v.len()
        invariant
            i <= v.len(),
            out@.len() == i,
            forall|j: int| 0 <= j < i ==> out@[j]@ == v@[j]@,
        decreases v.len() - i,
    {
        proof {
            assert(decreases_to!(v@ => v@[i as int]));
        }
        out.push(v[i].duplicate());
        i += 1;
    }
    assert(types_model(out@) =~= types_model(v@));
    out
}

pub fn duplicate_shape(v: &Vec<ShapeDim>) -> (r: Vec<ShapeDim>)
    ensures
        shapes_model(r@) == shapes_model(v@),
{
    let mut out: Vec<ShapeDim> = Vec::new();
    let mut i: usize = 0;
    while i < v.len()
        invariant
            i <= v.len(),
            out@.len() == i,
            forall|j: int| 0 <= j < i ==> out@[j]@ == v@[j]@,
        decreases v.len() - i,
    {
        out.push(v[i].duplicate());
        i += 1;
    }
    assert(shapes_model(out@) =~= shapes_model(v@));
    out
}

pub fn duplicate_i64s(v: &Vec<i64>) -> (r: Vec<i64>)
    ensures
        r@ == v@,
{
    let mut out: Vec<i64> = Vec::new();
    let mut i: usize = 0;
    while i < v.len()
        invariant
            i <= v.len(),
            out@ == v@.take(i as int),
        decreases v.len() - i,
    {
        out.push(v[i]);
        i += 1;
        assert(out@ =~= v@.take(i as int));
    }
    assert(v@.take(v@.len() as int) =~= v@);
    out
}

pub proof fn lemma_types_model_index(s: Seq<Type>, i: int)
    requires
        0 <= i < s.len(),
    ensures
        types_model(s)[i] == s[i]@,
        types_model(s).len() == s.len(),
{
}

impl Type {
    /// A copy of this type with the same model.
    pub fn duplicate(&self) -> (r: Type)
        ensures
            r@ == self@,
        decreases self, 1nat,
    {
        match self {
            Type::I8 => Type::I8,
            Type::I16 => Type::I16,
            Type::I32 => Type::I32,
            Type::I64 => Type::I64,
            Type::I128 => Type::I128,
            Type::U8 => Type::U8,
            Type::U16 => Type::U16,
            Type::U32 => Type::U32,
            Type::U64 => Type::U64,
            Type::U128 => Type::U128,
            Type::F16 => Type::F16,
            Type::F32 => Type::F32,
            Type::F64 => Type::F64,
            Type::SymInt => Type::SymInt,
            Type::Bool => Type::Bool,
            Type::Char => Type::Char,
            Type::Str => Type::Str,
            Type::Struct(n) => Type::Struct(n.clone()),
            Type::Enum(n) => Type::Enum(n.clone()),
            Type::TypeParam(n) => Type::TypeParam(n.clone()),
            Type::Generic(n, args) => {
                let a = duplicate_types(args);
                let r = Type::Generic(n.clone(), a);
                proof {
                    assert(r@->Generic_1 =~= self@->Generic_1) by {
                        assert forall|i: int| 0 <= i < args@.len() implies #[trigger] r@->Generic_1[i]
                            == self@->Generic_1[i] by {
                            lemma_types_model_index(a@, i);
                            lemma_types_model_index(args@, i);
                            assert(types_model(a@)[i] == types_model(args@)[i]);
                        }
                    }
                }
                r
            },
            Type::Tensor { dtype, shape } => Type::Tensor {
                dtype: Box::new(dtype.duplicate()),
                shape: duplicate_shape(shape),
            },
            Type::Privacy(inner, tag) => Type::Privacy(Box::new(inner.duplicate()), tag.duplicate()),
            Type::SelfType => Type::SelfType,
            Type::ConstIntArray(v) => Type::ConstIntArray(duplicate_i64s(v)),
            Type::Tuple(elems) => {
                let a = duplicate_types(elems);
                let r = Type::Tuple(a);
                proof {
                    assert(r@->Tuple_0 =~= self@->Tuple_0) by {
                        assert forall|i: int| 0 <= i < elems@.len() implies #[trigger] r@->Tuple_0[i]
                            == self@->Tuple_0[i] by {
                            lemma_types_model_index(a@, i);
                            lemma_types_model_index(elems@, i);
                            assert(types_model(a@)[i] == types_model(elems@)[i]);
                        }
                    }
                }
                r
            },
            Type::Array(elem, n) => Type::Array(Box::new(elem.duplicate()), *n),
            Type::Ref { mutable, inner } => Type::Ref {
                mutable: *mutable,
                inner: Box::new(inner.duplicate()),
            },
            Type::Slice(inner) => Type::Slice(Box::new(inner.duplicate())),
            Type::Unit => Type::Unit,
            Type::Never => Type::Never,
        }
    }

    /// The privacy tag that labels this type at its top level, if any.
    pub fn privacy_tag(&self) -> (r: Option<PrivacyTag>)
        ensures
            opt_tag_model(r) == match self@ {
                TypeModel::Privacy(_, tag) => Some(tag),
                _ => None,
            },
    {
        match self {
            Type::Privacy(_, tag) => Some(tag.duplicate()),
            _ => None,
        }
    }
}

// ===== copies of text-bearing values =====

/// Two sequences of strings with the same text, element by element.
pub open spec fn strs_same(a: Seq<String>, b: Seq<String>) -> bool {
    a.len() == b.len() && forall|i: int| 0 <= i < a.len() ==> #[trigger] a[i]@ == b[i]@
}

pub open spec fn pairs_same(a: Seq<(String, String)>, b: Seq<(String, String)>) -> bool {
    a.len() == b.len() && forall|i: int|
        0 <= i < a.len() ==> #[trigger] a[i].0@ == b[i].0@ && a[i].1@ == b[i].1@
}

pub open spec fn opt_strs_same(a: Seq<Option<String>>, b: Seq<Option<String>>) -> bool {
    a.len() == b.len() && forall|i: int| 0 <= i < a.len() ==> #[trigger] opt_text(a[i]) == opt_text(b[i])
}

/// Two patterns that read the same.
pub open spec fn pattern_same(a: Pattern, b: Pattern) -> bool {
    match (a, b) {
        (
            Pattern::EnumVariant { enum_name: e1, variant_name: v1 },
            Pattern::EnumVariant { enum_name: e2, variant_name: v2 },
        ) => e1@ == e2@ && v1@ == v2@,
        (
            Pattern::EnumVariantWithBinding { enum_name: e1, variant_name: v1, binding: b1 },
            Pattern::EnumVariantWithBinding { enum_name: e2, variant_name: v2, binding: b2 },
        ) => e1@ == e2@ && v1@ == v2@ && b1@ == b2@,
        (Pattern::Wildcard, Pattern::Wildcard) => true,
        (Pattern::IntLiteral(x), Pattern::IntLiteral(y)) => x == y,
        (Pattern::BoolLiteral(x), Pattern::BoolLiteral(y)) => x == y,
        (Pattern::CharLiteral(x), Pattern::CharLiteral(y)) => x == y,
        (
            Pattern::Struct { struct_name: s1, fields: f1 },
            Pattern::Struct { struct_name: s2, fields: f2 },
        ) => s1@ == s2@ && pairs_same(f1@, f2@),
        (Pattern::Tuple(x), Pattern::Tuple(y)) => opt_strs_same(x@, y@),
        (Pattern::Array(x), Pattern::Array(y)) => opt_strs_same(x@, y@),
        _ => false,
    }
}

/// Two literals with the same value.
pub open spec fn literal_same(a: Literal, b: Literal) -> bool {
    match (a, b) {
        (Literal::String(x), Literal::String(y)) => x@ == y@,
        (Literal::ByteString(x), Literal::ByteString(y)) => x@ == y@,
        _ => a == b,
    }
}

pub fn duplicate_strings(v: &Vec<String>) -> (r: Vec<String>)
    ensures
        strs_same(r@, v@),
{
    let mut out: Vec<String> = Vec::new();
    let mut i: usize = 0;
    while i < v.len()
        invariant
            i <= v@.len(),
            out@.len() == i,
            forall|j: int| 0 <= j < i ==> #[trigger] out@[j]@ == v@[j]@,
        decreases v.len() - i,
    {
        out.push(v[i].clone());
        i += 1;
    }
    out
}

fn duplicate_pairs(v: &Vec<(String, String)>) -> (r: Vec<(String, String)>)
    ensures
        pairs_same(r@, v@),
{
    let mut out: Vec<(String, String)> = Vec::new();
    let mut i: usize = 0;
    while i < v.len()
        invariant
            i <= v@.len(),
            out@.len() == i,
            forall|j: int| 0 <= j < i ==> #[trigger] out@[j].0@ == v@[j].0@ && out@[j].1@ == v@[j].1@,
        decreases v.len() - i,
    {
        out.push((v[i].0.clone(), v[i].1.clone()));
        i += 1;
    }
    out
}

fn duplicate_opt_strings(v: &Vec<Option<String>>) -> (r: Vec<Option<String>>)
    ensures
        opt_strs_same(r@, v@),
{
    let mut out: Vec<Option<String>> = Vec::new();
    let mut i: usize = 0;
    while i < v.len()
        invariant
            i <= v@.len(),
            out@.len() == i,
            forall|j: int| 0 <= j < i ==> #[trigger] opt_text(out@[j]) == opt_text(v@[j]),
        decreases v.len() - i,
    {
        out.push(duplicate_opt_string(&v[i]));
        i += 1;
    }
    out
}

fn duplicate_bytes(v: &Vec<u8>) -> (r: Vec<u8>)
    ensures
        r@ == v@,
{
    let mut out: Vec<u8> = Vec::new();
    let mut i: usize = 0;
    while i < v.len()
        invariant
            i <= v@.len(),
            out@ == v@.take(i as int),
        decreases v.len() - i,
    {
        out.push(v[i]);
        i += 1;
        assert(out@ =~= v@.take(i as int));
    }
    assert(v@.take(v@.len() as int) =~= v@);
    out
}

impl Pattern {
    /// A copy of this pattern.
    pub fn duplicate(&self) -> (r: Pattern)
        ensures
            pattern_same(r, *self),
    {
        match self {
            Pattern::EnumVariant { enum_name, variant_name } => Pattern::EnumVariant {
                enum_name: enum_name.clone(),
                variant_name: variant_name.clone(),
            },
            Pattern::EnumVariantWithBinding { enum_name, variant_name, binding } => {
                Pattern::EnumVariantWithBinding {
                    enum_name: enum_name.clone(),
                    variant_name: variant_name.clone(),
                    binding: binding.clone(),
                }
            },
            Pattern::Wildcard => Pattern::Wildcard,
            Pattern::IntLiteral(x) => Pattern::IntLiteral(*x),
            Pattern::BoolLiteral(x) => Pattern::BoolLiteral(*x),
            Pattern::CharLiteral(x) => Pattern::CharLiteral(*x),
            Pattern::Struct { struct_name, fields } => Pattern::Struct {
                struct_name: struct_name.clone(),
                fields: duplicate_pairs(fields),
            },
            Pattern::Tuple(x) => Pattern::Tuple(duplicate_opt_strings(x)),
            Pattern::Array(x) => Pattern::Array(duplicate_opt_strings(x)),
        }
    }
}

impl Literal {
    /// A copy of this literal.
    pub fn duplicate(&self) -> (r: Literal)
        ensures
            literal_same(r, *self),
    {
        match self {
            Literal::Int8(v) => Literal::Int8(*v),
            Literal::Int16(v) => Literal::Int16(*v),
            Literal::Int32(v) => Literal::Int32(*v),
            Literal::Int64(v) => Literal::Int64(*v),
            Literal::Int128(v) => Literal::Int128(*v),
            Literal::UInt8(v) => Literal::UInt8(*v),
            Literal::UInt16(v) => Literal::UInt16(*v),
            Literal::UInt32(v) => Literal::UInt32(*v),
            Literal::UInt64(v) => Literal::UInt64(*v),
            Literal::UInt128(v) => Literal::UInt128(*v),
            Literal::Isize(v) => Literal::Isize(*v),
            Literal::Usize(v) => Literal::Usize(*v),
            Literal::Float16(v) => Literal::Float16(*v),
            Literal::Float32(v) => Literal::Float32(*v),
            Literal::Float64(v) => Literal::Float64(*v),
            Literal::Bool(v) => Literal::Bool(*v),
            Literal::Char(v) => Literal::Char(*v),
            Literal::String(v) => Literal::String(v.clone()),
            Literal::Unit => Literal::Unit,
            Literal::ByteString(v) => Literal::ByteString(duplicate_bytes(v)),
        }
    }
}

} // verus!
