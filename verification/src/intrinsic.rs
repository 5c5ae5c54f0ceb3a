//! Built-in functions and constants: their names in source, and the tables
//! that describe them.
use vstd::prelude::*;
use crate::ast::{Literal, Type, TypeModel};
use crate::text::{chars_of, chars_eq_str};

verus! {

/// The built-in functions.
#[derive(Debug, Clone, Copy, PartialEq, Eq, Structural, Hash, PartialOrd, Ord)]
pub enum IntrinsicFn {
    Print,
    Panic,
    FromUtf8Unchecked,
    TensorCond,
    TensorWhileLoop,
    Linear,
    Conv2d,
    MaxPool2d,
    Flatten,
    Reshape,
    Relu,
    Dropout,
    LayerNorm,
    Sum,
}

/// The built-in constants.
#[derive(Debug, Clone, Copy, PartialEq, Eq, Structural, Hash, PartialOrd, Ord)]
pub enum IntrinsicConst {
    I8Max,
    I16Max,
    I32Max,
    I64Max,
    I128Max,
    U8Max,
    U16Max,
    U32Max,
    U64Max,
    U128Max,
    F32Infinity,
    F32Nan,
    F64Infinity,
    F64Nan,
}

/// The name under which a built-in function is written in source.
pub open spec fn fn_name(f: IntrinsicFn) -> Seq<char> {
    match f {
        IntrinsicFn::Print => "print"@,
        IntrinsicFn::Panic => "panic"@,
        IntrinsicFn::FromUtf8Unchecked => "from_utf8_unchecked"@,
        IntrinsicFn::TensorCond => "tensor.cond"@,
        IntrinsicFn::TensorWhileLoop => "tensor.while_loop"@,
        IntrinsicFn::Linear => "linear"@,
        IntrinsicFn::Conv2d => "conv2d"@,
        IntrinsicFn::MaxPool2d => "max_pool2d"@,
        IntrinsicFn::Flatten => "flatten"@,
        IntrinsicFn::Reshape => "reshape"@,
        IntrinsicFn::Relu => "relu"@,
        IntrinsicFn::Dropout => "dropout"@,
        IntrinsicFn::LayerNorm => "layer_norm"@,
        IntrinsicFn::Sum => "sum"@,
    }
}

/// The name under which a built-in constant is written in source.
pub open spec fn const_name(c: IntrinsicConst) -> Seq<char> {
    match c {
        IntrinsicConst::I8Max => "i8::MAX"@,
        IntrinsicConst::I16Max => "i16::MAX"@,
        IntrinsicConst::I32Max => "i32::MAX"@,
        IntrinsicConst::I64Max => "i64::MAX"@,
        IntrinsicConst::I128Max => "i128::MAX"@,
        IntrinsicConst::U8Max => "u8::MAX"@,
        IntrinsicConst::U16Max => "u16::MAX"@,
        IntrinsicConst::U32Max => "u32::MAX"@,
        IntrinsicConst::U64Max => "u64::MAX"@,
        IntrinsicConst::U128Max => "u128::MAX"@,
        IntrinsicConst::F32Infinity => "f32::INFINITY"@,
        IntrinsicConst::F32Nan => "f32::NAN"@,
        IntrinsicConst::F64Infinity => "f64::INFINITY"@,
        IntrinsicConst::F64Nan => "f64::NAN"@,
    }
}

/// The position of a built-in function in the function table.
pub open spec fn fn_index(f: IntrinsicFn) -> int {
    match f {
        IntrinsicFn::Print => 0,
        IntrinsicFn::Panic => 1,
        IntrinsicFn::FromUtf8Unchecked => 2,
        IntrinsicFn::TensorCond => 3,
        IntrinsicFn::TensorWhileLoop => 4,
        IntrinsicFn::Linear => 5,
        IntrinsicFn::Conv2d => 6,
        IntrinsicFn::MaxPool2d => 7,
        IntrinsicFn::Flatten => 8,
        IntrinsicFn::Reshape => 9,
        IntrinsicFn::Relu => 10,
        IntrinsicFn::Dropout => 11,
        IntrinsicFn::LayerNorm => 12,
        IntrinsicFn::Sum => 13,
    }
}

/// The position of a built-in constant in the constant table.
pub open spec fn const_index(c: IntrinsicConst) -> int {
    match c {
        IntrinsicConst::I8Max => 0,
        IntrinsicConst::I16Max => 1,
        IntrinsicConst::I32Max => 2,
        IntrinsicConst::I64Max => 3,
        IntrinsicConst::I128Max => 4,
        IntrinsicConst::U8Max => 5,
        IntrinsicConst::U16Max => 6,
        IntrinsicConst::U32Max => 7,
        IntrinsicConst::U64Max => 8,
        IntrinsicConst::U128Max => 9,
        IntrinsicConst::F32Infinity => 10,
        IntrinsicConst::F32Nan => 11,
        IntrinsicConst::F64Infinity => 12,
        IntrinsicConst::F64Nan => 13,
    }
}

impl IntrinsicFn {
    /// Every built-in function, in table order.
    pub fn all() -> (r: Vec<IntrinsicFn>)
        ensures
            r@.len() == 14,
            forall|i: int| 0 <= i < 14 ==> fn_index(#[trigger] r@[i]) == i,
    {
        let mut v: Vec<IntrinsicFn> = Vec::new();
        v.push(IntrinsicFn::Print);
        v.push(IntrinsicFn::Panic);
        v.push(IntrinsicFn::FromUtf8Unchecked);
        v.push(IntrinsicFn::TensorCond);
        v.push(IntrinsicFn::TensorWhileLoop);
        v.push(IntrinsicFn::Linear);
        v.push(IntrinsicFn::Conv2d);
        v.push(IntrinsicFn::MaxPool2d);
        v.push(IntrinsicFn::Flatten);
        v.push(IntrinsicFn::Reshape);
        v.push(IntrinsicFn::Relu);
        v.push(IntrinsicFn::Dropout);
        v.push(IntrinsicFn::LayerNorm);
        v.push(IntrinsicFn::Sum);
        v
    }

    /// Position in the function table.
    pub fn index(self) -> (r: usize)
        ensures
            r as int == fn_index(self),
    {
        match self {
            IntrinsicFn::Print => 0,
            IntrinsicFn::Panic => 1,
            IntrinsicFn::FromUtf8Unchecked => 2,
            IntrinsicFn::TensorCond => 3,
            IntrinsicFn::TensorWhileLoop => 4,
            IntrinsicFn::Linear => 5,
            IntrinsicFn::Conv2d => 6,
            IntrinsicFn::MaxPool2d => 7,
            IntrinsicFn::Flatten => 8,
            IntrinsicFn::Reshape => 9,
            IntrinsicFn::Relu => 10,
            IntrinsicFn::Dropout => 11,
            IntrinsicFn::LayerNorm => 12,
            IntrinsicFn::Sum => 13,
        }
    }

    /// The built-in function written `s` in source.
    pub fn from_str(s: &str) -> (r: Option<IntrinsicFn>)
        ensures
            match r {
                Some(f) => fn_name(f) == s@,
                None => forall|f: IntrinsicFn| fn_name(f) != s@,
            },
    {
        let v = chars_of(s);
        if chars_eq_str(&v, "print") {
            return Some(IntrinsicFn::Print);
        }
        if chars_eq_str(&v, "panic") {
            return Some(IntrinsicFn::Panic);
        }
        if chars_eq_str(&v, "from_utf8_unchecked") {
            return Some(IntrinsicFn::FromUtf8Unchecked);
        }
        if chars_eq_str(&v, "tensor.cond") {
            return Some(IntrinsicFn::TensorCond);
        }
        if chars_eq_str(&v, "tensor.while_loop") {
            return Some(IntrinsicFn::TensorWhileLoop);
        }
        if chars_eq_str(&v, "linear") {
            return Some(IntrinsicFn::Linear);
        }
        if chars_eq_str(&v, "conv2d") {
            return Some(IntrinsicFn::Conv2d);
        }
        if chars_eq_str(&v, "max_pool2d") {
            return Some(IntrinsicFn::MaxPool2d);
        }
        if chars_eq_str(&v, "flatten") {
            return Some(IntrinsicFn::Flatten);
        }
        if chars_eq_str(&v, "reshape") {
            return Some(IntrinsicFn::Reshape);
        }
        if chars_eq_str(&v, "relu") {
            return Some(IntrinsicFn::Relu);
        }
        if chars_eq_str(&v, "dropout") {
            return Some(IntrinsicFn::Dropout);
        }
        if chars_eq_str(&v, "layer_norm") {
            return Some(IntrinsicFn::LayerNorm);
        }
        if chars_eq_str(&v, "sum") {
            return Some(IntrinsicFn::Sum);
        }
        None
    }
}

impl IntrinsicConst {
    /// Every built-in constant, in table order.
    pub fn all() -> (r: Vec<IntrinsicConst>)
        ensures
            r@.len() == 14,
            forall|i: int| 0 <= i < 14 ==> const_index(#[trigger] r@[i]) == i,
    {
        let mut v: Vec<IntrinsicConst> = Vec::new();
        v.push(IntrinsicConst::I8Max);
        v.push(IntrinsicConst::I16Max);
        v.push(IntrinsicConst::I32Max);
        v.push(IntrinsicConst::I64Max);
        v.push(IntrinsicConst::I128Max);
        v.push(IntrinsicConst::U8Max);
        v.push(IntrinsicConst::U16Max);
        v.push(IntrinsicConst::U32Max);
        v.push(IntrinsicConst::U64Max);
        v.push(IntrinsicConst::U128Max);
        v.push(IntrinsicConst::F32Infinity);
        v.push(IntrinsicConst::F32Nan);
        v.push(IntrinsicConst::F64Infinity);
        v.push(IntrinsicConst::F64Nan);
        v
    }

    /// Position in the constant table.
    pub fn index(self) -> (r: usize)
        ensures
            r as int == const_index(self),
    {
        match self {
            IntrinsicConst::I8Max => 0,
            IntrinsicConst::I16Max => 1,
            IntrinsicConst::I32Max => 2,
            IntrinsicConst::I64Max => 3,
            IntrinsicConst::I128Max => 4,
            IntrinsicConst::U8Max => 5,
            IntrinsicConst::U16Max => 6,
            IntrinsicConst::U32Max => 7,
            IntrinsicConst::U64Max => 8,
            IntrinsicConst::U128Max => 9,
            IntrinsicConst::F32Infinity => 10,
            IntrinsicConst::F32Nan => 11,
            IntrinsicConst::F64Infinity => 12,
            IntrinsicConst::F64Nan => 13,
        }
    }

    /// The built-in constant written `s` in source.
    pub fn from_str(s: &str) -> (r: Option<IntrinsicConst>)
        ensures
            match r {
                Some(c) => const_name(c) == s@,
                None => forall|c: IntrinsicConst| const_name(c) != s@,
            },
    {
        let v = chars_of(s);
        if chars_eq_str(&v, "i8::MAX") {
            return Some(IntrinsicConst::I8Max);
        }
        if chars_eq_str(&v, "i16::MAX") {
            return Some(IntrinsicConst::I16Max);
        }
        if chars_eq_str(&v, "i32::MAX") {
            return Some(IntrinsicConst::I32Max);
        }
        if chars_eq_str(&v, "i64::MAX") {
            return Some(IntrinsicConst::I64Max);
        }
        if chars_eq_str(&v, "i128::MAX") {
            return Some(IntrinsicConst::I128Max);
        }
        if chars_eq_str(&v, "u8::MAX") {
            return Some(IntrinsicConst::U8Max);
        }
        if chars_eq_str(&v, "u16::MAX") {
            return Some(IntrinsicConst::U16Max);
        }
        if chars_eq_str(&v, "u32::MAX") {
            return Some(IntrinsicConst::U32Max);
        }
        if chars_eq_str(&v, "u64::MAX") {
            return Some(IntrinsicConst::U64Max);
        }
        if chars_eq_str(&v, "u128::MAX") {
            return Some(IntrinsicConst::U128Max);
        }
        if chars_eq_str(&v, "f32::INFINITY") {
            return Some(IntrinsicConst::F32Infinity);
        }
        if chars_eq_str(&v, "f32::NAN") {
            return Some(IntrinsicConst::F32Nan);
        }
        if chars_eq_str(&v, "f64::INFINITY") {
            return Some(IntrinsicConst::F64Infinity);
        }
        if chars_eq_str(&v, "f64::NAN") {
            return Some(IntrinsicConst::F64Nan);
        }
        None
    }
}
/// Distinct built-in functions have distinct names, so reading back the
/// name of a built-in function gives that function.
pub proof fn law_fn_names_distinct(f: IntrinsicFn, g: IntrinsicFn)
    ensures
        fn_name(f) == fn_name(g) ==> f == g,
{
    reveal_strlit("print");
    reveal_strlit("panic");
    reveal_strlit("from_utf8_unchecked");
    reveal_strlit("tensor.cond");
    reveal_strlit("tensor.while_loop");
    reveal_strlit("linear");
    reveal_strlit("conv2d");
    reveal_strlit("max_pool2d");
    reveal_strlit("flatten");
    reveal_strlit("reshape");
    reveal_strlit("relu");
    reveal_strlit("dropout");
    reveal_strlit("layer_norm");
    reveal_strlit("sum");
    if fn_name(f) == fn_name(g) && f != g {
        assert(fn_name(f).len() == fn_name(g).len());
        assert(fn_name(f)[0] == fn_name(g)[0]);
        assert(fn_name(f)[1] == fn_name(g)[1]);
    }
}

/// Distinct built-in constants have distinct names.
pub proof fn law_const_names_distinct(c: IntrinsicConst, d: IntrinsicConst)
    ensures
        const_name(c) == const_name(d) ==> c == d,
{
    reveal_strlit("i8::MAX");
    reveal_strlit("i16::MAX");
    reveal_strlit("i32::MAX");
    reveal_strlit("i64::MAX");
    reveal_strlit("i128::MAX");
    reveal_strlit("u8::MAX");
    reveal_strlit("u16::MAX");
    reveal_strlit("u32::MAX");
    reveal_strlit("u64::MAX");
    reveal_strlit("u128::MAX");
    reveal_strlit("f32::INFINITY");
    reveal_strlit("f32::NAN");
    reveal_strlit("f64::INFINITY");
    reveal_strlit("f64::NAN");
    if const_name(c) == const_name(d) && c != d {
        assert(const_name(c).len() == const_name(d).len());
        assert(const_name(c)[0] == const_name(d)[0]);
        assert(const_name(c)[1] == const_name(d)[1]);
        assert(const_name(c)[2] == const_name(d)[2]);
    }
}

/// Table positions of distinct built-ins are distinct.
pub proof fn law_table_positions_distinct(f: IntrinsicFn, g: IntrinsicFn, c: IntrinsicConst, d: IntrinsicConst)
    ensures
        fn_index(f) == fn_index(g) ==> f == g,
        const_index(c) == const_index(d) ==> c == d,
        0 <= fn_index(f) < 14,
        0 <= const_index(c) < 14,
{
}

/// Of the built-in functions only `panic` never returns.
pub proof fn law_only_panic_diverges(f: IntrinsicFn, i: Intrinsic)
    requires
        describes_fn(f, i),
    ensures
        diverging(i) <==> f == IntrinsicFn::Panic,
{
}

// ===== metadata of the built-in functions =====

/// A parameter of a built-in function's signature.
#[derive(Debug, PartialEq)]
pub enum IntrinsicParam {
    Value(Type),
    Ref(bool, Type),
    Fn(Vec<Type>, Box<Type>),
    VarArgs,
}

#[derive(Debug)]
pub struct IntrinsicSignature {
    pub params: Vec<IntrinsicParam>,
    pub return_type: Type,
}

#[derive(Debug)]
pub struct Intrinsic {
    pub kind: IntrinsicKind,
    pub allowed_in_model: bool,
    pub is_pure: bool,
    pub requires_unsafe: bool,
    pub signature: Option<IntrinsicSignature>,
    pub link_name: &'static str,
    pub doc: &'static str,
}

#[derive(Debug, Clone, Copy, PartialEq, Eq, Structural)]
pub enum IntrinsicKind {
    Function,
    Special,
}

/// The signature declares a `!` return type.
pub open spec fn diverging(i: Intrinsic) -> bool {
    i.signature matches Some(sig) && sig.return_type@ == TypeModel::Never
}

impl Intrinsic {
    /// Whether a call of this built-in never returns.
    pub fn diverges(&self) -> (r: bool)
        ensures
            r == diverging(*self),
    {
        match &self.signature {
            Some(IntrinsicSignature { return_type: Type::Never, .. }) => true,
            _ => false,
        }
    }
}

/// The signature of a built-in taking one value of type `p` and returning
/// `ret`.
pub open spec fn unary_signature(s: Option<IntrinsicSignature>, p: IntrinsicParam, ret: TypeModel) -> bool {
    s matches Some(sig) && sig.params@.len() == 1 && sig.params@[0] == p && sig.return_type@ == ret
}

/// `i` is the table entry of the built-in function `f`.
pub open spec fn describes_fn(f: IntrinsicFn, i: Intrinsic) -> bool {
    &&& i.kind == if f == IntrinsicFn::TensorCond || f == IntrinsicFn::TensorWhileLoop {
        IntrinsicKind::Special
    } else {
        IntrinsicKind::Function
    }
    &&& i.allowed_in_model == !(f == IntrinsicFn::Print || f == IntrinsicFn::Panic)
    &&& i.is_pure == !(f == IntrinsicFn::Print || f == IntrinsicFn::Panic)
    &&& i.requires_unsafe == (f == IntrinsicFn::FromUtf8Unchecked)
    &&& match f {
        IntrinsicFn::Print => unary_signature(i.signature, IntrinsicParam::Value(Type::Str), TypeModel::Unit),
        IntrinsicFn::Panic => unary_signature(i.signature, IntrinsicParam::Value(Type::Str), TypeModel::Never),
        IntrinsicFn::FromUtf8Unchecked => unary_signature(
            i.signature,
            IntrinsicParam::Ref(false, Type::Slice(Box::new(Type::U8))),
            TypeModel::Ref { mutable: false, inner: Box::new(TypeModel::Str) },
        ),
        _ => i.signature is None,
    }
    &&& i.link_name@ == fn_link_name(f)
    &&& i.doc@ == fn_doc(f)
}

pub open spec fn fn_link_name(f: IntrinsicFn) -> Seq<char> {
    match f {
        IntrinsicFn::Print => "xiyi::io::print"@,
        IntrinsicFn::Panic => "core::panic"@,
        IntrinsicFn::FromUtf8Unchecked => "core::str::from_utf8_unchecked"@,
        IntrinsicFn::TensorCond => "xiyi_tensor::cond"@,
        IntrinsicFn::TensorWhileLoop => "xiyi_tensor::while_loop"@,
        IntrinsicFn::Linear => "xiyi_math::linear"@,
        IntrinsicFn::Conv2d => "xiyi_math::conv2d"@,
        IntrinsicFn::MaxPool2d => "xiyi_math::max_pool2d"@,
        IntrinsicFn::Flatten => "xiyi_math::flatten"@,
        IntrinsicFn::Reshape => "xiyi_math::reshape"@,
        IntrinsicFn::Relu => "xiyi_math::relu"@,
        IntrinsicFn::Dropout => "xiyi_math::dropout"@,
        IntrinsicFn::LayerNorm => "xiyi_math::layer_norm"@,
        IntrinsicFn::Sum => "xiyi_math::sum"@,
    }
}

pub open spec fn fn_doc(f: IntrinsicFn) -> Seq<char> {
    match f {
        IntrinsicFn::Print => "Prints a value to standard output"@,
        IntrinsicFn::Panic => "Panics with a given message"@,
        IntrinsicFn::FromUtf8Unchecked => "Converts &[u8] to &str without validation (unsafe)"@,
        IntrinsicFn::TensorCond => "Dynamic conditional in graph domain"@,
        IntrinsicFn::TensorWhileLoop => "Dynamic while loop in graph domain"@,
        IntrinsicFn::Linear => "Linear transformation"@,
        IntrinsicFn::Conv2d => "2D convolution"@,
        IntrinsicFn::MaxPool2d => "2D max pooling"@,
        IntrinsicFn::Flatten => "Flatten tensor"@,
        IntrinsicFn::Reshape => "Reshape tensor"@,
        IntrinsicFn::Relu => "ReLU activation"@,
        IntrinsicFn::Dropout => "Dropout"@,
        IntrinsicFn::LayerNorm => "Layer normalization"@,
        IntrinsicFn::Sum => "Sum reduction"@,
    }
}

/// The table entry of one of the tensor operators, whose signatures the
/// type checker handles itself.
fn tensor_op(link_name: &'static str, doc: &'static str) -> (r: Intrinsic)
    ensures
        r.kind == IntrinsicKind::Function,
        r.allowed_in_model,
        r.is_pure,
        !r.requires_unsafe,
        r.signature is None,
        r.link_name == link_name,
        r.doc == doc,
{
    Intrinsic {
        kind: IntrinsicKind::Function,
        allowed_in_model: true,
        is_pure: true,
        requires_unsafe: false,
        signature: None,
        link_name,
        doc,
    }
}

/// One signature parameter: a value of type `t`.
fn str_signature(return_type: Type) -> (r: IntrinsicSignature)
    ensures
        r.params@.len() == 1,
        r.params@[0] == IntrinsicParam::Value(Type::Str),
        r.return_type == return_type,
{
    let mut params: Vec<IntrinsicParam> = Vec::new();
    params.push(IntrinsicParam::Value(Type::Str));
    IntrinsicSignature { params, return_type }
}

/// One signature parameter, a shared byte slice; returns a shared `str`.
fn bytes_to_str_signature() -> (r: IntrinsicSignature)
    ensures
        unary_signature(
            Some(r),
            IntrinsicParam::Ref(false, Type::Slice(Box::new(Type::U8))),
            TypeModel::Ref { mutable: false, inner: Box::new(TypeModel::Str) },
        ),
{
    let mut params: Vec<IntrinsicParam> = Vec::new();
    params.push(IntrinsicParam::Ref(false, Type::Slice(Box::new(Type::U8))));
    let inner = Type::Str;
    assert(inner@ == TypeModel::Str);
    let ret = Type::Ref { mutable: false, inner: Box::new(inner) };
    IntrinsicSignature {
        params,
        return_type: ret,
    }
}

/// The table of built-in functions, indexed by `fn_index`.
pub fn build_fn_table() -> (r: Vec<Option<Intrinsic>>)
    ensures
        r@.len() == 14,
        forall|f: IntrinsicFn| #[trigger] r@[fn_index(f)] matches Some(i) && describes_fn(f, i),
{
    let mut t: Vec<Option<Intrinsic>> = Vec::new();
    t.push(Some(Intrinsic {
        kind: IntrinsicKind::Function,
        allowed_in_model: false,
        is_pure: false,
        requires_unsafe: false,
        signature: Some(str_signature(Type::Unit)),
        link_name: "xiyi::io::print",
        doc: "Prints a value to standard output",
    }));
    t.push(Some(Intrinsic {
        kind: IntrinsicKind::Function,
        allowed_in_model: false,
        is_pure: false,
        requires_unsafe: false,
        signature: Some(str_signature(Type::Never)),
        link_name: "core::panic",
        doc: "Panics with a given message",
    }));
    t.push(Some(Intrinsic {
        kind: IntrinsicKind::Function,
        allowed_in_model: true,
        is_pure: true,
        requires_unsafe: true,
        signature: Some(bytes_to_str_signature()),
        link_name: "core::str::from_utf8_unchecked",
        doc: "Converts &[u8] to &str without validation (unsafe)",
    }));
    t.push(Some(Intrinsic {
        kind: IntrinsicKind::Special,
        allowed_in_model: true,
        is_pure: true,
        requires_unsafe: false,
        signature: None,
        link_name: "xiyi_tensor::cond",
        doc: "Dynamic conditional in graph domain",
    }));
    t.push(Some(Intrinsic {
        kind: IntrinsicKind::Special,
        allowed_in_model: true,
        is_pure: true,
        requires_unsafe: false,
        signature: None,
        link_name: "xiyi_tensor::while_loop",
        doc: "Dynamic while loop in graph domain",
    }));
    t.push(Some(tensor_op("xiyi_math::linear", "Linear transformation")));
    t.push(Some(tensor_op("xiyi_math::conv2d", "2D convolution")));
    t.push(Some(tensor_op("xiyi_math::max_pool2d", "2D max pooling")));
    t.push(Some(tensor_op("xiyi_math::flatten", "Flatten tensor")));
    t.push(Some(tensor_op("xiyi_math::reshape", "Reshape tensor")));
    t.push(Some(tensor_op("xiyi_math::relu", "ReLU activation")));
    t.push(Some(tensor_op("xiyi_math::dropout", "Dropout")));
    t.push(Some(tensor_op("xiyi_math::layer_norm", "Layer normalization")));
    t.push(Some(tensor_op("xiyi_math::sum", "Sum reduction")));
    assert(t@[0] matches Some(e) && describes_fn(IntrinsicFn::Print, e));
    assert(t@[1] matches Some(e) && describes_fn(IntrinsicFn::Panic, e));
    assert(t@[2] matches Some(e) && describes_fn(IntrinsicFn::FromUtf8Unchecked, e));
    assert(t@[3] matches Some(e) && describes_fn(IntrinsicFn::TensorCond, e));
    assert(t@[4] matches Some(e) && describes_fn(IntrinsicFn::TensorWhileLoop, e));
    assert(t@[5] matches Some(e) && describes_fn(IntrinsicFn::Linear, e));
    assert(t@[6] matches Some(e) && describes_fn(IntrinsicFn::Conv2d, e));
    assert(t@[7] matches Some(e) && describes_fn(IntrinsicFn::MaxPool2d, e));
    assert(t@[8] matches Some(e) && describes_fn(IntrinsicFn::Flatten, e));
    assert(t@[9] matches Some(e) && describes_fn(IntrinsicFn::Reshape, e));
    assert(t@[10] matches Some(e) && describes_fn(IntrinsicFn::Relu, e));
    assert(t@[11] matches Some(e) && describes_fn(IntrinsicFn::Dropout, e));
    assert(t@[12] matches Some(e) && describes_fn(IntrinsicFn::LayerNorm, e));
    assert(t@[13] matches Some(e) && describes_fn(IntrinsicFn::Sum, e));
    assert forall|f: IntrinsicFn| #[trigger] t@[fn_index(f)] matches Some(i) && describes_fn(f, i) by {
        match f {
            IntrinsicFn::Print => {},
            IntrinsicFn::Panic => {},
            IntrinsicFn::FromUtf8Unchecked => {},
            IntrinsicFn::TensorCond => {},
            IntrinsicFn::TensorWhileLoop => {},
            IntrinsicFn::Linear => {},
            IntrinsicFn::Conv2d => {},
            IntrinsicFn::MaxPool2d => {},
            IntrinsicFn::Flatten => {},
            IntrinsicFn::Reshape => {},
            IntrinsicFn::Relu => {},
            IntrinsicFn::Dropout => {},
            IntrinsicFn::LayerNorm => {},
            IntrinsicFn::Sum => {},
        }
    }
    t
}

// ===== metadata of the built-in constants =====

#[derive(Debug)]
pub struct Constant {
    pub name: &'static str,
    pub ty: Type,
    pub value: Option<Literal>,
    pub doc: &'static str,
}

impl Constant {
    /// Whether the constant's value is known at compile time.
    pub fn has_known_value(&self) -> (r: bool)
        ensures
            r == self.value is Some,
    {
        self.value.is_some()
    }
}

pub open spec fn const_type(c: IntrinsicConst) -> TypeModel {
    match c {
        IntrinsicConst::I8Max => TypeModel::I8,
        IntrinsicConst::I16Max => TypeModel::I16,
        IntrinsicConst::I32Max => TypeModel::I32,
        IntrinsicConst::I64Max => TypeModel::I64,
        IntrinsicConst::I128Max => TypeModel::I128,
        IntrinsicConst::U8Max => TypeModel::U8,
        IntrinsicConst::U16Max => TypeModel::U16,
        IntrinsicConst::U32Max => TypeModel::U32,
        IntrinsicConst::U64Max => TypeModel::U64,
        IntrinsicConst::U128Max => TypeModel::U128,
        IntrinsicConst::F32Infinity => TypeModel::F32,
        IntrinsicConst::F32Nan => TypeModel::F32,
        IntrinsicConst::F64Infinity => TypeModel::F64,
        IntrinsicConst::F64Nan => TypeModel::F64,
    }
}

pub open spec fn const_doc(c: IntrinsicConst) -> Seq<char> {
    match c {
        IntrinsicConst::I8Max => "Maximum value of i8"@,
        IntrinsicConst::I16Max => "Maximum value of i16"@,
        IntrinsicConst::I32Max => "Maximum value of i32"@,
        IntrinsicConst::I64Max => "Maximum value of i64"@,
        IntrinsicConst::I128Max => "Maximum value of i128"@,
        IntrinsicConst::U8Max => "Maximum value of u8"@,
        IntrinsicConst::U16Max => "Maximum value of u16"@,
        IntrinsicConst::U32Max => "Maximum value of u32"@,
        IntrinsicConst::U64Max => "Maximum value of u64"@,
        IntrinsicConst::U128Max => "Maximum value of u128"@,
        IntrinsicConst::F32Infinity => "Infinity for f32"@,
        IntrinsicConst::F32Nan => "NaN for f32"@,
        IntrinsicConst::F64Infinity => "Infinity for f64"@,
        IntrinsicConst::F64Nan => "NaN for f64"@,
    }
}

/// `k` is the table entry of the built-in constant `c`; no value is folded
/// yet.
pub open spec fn describes_const(c: IntrinsicConst, k: Constant) -> bool {
    &&& k.name@ == const_name(c)
    &&& k.ty@ == const_type(c)
    &&& k.value is None
    &&& k.doc@ == const_doc(c)
}

/// The table of built-in constants, indexed by `const_index`.
pub fn build_const_table() -> (r: Vec<Option<Constant>>)
    ensures
        r@.len() == 14,
        forall|c: IntrinsicConst| #[trigger] r@[const_index(c)] matches Some(k) && describes_const(c, k),
{
    let mut t: Vec<Option<Constant>> = Vec::new();
    t.push(Some(Constant { name: "i8::MAX", ty: Type::I8, value: None, doc: "Maximum value of i8" }));
    t.push(Some(Constant { name: "i16::MAX", ty: Type::I16, value: None, doc: "Maximum value of i16" }));
    t.push(Some(Constant { name: "i32::MAX", ty: Type::I32, value: None, doc: "Maximum value of i32" }));
    t.push(Some(Constant { name: "i64::MAX", ty: Type::I64, value: None, doc: "Maximum value of i64" }));
    t.push(Some(Constant { name: "i128::MAX", ty: Type::I128, value: None, doc: "Maximum value of i128" }));
    t.push(Some(Constant { name: "u8::MAX", ty: Type::U8, value: None, doc: "Maximum value of u8" }));
    t.push(Some(Constant { name: "u16::MAX", ty: Type::U16, value: None, doc: "Maximum value of u16" }));
    t.push(Some(Constant { name: "u32::MAX", ty: Type::U32, value: None, doc: "Maximum value of u32" }));
    t.push(Some(Constant { name: "u64::MAX", ty: Type::U64, value: None, doc: "Maximum value of u64" }));
    t.push(Some(Constant { name: "u128::MAX", ty: Type::U128, value: None, doc: "Maximum value of u128" }));
    t.push(Some(Constant { name: "f32::INFINITY", ty: Type::F32, value: None, doc: "Infinity for f32" }));
    t.push(Some(Constant { name: "f32::NAN", ty: Type::F32, value: None, doc: "NaN for f32" }));
    t.push(Some(Constant { name: "f64::INFINITY", ty: Type::F64, value: None, doc: "Infinity for f64" }));
    t.push(Some(Constant { name: "f64::NAN", ty: Type::F64, value: None, doc: "NaN for f64" }));
    assert forall|c: IntrinsicConst| #[trigger] t@[const_index(c)] matches Some(k) && describes_const(c, k) by {
        match c {
            IntrinsicConst::I8Max => {},
            _ => {},
        }
    }
    t
}

// ===== lookups =====

/// The table entry of the built-in function `name`.
pub fn get_intrinsic(name: IntrinsicFn) -> (r: Option<Intrinsic>)
    ensures
        r matches Some(i) && describes_fn(name, i),
{
    let mut t = build_fn_table();
    let i = name.index();
    t.swap_remove(i)
}

/// The table entry of the built-in constant `name`.
pub fn get_constant(name: IntrinsicConst) -> (r: Option<Constant>)
    ensures
        r matches Some(k) && describes_const(name, k),
{
    let mut t = build_const_table();
    let i = name.index();
    t.swap_remove(i)
}

/// Whether `s` names a built-in function or constant.
pub fn is_intrinsic(s: &str) -> (r: bool)
    ensures
        r == ((exists|f: IntrinsicFn| fn_name(f) == s@) || (exists|c: IntrinsicConst| const_name(c)
            == s@)),
{
    IntrinsicFn::from_str(s).is_some() || IntrinsicConst::from_str(s).is_some()
}

} // verus!
