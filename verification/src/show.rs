//! The text that error messages give of types and patterns: the form that
//! Rust's `{:?}` gives them, with names quoted and `"`, `\`, newline,
//! carriage return, tab and NUL escaped, and control characters and a set
//! of invisible formatting characters and combining marks written as
//! `\u{..}` codes.
use vstd::prelude::*;
use crate::ast::{Pattern, PrivacyTagModel, ShapeDim, ShapeDimModel, Type, TypeModel, PrivacyTag};
use crate::text::{decimal_text, digit_char};

verus! {

// ===== characters and numbers =====

/// The lower-case hexadecimal digit of `d`, below sixteen.
pub open spec fn hex_digit(d: nat) -> char {
    if d < 10 {
        (('0' as nat) + d) as char
    } else {
        (('a' as nat) + (d - 10)) as char
    }
}

/// A control character (other than tab, line feed and carriage return,
/// which have escapes of their own), delete, or one of the invisible
/// formatting characters and combining marks that `{:?}` writes as a code:
/// the soft hyphen, the combining diacritical marks, the zero-width and
/// direction marks, the line and paragraph separators, the invisible
/// operators and the byte order mark.
pub open spec fn is_coded_char(c: char) -> bool {
    let n = c as nat;
    (1 <= n < 0x20 && c != '\t' && c != '\n' && c != '\r') || (0x7f <= n <= 0x9f) || n == 0xad || (0x300
        <= n <= 0x36f) || (0x200b <= n <= 0x200f) || (0x2028 <= n <= 0x202e) || (0x2060 <= n <= 0x2064) || n
        == 0xfeff
}

/// `n` in lower-case hexadecimal without leading zeros.
pub open spec fn hex_text(n: nat) -> Seq<char>
    decreases n,
{
    if n < 16 {
        seq![hex_digit(n)]
    } else {
        hex_text(n / 16) + seq![hex_digit(n % 16)]
    }
}

/// `\u{..}` around the code of `c` in hexadecimal.
pub open spec fn unicode_escape(c: char) -> Seq<char> {
    seq!['\\', 'u', '{'] + hex_text(c as nat) + seq!['}']
}

/// One character of a quoted name.
pub open spec fn escape_char(c: char) -> Seq<char> {
    if c == '"' {
        seq!['\\', '"']
    } else if c == '\\' {
        seq!['\\', '\\']
    } else if c == '\n' {
        seq!['\\', 'n']
    } else if c == '\r' {
        seq!['\\', 'r']
    } else if c == '\t' {
        seq!['\\', 't']
    } else if c == '\0' {
        seq!['\\', '0']
    } else if is_coded_char(c) {
        unicode_escape(c)
    } else {
        seq![c]
    }
}

/// A name with each character escaped.
pub open spec fn escape_text(s: Seq<char>) -> Seq<char>
    decreases s.len(),
{
    if s.len() == 0 {
        Seq::empty()
    } else {
        escape_text(s.drop_last()) + escape_char(s.last())
    }
}

/// A name in double quotes.
pub open spec fn quoted(s: Seq<char>) -> Seq<char> {
    seq!['"'] + escape_text(s) + seq!['"']
}

/// A character in single quotes: `'` is escaped, `"` is not.
pub open spec fn char_quoted(c: char) -> Seq<char> {
    seq!['\''] + (if c == '\'' {
        seq!['\\', '\'']
    } else if c == '"' {
        seq![c]
    } else {
        escape_char(c)
    }) + seq!['\'']
}

/// An integer in decimal, with a minus sign when negative.
pub open spec fn int_text(i: int) -> Seq<char> {
    if i < 0 {
        seq!['-'] + decimal_text((-i) as nat)
    } else {
        decimal_text(i as nat)
    }
}

pub open spec fn bool_text(b: bool) -> Seq<char> {
    if b {
        "true"@
    } else {
        "false"@
    }
}

/// `Some("name")` or `None`.
pub open spec fn opt_name_text(o: Option<Seq<char>>) -> Seq<char> {
    match o {
        Some(s) => "Some("@ + quoted(s) + ")"@,
        None => "None"@,
    }
}

// ===== types =====

pub open spec fn tag_text(t: PrivacyTagModel) -> Seq<char> {
    match t {
        PrivacyTagModel::Public => "Public"@,
        PrivacyTagModel::Private => "Private"@,
        PrivacyTagModel::Differential { eps, delta } => "Differential { eps: "@ + quoted(eps)
            + ", delta: "@ + opt_name_text(delta) + " }"@,
    }
}

pub open spec fn dim_text(d: ShapeDimModel) -> Seq<char> {
    match d {
        ShapeDimModel::Const(n) => "Const("@ + decimal_text(n as nat) + ")"@,
        ShapeDimModel::Sym(s) => "Sym("@ + quoted(s) + ")"@,
        ShapeDimModel::Dyn => "Dyn"@,
    }
}

/// The first `n` dimensions, separated by `, `.
pub open spec fn dims_text(s: Seq<ShapeDimModel>, n: int) -> Seq<char>
    decreases n,
{
    if n <= 0 || n > s.len() {
        Seq::empty()
    } else if n == 1 {
        dim_text(s[0])
    } else {
        dims_text(s, n - 1) + ", "@ + dim_text(s[n - 1])
    }
}

/// The first `n` integers, separated by `, `.
pub open spec fn ints_text(s: Seq<i64>, n: int) -> Seq<char>
    decreases n,
{
    if n <= 0 || n > s.len() {
        Seq::empty()
    } else if n == 1 {
        int_text(s[0] as int)
    } else {
        ints_text(s, n - 1) + ", "@ + int_text(s[n - 1] as int)
    }
}

/// The text of a type.
pub open spec fn type_text(t: TypeModel) -> Seq<char>
    decreases t, 0int,
{
    match t {
        TypeModel::I8 => "I8"@,
        TypeModel::I16 => "I16"@,
        TypeModel::I32 => "I32"@,
        TypeModel::I64 => "I64"@,
        TypeModel::I128 => "I128"@,
        TypeModel::U8 => "U8"@,
        TypeModel::U16 => "U16"@,
        TypeModel::U32 => "U32"@,
        TypeModel::U64 => "U64"@,
        TypeModel::U128 => "U128"@,
        TypeModel::F16 => "F16"@,
        TypeModel::F32 => "F32"@,
        TypeModel::F64 => "F64"@,
        TypeModel::SymInt => "SymInt"@,
        TypeModel::Bool => "Bool"@,
        TypeModel::Char => "Char"@,
        TypeModel::Str => "Str"@,
        TypeModel::Struct(n) => "Struct("@ + quoted(n) + ")"@,
        TypeModel::Enum(n) => "Enum("@ + quoted(n) + ")"@,
        TypeModel::TypeParam(n) => "TypeParam("@ + quoted(n) + ")"@,
        TypeModel::Generic(n, args) => "Generic("@ + quoted(n) + ", ["@ + types_text(args, args.len() as int)
            + "])"@,
        TypeModel::Tensor { dtype, shape } => "Tensor { dtype: "@ + type_text(*dtype) + ", shape: ["@
            + dims_text(shape, shape.len() as int) + "] }"@,
        TypeModel::Privacy(inner, tag) => "Privacy("@ + type_text(*inner) + ", "@ + tag_text(tag) + ")"@,
        TypeModel::SelfType => "SelfType"@,
        TypeModel::ConstIntArray(v) => "ConstIntArray(["@ + ints_text(v, v.len() as int) + "])"@,
        TypeModel::Tuple(v) => "Tuple(["@ + types_text(v, v.len() as int) + "])"@,
        TypeModel::Array(inner, n) => "Array("@ + type_text(*inner) + ", "@ + decimal_text(n as nat) + ")"@,
        TypeModel::Ref { mutable, inner } => "Ref { mutable: "@ + bool_text(mutable) + ", inner: "@
            + type_text(*inner) + " }"@,
        TypeModel::Slice(inner) => "Slice("@ + type_text(*inner) + ")"@,
        TypeModel::Unit => "Unit"@,
        TypeModel::Never => "Never"@,
    }
}

/// The first `n` types, separated by `, `.
pub open spec fn types_text(s: Seq<TypeModel>, n: int) -> Seq<char>
    decreases s, n,
{
    if n <= 0 || n > s.len() {
        Seq::empty()
    } else if n == 1 {
        type_text(s[0])
    } else {
        types_text(s, n - 1) + ", "@ + type_text(s[n - 1])
    }
}

/// The text of an optional type: `Some(..)` or `None`.
pub open spec fn opt_type_text(t: Option<TypeModel>) -> Seq<char> {
    match t {
        Some(x) => "Some("@ + type_text(x) + ")"@,
        None => "None"@,
    }
}

// ===== patterns =====

pub open spec fn pair_text(a: Seq<char>, b: Seq<char>) -> Seq<char> {
    "("@ + quoted(a) + ", "@ + quoted(b) + ")"@
}

/// The first `n` field bindings of a struct pattern, separated by `, `.
pub open spec fn pairs_text(s: Seq<(String, String)>, n: int) -> Seq<char>
    decreases n,
{
    if n <= 0 || n > s.len() {
        Seq::empty()
    } else if n == 1 {
        pair_text(s[0].0@, s[0].1@)
    } else {
        pairs_text(s, n - 1) + ", "@ + pair_text(s[n - 1].0@, s[n - 1].1@)
    }
}

/// The first `n` slots of a tuple or array pattern, separated by `, `.
pub open spec fn slots_text(s: Seq<Option<String>>, n: int) -> Seq<char>
    decreases n,
{
    if n <= 0 || n > s.len() {
        Seq::empty()
    } else if n == 1 {
        opt_name_text(crate::ast::opt_text(s[0]))
    } else {
        slots_text(s, n - 1) + ", "@ + opt_name_text(crate::ast::opt_text(s[n - 1]))
    }
}

/// The text of a pattern.
pub open spec fn pattern_text(p: Pattern) -> Seq<char> {
    match p {
        Pattern::EnumVariant { enum_name, variant_name } => "EnumVariant { enum_name: "@ + quoted(enum_name@)
            + ", variant_name: "@ + quoted(variant_name@) + " }"@,
        Pattern::EnumVariantWithBinding { enum_name, variant_name, binding } => "EnumVariantWithBinding { enum_name: "@
            + quoted(enum_name@) + ", variant_name: "@ + quoted(variant_name@) + ", binding: "@ + quoted(
            binding@,
        ) + " }"@,
        Pattern::Wildcard => "Wildcard"@,
        Pattern::IntLiteral(v) => "IntLiteral("@ + int_text(v as int) + ")"@,
        Pattern::BoolLiteral(b) => "BoolLiteral("@ + bool_text(b) + ")"@,
        Pattern::CharLiteral(c) => "CharLiteral("@ + char_quoted(c) + ")"@,
        Pattern::Struct { struct_name, fields } => "Struct { struct_name: "@ + quoted(struct_name@)
            + ", fields: ["@ + pairs_text(fields@, fields@.len() as int) + "] }"@,
        Pattern::Tuple(v) => "Tuple(["@ + slots_text(v@, v@.len() as int) + "])"@,
        Pattern::Array(v) => "Array(["@ + slots_text(v@, v@.len() as int) + "])"@,
    }
}

// ===== writing =====

/// The one-character text of `c` (std's `String::from(char)`).
#[verifier::external_body]
fn char_string(c: char) -> (r: String)
    ensures
        r@ == seq![c],
{
    String::from(c)
}

fn push_char(out: &mut String, c: char)
    ensures
        final(out)@ == old(out)@ + seq![c],
{
    let s = char_string(c);
    out.append(s.as_str());
}

fn push_escaped_char(out: &mut String, c: char)
    ensures
        final(out)@ == old(out)@ + escape_char(c),
{
    if c == '"' {
        push_char(out, '\\');
        push_char(out, '"');
    } else if c == '\\' {
        push_char(out, '\\');
        push_char(out, '\\');
    } else if c == '\n' {
        push_char(out, '\\');
        push_char(out, 'n');
    } else if c == '\r' {
        push_char(out, '\\');
        push_char(out, 'r');
    } else if c == '\t' {
        push_char(out, '\\');
        push_char(out, 't');
    } else if c == '\0' {
        push_char(out, '\\');
        push_char(out, '0');
    } else if is_coded(c) {
        push_unicode_escape(out, c);
    } else {
        push_char(out, c);
    }
}

fn hex_digit_char(d: u32) -> (r: char)
    requires
        d < 16,
    ensures
        r == hex_digit(d as nat),
{
    if d < 10 {
        ((('0' as u32) + d) as u8) as char
    } else {
        ((('a' as u32) + (d - 10)) as u8) as char
    }
}

fn is_coded(c: char) -> (r: bool)
    ensures
        r == is_coded_char(c),
{
    let n = c as u32;
    (1 <= n && n < 0x20 && c != '\t' && c != '\n' && c != '\r') || (0x7f <= n && n <= 0x9f) || n == 0xad || (
    0x300 <= n && n <= 0x36f) || (0x200b <= n && n <= 0x200f) || (0x2028 <= n && n <= 0x202e) || (0x2060 <= n
        && n <= 0x2064) || n == 0xfeff
}

fn push_hex(out: &mut String, n: u32)
    ensures
        final(out)@ == old(out)@ + hex_text(n as nat),
    decreases n,
{
    if n >= 16 {
        push_hex(out, n / 16);
    }
    push_char(out, hex_digit_char(n % 16));
    proof {
        assert(out@ =~= old(out)@ + hex_text(n as nat));
    }
}

fn push_unicode_escape(out: &mut String, c: char)
    ensures
        final(out)@ == old(out)@ + unicode_escape(c),
{
    push_char(out, '\\');
    push_char(out, 'u');
    push_char(out, '{');
    push_hex(out, c as u32);
    push_char(out, '}');
    proof {
        assert(out@ =~= old(out)@ + unicode_escape(c));
    }
}

/// Appends `s` in double quotes, escaped.
pub fn push_quoted(out: &mut String, s: &str)
    ensures
        final(out)@ == old(out)@ + quoted(s@),
{
    let v = crate::text::chars_of(s);
    push_char(out, '"');
    let ghost start = out@;
    let mut i: usize = 0;
    while i < v.len()
        invariant
            v@ == s@,
            i <= v@.len(),
            out@ == start + escape_text(v@.take(i as int)),
        decreases v.len() - i,
    {
        proof {
            assert(v@.take(i + 1).drop_last() =~= v@.take(i as int));
        }
        push_escaped_char(out, v[i]);
        i += 1;
    }
    proof {
        assert(v@.take(v@.len() as int) =~= v@);
    }
    push_char(out, '"');
}

fn push_decimal_u128(out: &mut String, n: u128)
    ensures
        final(out)@ == old(out)@ + decimal_text(n as nat),
    decreases n,
{
    if n >= 10 {
        push_decimal_u128(out, n / 10);
    }
    push_char(out, digit_of((n % 10) as u8));
    proof {
        assert(out@ =~= old(out)@ + decimal_text(n as nat));
    }
}

fn digit_of(d: u8) -> (c: char)
    requires
        d < 10,
    ensures
        c == digit_char(d as nat),
{
    if d == 0 {
        '0'
    } else if d == 1 {
        '1'
    } else if d == 2 {
        '2'
    } else if d == 3 {
        '3'
    } else if d == 4 {
        '4'
    } else if d == 5 {
        '5'
    } else if d == 6 {
        '6'
    } else if d == 7 {
        '7'
    } else if d == 8 {
        '8'
    } else {
        '9'
    }
}

pub(crate) fn push_int(out: &mut String, v: i64)
    ensures
        final(out)@ == old(out)@ + int_text(v as int),
{
    if v < 0 {
        push_char(out, '-');
        let m: i128 = 0 - (v as i128);
        push_decimal_u128(out, m as u128);
    } else {
        push_decimal_u128(out, v as u128);
    }
}

fn push_bool(out: &mut String, b: bool)
    ensures
        final(out)@ == old(out)@ + bool_text(b),
{
    if b {
        out.append("true");
    } else {
        out.append("false");
    }
}

fn push_opt_name(out: &mut String, o: &Option<String>)
    ensures
        final(out)@ == old(out)@ + opt_name_text(crate::ast::opt_text(*o)),
{
    match o {
        Some(s) => {
            out.append("Some(");
            push_quoted(out, s.as_str());
            out.append(")");
        },
        None => out.append("None"),
    }
}

fn push_tag(out: &mut String, t: &PrivacyTag)
    ensures
        final(out)@ == old(out)@ + tag_text(t.model()),
{
    match t {
        PrivacyTag::Public => out.append("Public"),
        PrivacyTag::Private => out.append("Private"),
        PrivacyTag::Differential { eps, delta } => {
            out.append("Differential { eps: ");
            push_quoted(out, eps.as_str());
            out.append(", delta: ");
            push_opt_name(out, delta);
            out.append(" }");
        },
    }
}

fn push_dim(out: &mut String, d: &ShapeDim)
    ensures
        final(out)@ == old(out)@ + dim_text(d.model()),
{
    match d {
        ShapeDim::Const(n) => {
            out.append("Const(");
            push_decimal_u128(out, *n as u128);
            out.append(")");
        },
        ShapeDim::Sym(s) => {
            out.append("Sym(");
            push_quoted(out, s.as_str());
            out.append(")");
        },
        ShapeDim::Dyn => out.append("Dyn"),
    }
}

/// Appends the text of `t`.
#[verifier::rlimit(50)]
pub fn push_type(out: &mut String, t: &Type)
    ensures
        final(out)@ == old(out)@ + type_text(t@),
    decreases t, 1nat,
{
    match t {
        Type::I8 => out.append("I8"),
        Type::I16 => out.append("I16"),
        Type::I32 => out.append("I32"),
        Type::I64 => out.append("I64"),
        Type::I128 => out.append("I128"),
        Type::U8 => out.append("U8"),
        Type::U16 => out.append("U16"),
        Type::U32 => out.append("U32"),
        Type::U64 => out.append("U64"),
        Type::U128 => out.append("U128"),
        Type::F16 => out.append("F16"),
        Type::F32 => out.append("F32"),
        Type::F64 => out.append("F64"),
        Type::SymInt => out.append("SymInt"),
        Type::Bool => out.append("Bool"),
        Type::Char => out.append("Char"),
        Type::Str => out.append("Str"),
        Type::Struct(n) => {
            out.append("Struct(");
            push_quoted(out, n.as_str());
            out.append(")");
            assert(out@ =~= old(out)@ + type_text(t@));
        },
        Type::Enum(n) => {
            out.append("Enum(");
            push_quoted(out, n.as_str());
            out.append(")");
            assert(out@ =~= old(out)@ + type_text(t@));
        },
        Type::TypeParam(n) => {
            out.append("TypeParam(");
            push_quoted(out, n.as_str());
            out.append(")");
            assert(out@ =~= old(out)@ + type_text(t@));
        },
        Type::Generic(n, args) => {
            out.append("Generic(");
            push_quoted(out, n.as_str());
            out.append(", [");
            push_types(out, args);
            out.append("])");
            assert(t@->Generic_1 =~= crate::ast::types_model(args@));
            assert(out@ =~= old(out)@ + type_text(t@));
        },
        Type::Tensor { dtype, shape } => {
            out.append("Tensor { dtype: ");
            push_type(out, dtype);
            out.append(", shape: [");
            let ghost start = out@;
            let mut i: usize = 0;
            while i < shape.len()
                invariant
                    i <= shape@.len(),
                    out@ == start + dims_text(crate::ast::shapes_model(shape@), i as int),
                decreases shape.len() - i,
            {
                if i > 0 {
                    out.append(", ");
                }
                push_dim(out, &shape[i]);
                assert(out@ =~= start + dims_text(crate::ast::shapes_model(shape@), i + 1));
                i += 1;
            }
            assert(crate::ast::shapes_model(shape@).len() == shape@.len());
            out.append("] }");
            assert(out@ =~= old(out)@ + type_text(t@));
        },
        Type::Privacy(inner, tag) => {
            out.append("Privacy(");
            push_type(out, inner);
            out.append(", ");
            push_tag(out, tag);
            out.append(")");
            assert(out@ =~= old(out)@ + type_text(t@));
        },
        Type::SelfType => out.append("SelfType"),
        Type::ConstIntArray(v) => {
            out.append("ConstIntArray([");
            let ghost start = out@;
            let mut i: usize = 0;
            while i < v.len()
                invariant
                    i <= v@.len(),
                    out@ == start + ints_text(v@, i as int),
                decreases v.len() - i,
            {
                if i > 0 {
                    out.append(", ");
                }
                push_int(out, v[i]);
                assert(out@ =~= start + ints_text(v@, i + 1));
                i += 1;
            }
            out.append("])");
            assert(out@ =~= old(out)@ + type_text(t@));
        },
        Type::Tuple(v) => {
            out.append("Tuple([");
            push_types(out, v);
            out.append("])");
            assert(t@->Tuple_0 =~= crate::ast::types_model(v@));
            assert(out@ =~= old(out)@ + type_text(t@));
        },
        Type::Array(inner, n) => {
            out.append("Array(");
            push_type(out, inner);
            out.append(", ");
            push_decimal_u128(out, *n as u128);
            out.append(")");
            assert(out@ =~= old(out)@ + type_text(t@));
        },
        Type::Ref { mutable, inner } => {
            out.append("Ref { mutable: ");
            push_bool(out, *mutable);
            out.append(", inner: ");
            push_type(out, inner);
            out.append(" }");
            assert(out@ =~= old(out)@ + type_text(t@));
        },
        Type::Slice(inner) => {
            out.append("Slice(");
            push_type(out, inner);
            out.append(")");
            assert(out@ =~= old(out)@ + type_text(t@));
        },
        Type::Unit => out.append("Unit"),
        Type::Never => out.append("Never"),
    }
}

/// Appends the texts of `v`, separated by `, `.
fn push_types(out: &mut String, v: &Vec<Type>)
    ensures
        final(out)@ == old(out)@ + types_text(crate::ast::types_model(v@), v@.len() as int),
    decreases v@, 0nat,
{
    let ghost start = out@;
    let ghost m = crate::ast::types_model(v@);
    let mut i: usize = 0;
    while i < v.len()
        invariant
            i <= v@.len(),
            m == crate::ast::types_model(v@),
            out@ == start + types_text(m, i as int),
        decreases v.len() - i,
    {
        proof {
            assert(decreases_to!(v@ => v@[i as int]));
        }
        if i > 0 {
            out.append(", ");
        }
        push_type(out, &v[i]);
        assert(out@ =~= start + types_text(m, i + 1));
        i += 1;
    }
    assert(m.len() == v@.len());
}

/// The text of a type.
pub fn type_string(t: &Type) -> (r: String)
    ensures
        r@ == type_text(t@),
{
    let mut out = String::new();
    push_type(&mut out, t);
    out
}

/// The text of an optional type.
pub fn opt_type_string(t: &Option<Type>) -> (r: String)
    ensures
        r@ == opt_type_text(crate::ast::opt_type_model(*t)),
{
    let mut out = String::new();
    match t {
        Some(x) => {
            out.append("Some(");
            push_type(&mut out, x);
            out.append(")");
        },
        None => out.append("None"),
    }
    out
}

/// The text of a pattern.
pub fn pattern_string(p: &Pattern) -> (r: String)
    ensures
        r@ == pattern_text(*p),
{
    let mut out = String::new();
    match p {
        Pattern::EnumVariant { enum_name, variant_name } => {
            out.append("EnumVariant { enum_name: ");
            push_quoted(&mut out, enum_name.as_str());
            out.append(", variant_name: ");
            push_quoted(&mut out, variant_name.as_str());
            out.append(" }");
        },
        Pattern::EnumVariantWithBinding { enum_name, variant_name, binding } => {
            out.append("EnumVariantWithBinding { enum_name: ");
            push_quoted(&mut out, enum_name.as_str());
            out.append(", variant_name: ");
            push_quoted(&mut out, variant_name.as_str());
            out.append(", binding: ");
            push_quoted(&mut out, binding.as_str());
            out.append(" }");
        },
        Pattern::Wildcard => out.append("Wildcard"),
        Pattern::IntLiteral(v) => {
            out.append("IntLiteral(");
            push_int(&mut out, *v);
            out.append(")");
        },
        Pattern::BoolLiteral(b) => {
            out.append("BoolLiteral(");
            push_bool(&mut out, *b);
            out.append(")");
        },
        Pattern::CharLiteral(c) => {
            out.append("CharLiteral(");
            push_char(&mut out, '\'');
            if *c == '\'' {
                push_char(&mut out, '\\');
                push_char(&mut out, '\'');
            } else if *c == '"' {
                push_char(&mut out, '"');
            } else {
                push_escaped_char(&mut out, *c);
            }
            push_char(&mut out, '\'');
            out.append(")");
        },
        Pattern::Struct { struct_name, fields } => {
            out.append("Struct { struct_name: ");
            push_quoted(&mut out, struct_name.as_str());
            out.append(", fields: [");
            let ghost start = out@;
            let mut i: usize = 0;
            while i < fields.len()
                invariant
                    i <= fields@.len(),
                    out@ == start + pairs_text(fields@, i as int),
                decreases fields.len() - i,
            {
                if i > 0 {
                    out.append(", ");
                }
                out.append("(");
                push_quoted(&mut out, fields[i].0.as_str());
                out.append(", ");
                push_quoted(&mut out, fields[i].1.as_str());
                out.append(")");
                assert(out@ =~= start + pairs_text(fields@, i + 1));
                i += 1;
            }
            out.append("] }");
        },
        Pattern::Tuple(v) => {
            out.append("Tuple([");
            push_slots(&mut out, v);
            out.append("])");
        },
        Pattern::Array(v) => {
            out.append("Array([");
            push_slots(&mut out, v);
            out.append("])");
        },
    }
    assert(out@ =~= pattern_text(*p));
    out
}

fn push_slots(out: &mut String, v: &Vec<Option<String>>)
    ensures
        final(out)@ == old(out)@ + slots_text(v@, v@.len() as int),
{
    let ghost start = out@;
    let mut i: usize = 0;
    while i < v.len()
        invariant
            i <= v@.len(),
            out@ == start + slots_text(v@, i as int),
        decreases v.len() - i,
    {
        if i > 0 {
            out.append(", ");
        }
        push_opt_name(out, &v[i]);
        assert(out@ =~= start + slots_text(v@, i + 1));
        i += 1;
    }
}

} // verus!
