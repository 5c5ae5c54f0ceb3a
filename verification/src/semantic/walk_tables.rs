//! Lookups in the checker's tables and in the pass results, and the small
//! type computations that the expression walk makes.
use vstd::prelude::*;
use vstd::string::*;
use crate::ast::{EnumDef, EnumVariant, FnDef, Literal, StructDef, StructField, Type, TypeModel};
use crate::semantic::check_expr::debug_type;
use crate::semantic::check_generic::Bindings;
use crate::semantic::check_program::{TypeChecker, TypeTable};
use crate::semantic::hunt::scopes_lookup;
use crate::semantic::walk_spec::{
    Passes, Scopes, bound_or_param, cross_from, element_type, enum_index, field_first, field_last,
    fn_index, has_method, has_variant, is_integer_model, is_signed_model, join_names, literal_type,
    names_hold, opt_result_model, owners_upto, pass_from, preset, result_model, scope_find,
    struct_index, variant_index,
};
use crate::text::same_text;

verus! {

/// The checker's tables that checking an expression reads and never
/// changes: everything but the scopes and the record of expression types.
pub open spec fn same_statics(a: TypeChecker, b: TypeChecker) -> bool {
    &&& a.consts == b.consts
    &&& a.current_self_type == b.current_self_type
    &&& a.structs == b.structs
    &&& a.enums == b.enums
    &&& a.functions == b.functions
    &&& a.methods == b.methods
    &&& a.in_model == b.in_model
    &&& a.fn_stack == b.fn_stack
    &&& a.model_names == b.model_names
    &&& a.current_return_type == b.current_return_type
}

/// The scopes as maps from names to types.
pub open spec fn scope_models(s: Seq<TypeTable>) -> Scopes {
    s.map_values(|t: TypeTable| t.model())
}

pub proof fn lemma_scope_models_push(s: Seq<TypeTable>, t: TypeTable)
    ensures
        scope_models(s.push(t)) == scope_models(s).push(t.model()),
{
    assert(scope_models(s.push(t)) =~= scope_models(s).push(t.model()));
}

/// Looking a name up in the tables is looking it up in their maps.
pub proof fn lemma_scopes_lookup_models(s: Seq<TypeTable>, name: Seq<char>, i: int)
    ensures
        scopes_lookup(s, name, i) == scope_find(scope_models(s), name, i),
    decreases i + 1,
{
    if 0 <= i < s.len() {
        let m = scope_models(s)[i];
        assert(m == s[i].model());
        assert(m.dom().contains(name) == (s[i].lookup(name) is Some));
        if m.dom().contains(name) {
            assert(s[i].lookup(name) == Some(m[name]));
        }
        lemma_scopes_lookup_models(s, name, i - 1);
    }
}

pub fn dup_result(r: &Result<Type, String>) -> (o: Result<Type, String>)
    ensures
        result_model(o) == result_model(*r),
{
    match r {
        Ok(t) => Ok(t.duplicate()),
        Err(m) => Err(m.clone()),
    }
}

/// The first result recorded for expression `id`.
pub fn pass_result(s: &Vec<(usize, Result<Type, String>)>, id: usize) -> (r: Option<Result<Type, String>>)
    ensures
        match r {
            Some(x) => pass_from(s@, id, 0) == Some(result_model(x)),
            None => pass_from(s@, id, 0) is None,
        },
{
    let mut i: usize = 0;
    while i < s.len()
        invariant
            i <= s@.len(),
            pass_from(s@, id, 0) == pass_from(s@, id, i as int),
        decreases s.len() - i,
    {
        if s[i].0 == id {
            return Some(dup_result(&s[i].1));
        }
        i += 1;
    }
    None
}

/// The first cross-model result recorded for expression `id`.
pub fn cross_result(s: &Vec<(usize, Result<Option<Type>, String>)>, id: usize) -> (r: Option<
    Result<Option<Type>, String>,
>)
    ensures
        match r {
            Some(x) => cross_from(s@, id, 0) == Some(opt_result_model(x)),
            None => cross_from(s@, id, 0) is None,
        },
{
    let mut i: usize = 0;
    while i < s.len()
        invariant
            i <= s@.len(),
            cross_from(s@, id, 0) == cross_from(s@, id, i as int),
        decreases s.len() - i,
    {
        if s[i].0 == id {
            let x = match &s[i].1 {
                Ok(Some(t)) => Ok(Some(t.duplicate())),
                Ok(None) => Ok(None),
                Err(m) => Err(m.clone()),
            };
            return Some(x);
        }
        i += 1;
    }
    None
}

pub fn find_struct(s: &Vec<StructDef>, name: &str) -> (r: Option<usize>)
    ensures
        match r {
            Some(k) => struct_index(s@, name@, 0) == Some(k as int),
            None => struct_index(s@, name@, 0) is None,
        },
        r matches Some(k) ==> k < s@.len(),
{
    let mut i: usize = 0;
    while i < s.len()
        invariant
            i <= s@.len(),
            struct_index(s@, name@, 0) == struct_index(s@, name@, i as int),
        decreases s.len() - i,
    {
        if same_text(s[i].name.as_str(), name) {
            return Some(i);
        }
        i += 1;
    }
    None
}

pub fn find_enum(s: &Vec<EnumDef>, name: &str) -> (r: Option<usize>)
    ensures
        match r {
            Some(k) => enum_index(s@, name@, 0) == Some(k as int),
            None => enum_index(s@, name@, 0) is None,
        },
        r matches Some(k) ==> k < s@.len(),
{
    let mut i: usize = 0;
    while i < s.len()
        invariant
            i <= s@.len(),
            enum_index(s@, name@, 0) == enum_index(s@, name@, i as int),
        decreases s.len() - i,
    {
        if same_text(s[i].name.as_str(), name) {
            return Some(i);
        }
        i += 1;
    }
    None
}

pub fn find_fn(s: &Vec<FnDef>, name: &str) -> (r: Option<usize>)
    ensures
        match r {
            Some(k) => fn_index(s@, name@, 0) == Some(k as int),
            None => fn_index(s@, name@, 0) is None,
        },
        r matches Some(k) ==> k < s@.len(),
{
    let mut i: usize = 0;
    while i < s.len()
        invariant
            i <= s@.len(),
            fn_index(s@, name@, 0) == fn_index(s@, name@, i as int),
        decreases s.len() - i,
    {
        if same_text(s[i].name.as_str(), name) {
            return Some(i);
        }
        i += 1;
    }
    None
}

pub fn find_variant(s: &Vec<EnumVariant>, name: &str) -> (r: Option<usize>)
    ensures
        match r {
            Some(k) => variant_index(s@, name@, 0) == Some(k as int),
            None => variant_index(s@, name@, 0) is None,
        },
        r matches Some(k) ==> k < s@.len(),
{
    let mut i: usize = 0;
    while i < s.len()
        invariant
            i <= s@.len(),
            variant_index(s@, name@, 0) == variant_index(s@, name@, i as int),
        decreases s.len() - i,
    {
        if same_text(s[i].name.as_str(), name) {
            return Some(i);
        }
        i += 1;
    }
    None
}

pub fn find_field_first(s: &Vec<StructField>, name: &str) -> (r: Option<usize>)
    ensures
        match r {
            Some(k) => field_first(s@, name@, 0) == Some(k as int),
            None => field_first(s@, name@, 0) is None,
        },
        r matches Some(k) ==> k < s@.len(),
{
    let mut i: usize = 0;
    while i < s.len()
        invariant
            i <= s@.len(),
            field_first(s@, name@, 0) == field_first(s@, name@, i as int),
        decreases s.len() - i,
    {
        if same_text(s[i].name.as_str(), name) {
            return Some(i);
        }
        i += 1;
    }
    None
}

pub fn find_field_last(s: &Vec<StructField>, name: &str) -> (r: Option<usize>)
    ensures
        match r {
            Some(k) => field_last(s@, name@, s@.len() as int) == Some(k as int),
            None => field_last(s@, name@, s@.len() as int) is None,
        },
        r matches Some(k) ==> k < s@.len(),
{
    let mut n: usize = s.len();
    while n > 0
        invariant
            n <= s@.len(),
            field_last(s@, name@, s@.len() as int) == field_last(s@, name@, n as int),
        decreases n,
    {
        if same_text(s[n - 1].name.as_str(), name) {
            return Some(n - 1);
        }
        n -= 1;
    }
    None
}

pub fn names_contain(names: &Vec<String>, name: &str) -> (r: bool)
    ensures
        r == names_hold(names@, name@),
{
    let mut i: usize = 0;
    while i < names.len()
        invariant
            i <= names@.len(),
            forall|k: int| 0 <= k < i ==> names@[k]@ != name@,
        decreases names.len() - i,
    {
        if same_text(names[i].as_str(), name) {
            assert(names@[i as int]@ == name@);
            return true;
        }
        i += 1;
    }
    false
}

pub fn method_listed(ms: &Vec<(String, Vec<String>)>, ty: &str, m: &str) -> (r: bool)
    ensures
        r == has_method(ms@, ty@, m@, 0),
{
    let mut i: usize = 0;
    while i < ms.len()
        invariant
            i <= ms@.len(),
            has_method(ms@, ty@, m@, 0) == has_method(ms@, ty@, m@, i as int),
        decreases ms.len() - i,
    {
        if same_text(ms[i].0.as_str(), ty) {
            return names_contain(&ms[i].1, m);
        }
        i += 1;
    }
    false
}

/// The names of the enums that have a variant named `v`, in order.
pub fn variant_owners_of(enums: &Vec<EnumDef>, v: &str) -> (r: Vec<String>)
    ensures
        r@.map_values(|s: String| s@) == owners_upto(enums@, v@, enums@.len() as int),
{
    let mut out: Vec<String> = Vec::new();
    let mut i: usize = 0;
    while i < enums.len()
        invariant
            i <= enums@.len(),
            out@.map_values(|s: String| s@) == owners_upto(enums@, v@, i as int),
        decreases enums.len() - i,
    {
        let has = match find_variant(&enums[i].variants, v) {
            Some(_) => true,
            None => false,
        };
        assert(has == has_variant(enums@[i as int], v@));
        let ghost before = out@;
        if has {
            out.push(enums[i].name.clone());
            assert(out@.map_values(|s: String| s@) =~= before.map_values(|s: String| s@).push(
                enums@[i as int].name@,
            ));
        }
        i += 1;
    }
    out
}

/// The names joined by `", "`.
pub fn join_with_commas(names: &Vec<String>) -> (r: String)
    ensures
        r@ == join_names(names@.map_values(|s: String| s@)),
{
    let ghost ns = names@.map_values(|s: String| s@);
    let mut out = String::new();
    let mut i: usize = 0;
    while i < names.len()
        invariant
            i <= names@.len(),
            ns == names@.map_values(|s: String| s@),
            out@ == join_names(ns.take(i as int)),
        decreases names.len() - i,
    {
        proof {
            assert(ns.take(i + 1).drop_last() =~= ns.take(i as int));
            assert(ns.take(i + 1).last() == names@[i as int]@);
        }
        if i > 0 {
            out.append(", ");
        } else {
            assert(ns.take(0) =~= Seq::<Seq<char>>::empty());
        }
        out.append(names[i].as_str());
        proof {
            if i == 0 {
                assert(ns.take(1) =~= seq![names@[0]@]);
                assert(out@ =~= join_names(ns.take(1)));
            } else {
                assert(out@ =~= join_names(ns.take(i as int)) + ", "@ + names@[i as int]@);
            }
        }
        i += 1;
    }
    proof {
        assert(ns.take(names@.len() as int) =~= ns);
    }
    out
}

/// `names[i]` bound to `args[i]` for `i < n`, a later name replacing an
/// earlier one.
pub fn preset_table(names: &Vec<String>, args: &Vec<Type>, n: usize) -> (r: TypeTable)
    requires
        n <= names@.len(),
        n <= args@.len(),
    ensures
        r.model() == preset(
            names@.map_values(|s: String| s@),
            args@.map_values(|t: Type| t@),
            n as int,
        ),
{
    let ghost ns = names@.map_values(|s: String| s@);
    let ghost ts = args@.map_values(|t: Type| t@);
    let mut table = TypeTable::new();
    let mut i: usize = 0;
    while i < n
        invariant
            i <= n,
            n <= names@.len(),
            n <= args@.len(),
            ns == names@.map_values(|s: String| s@),
            ts == args@.map_values(|t: Type| t@),
            table.model() == preset(ns, ts, i as int),
        decreases n - i,
    {
        table.insert(names[i].clone(), args[i].duplicate());
        i += 1;
    }
    table
}

/// Each of `names` as its binding in `table`, or as itself when unbound.
pub fn bound_types(table: &TypeTable, names: &Vec<String>) -> (r: Vec<Type>)
    ensures
        r@.len() == names@.len(),
        forall|i: int| 0 <= i < names@.len() ==> #[trigger] r@[i]@ == bound_or_param(table.model(), names@[i]@),
{
    let mut out: Vec<Type> = Vec::new();
    let mut i: usize = 0;
    while i < names.len()
        invariant
            i <= names@.len(),
            out@.len() == i,
            forall|k: int| 0 <= k < i ==> #[trigger] out@[k]@ == bound_or_param(table.model(), names@[k]@),
        decreases names.len() - i,
    {
        let t = match table.get(names[i].as_str()) {
            Some(t) => t.duplicate(),
            None => Type::TypeParam(names[i].clone()),
        };
        out.push(t);
        i += 1;
    }
    out
}

pub fn literal_type_of(l: &Literal) -> (r: Type)
    ensures
        r@ == literal_type(*l),
{
    match l {
        Literal::Int8(_) => Type::I8,
        Literal::Int16(_) => Type::I16,
        Literal::Int32(_) => Type::I32,
        Literal::Int64(_) => Type::I64,
        Literal::Int128(_) => Type::I128,
        Literal::UInt8(_) => Type::U8,
        Literal::UInt16(_) => Type::U16,
        Literal::UInt32(_) => Type::U32,
        Literal::UInt64(_) => Type::U64,
        Literal::UInt128(_) => Type::U128,
        Literal::Isize(_) => Type::I64,
        Literal::Usize(_) => Type::U64,
        Literal::Float16(_) => Type::F16,
        Literal::Float32(_) => Type::F32,
        Literal::Float64(_) => Type::F64,
        Literal::Bool(_) => Type::Bool,
        Literal::Char(_) => Type::Char,
        Literal::String(_) => Type::Str,
        Literal::Unit => Type::Unit,
        Literal::ByteString(_) => {
            let u = Type::U8;
            assert(u@ == TypeModel::U8);
            let s = Type::Slice(Box::new(u));
            assert(s@ == TypeModel::Slice(Box::new(TypeModel::U8)));
            let r = Type::Ref { mutable: false, inner: Box::new(s) };
            assert(r@ == crate::semantic::walk_spec::byte_slice_ref());
            r
        },
    }
}

/// The element type that indexing a value of type `t` gives.
pub fn element_type_of(t: &Type) -> (r: Result<Type, String>)
    ensures
        result_model(r) == element_type(t@),
    decreases t,
{
    match t {
        Type::Ref { inner, .. } => element_type_of(inner),
        Type::Slice(inner) => Ok(inner.duplicate()),
        Type::Generic(_, args) => {
            if args.len() == 1 {
                Ok(args[0].duplicate())
            } else {
                let mut m = String::from_str("type ");
                m.append(debug_type(t).as_str());
                m.append(" does not support indexing");
                Err(m)
            }
        },
        Type::Str => Ok(Type::U8),
        _ => {
            let mut m = String::from_str("type ");
            m.append(debug_type(t).as_str());
            m.append(" does not support indexing");
            Err(m)
        },
    }
}

impl TypeChecker {
    /// Whether `t` is a signed integer or a floating-point type.
    pub fn is_signed_numeric_type(&self, t: &Type) -> (r: bool)
        ensures
            r == is_signed_model(t@),
    {
        match t {
            Type::I8 | Type::I16 | Type::I32 | Type::I64 | Type::I128 | Type::F16 | Type::F32
            | Type::F64 => true,
            _ => false,
        }
    }

    /// Whether `t` is an integer type.
    pub fn is_integer_type(&self, t: &Type) -> (r: bool)
        ensures
            r == is_integer_model(t@),
    {
        match t {
            Type::I8 | Type::I16 | Type::I32 | Type::I64 | Type::I128 | Type::U8 | Type::U16
            | Type::U32 | Type::U64 | Type::U128 => true,
            _ => false,
        }
    }
}

} // verus!
