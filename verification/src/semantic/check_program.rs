//! The type checker's state: lexical scopes, the constant table and the type
//! of `self`; plus structural type equality and the numeric type classes.
use vstd::prelude::*;
use crate::ast::{EnumDef, FnDef, StructDef, Type, TypeModel, PrivacyTag, ShapeDim, opt_text, opt_ref_type_model, shapes_model, types_model};
use crate::text::{chars_of, chars_equal};

verus! {

/// A table from names to types. A name bound more than once is read at its
/// first binding; `insert` rebinds a name in place.
pub struct TypeTable {
    pub entries: Vec<(String, Type)>,
}

/// `k` is the first position in `s` whose name is `name`.
pub open spec fn is_first_key(s: Seq<(String, Type)>, name: Seq<char>, k: int) -> bool {
    &&& 0 <= k < s.len()
    &&& s[k].0@ == name
    &&& forall|j: int| 0 <= j < k ==> s[j].0@ != name
}

pub open spec fn has_key(s: Seq<(String, Type)>, name: Seq<char>) -> bool {
    exists|k: int| 0 <= k < s.len() && s[k].0@ == name
}

/// The type bound to `name` in the entries `s`.
pub open spec fn entries_lookup(s: Seq<(String, Type)>, name: Seq<char>) -> Option<TypeModel> {
    if has_key(s, name) {
        Some(s[choose|k: int| is_first_key(s, name, k)].1@)
    } else {
        None
    }
}

pub proof fn lemma_first_key_unique(s: Seq<(String, Type)>, name: Seq<char>, k: int)
    requires
        is_first_key(s, name, k),
    ensures
        (choose|k2: int| is_first_key(s, name, k2)) == k,
        entries_lookup(s, name) == Some(s[k].1@),
{
    assert(has_key(s, name));
    let k2 = choose|k2: int| is_first_key(s, name, k2);
    assert(is_first_key(s, name, k2));
    if k2 < k {
        assert(s[k2].0@ != name);
    }
    if k < k2 {
        assert(s[k].0@ != name);
    }
}

pub proof fn lemma_first_key_exists(s: Seq<(String, Type)>, name: Seq<char>, j: int)
    requires
        0 <= j < s.len(),
        s[j].0@ == name,
    ensures
        exists|k: int| is_first_key(s, name, k),
    decreases j,
{
    if exists|i: int| 0 <= i < j && s[i].0@ == name {
        let i = choose|i: int| 0 <= i < j && s[i].0@ == name;
        lemma_first_key_exists(s, name, i);
    } else {
        assert(is_first_key(s, name, j));
    }
}

impl TypeTable {
    /// The table as a map from names to type models.
    pub open spec fn model(&self) -> Map<Seq<char>, TypeModel> {
        Map::new(
            |n: Seq<char>| has_key(self.entries@, n),
            |n: Seq<char>| entries_lookup(self.entries@, n).unwrap(),
        )
    }

    pub open spec fn lookup(&self, name: Seq<char>) -> Option<TypeModel> {
        entries_lookup(self.entries@, name)
    }

    pub fn new() -> (r: TypeTable)
        ensures
            r.model() == Map::<Seq<char>, TypeModel>::empty(),
            forall|n: Seq<char>| r.lookup(n) is None,
    {
        let r = TypeTable { entries: Vec::new() };
        assert(r.model() =~= Map::<Seq<char>, TypeModel>::empty());
        r
    }

    /// Position of the first entry named `name`.
    fn position(&self, name: &Vec<char>) -> (r: Option<usize>)
        ensures
            match r {
                Some(k) => is_first_key(self.entries@, name@, k as int),
                None => !has_key(self.entries@, name@),
            },
    {
        let mut i: usize = 0;
        while i < self.entries.len()
            invariant
                i <= self.entries@.len(),
                forall|j: int| 0 <= j < i ==> self.entries@[j].0@ != name@,
            decreases self.entries.len() - i,
        {
            let key = chars_of(self.entries[i].0.as_str());
            if chars_equal(&key, name) {
                return Some(i);
            }
            i += 1;
        }
        None
    }

    /// The type bound to `name`.
    pub fn get(&self, name: &str) -> (r: Option<&Type>)
        ensures
            opt_ref_type_model(r) == self.lookup(name@),
            r is Some <==> self.model().dom().contains(name@),
    {
        let n = chars_of(name);
        match self.position(&n) {
            Some(k) => {
                proof {
                    lemma_first_key_unique(self.entries@, name@, k as int);
                }
                Some(&self.entries[k].1)
            },
            None => None,
        }
    }

    pub fn contains_key(&self, name: &str) -> (r: bool)
        ensures
            r == self.model().dom().contains(name@),
            r == (self.lookup(name@) is Some),
    {
        let n = chars_of(name);
        match self.position(&n) {
            Some(k) => {
                proof {
                    lemma_first_key_unique(self.entries@, name@, k as int);
                }
                true
            },
            None => false,
        }
    }

    /// Binds `name` to `ty`, replacing an earlier binding of the same name.
    pub fn insert(&mut self, name: String, ty: Type)
        ensures
            final(self).lookup(name@) == Some(ty@),
            forall|n: Seq<char>| n != name@ ==> #[trigger] final(self).lookup(n) == old(self).lookup(n),
            final(self).model() == old(self).model().insert(name@, ty@),
    {
        let n = chars_of(name.as_str());
        let ghost old_entries = self.entries@;
        match self.position(&n) {
            Some(k) => {
                self.entries.set(k, (name, ty));
                proof {
                    let s = self.entries@;
                    assert(is_first_key(s, n@, k as int));
                    lemma_first_key_unique(s, n@, k as int);
                    assert forall|m: Seq<char>| m != n@ implies #[trigger] entries_lookup(s, m)
                        == entries_lookup(old_entries, m) by {
                        assert(has_key(s, m) == has_key(old_entries, m)) by {
                            if has_key(s, m) {
                                let j = choose|j: int| 0 <= j < s.len() && s[j].0@ == m;
                                assert(old_entries[j].0@ == m);
                            }
                            if has_key(old_entries, m) {
                                let j = choose|j: int| 0 <= j < old_entries.len() && old_entries[j].0@ == m;
                                assert(s[j].0@ == m);
                            }
                        }
                        if has_key(s, m) {
                            let w = choose|w: int| 0 <= w < s.len() && s[w].0@ == m;
                            lemma_first_key_exists(s, m, w);
                            let j = choose|j: int| is_first_key(s, m, j);
                            assert(is_first_key(s, m, j));
                            assert forall|i: int| 0 <= i < j implies old_entries[i].0@ != m by {
                                if i != k {
                                    assert(old_entries[i] == s[i]);
                                }
                            }
                            assert(old_entries[j] == s[j]);
                            assert(is_first_key(old_entries, m, j));
                            lemma_first_key_unique(s, m, j);
                            lemma_first_key_unique(old_entries, m, j);
                        }
                    }
                }
            },
            None => {
                self.entries.push((name, ty));
                proof {
                    let s = self.entries@;
                    let k = old_entries.len() as int;
                    assert(is_first_key(s, n@, k));
                    lemma_first_key_unique(s, n@, k);
                    assert forall|m: Seq<char>| m != n@ implies #[trigger] entries_lookup(s, m)
                        == entries_lookup(old_entries, m) by {
                        assert(has_key(s, m) == has_key(old_entries, m)) by {
                            if has_key(s, m) {
                                let j = choose|j: int| 0 <= j < s.len() && s[j].0@ == m;
                                assert(j != k);
                                assert(old_entries[j].0@ == m);
                            }
                            if has_key(old_entries, m) {
                                let j = choose|j: int| 0 <= j < old_entries.len() && old_entries[j].0@ == m;
                                assert(s[j].0@ == m);
                            }
                        }
                        if has_key(s, m) {
                            let w = choose|w: int| 0 <= w < s.len() && s[w].0@ == m;
                            lemma_first_key_exists(s, m, w);
                            let j = choose|j: int| is_first_key(s, m, j);
                            assert(is_first_key(s, m, j));
                            assert(j != k);
                            assert forall|i: int| 0 <= i < j implies old_entries[i].0@ != m by {
                                assert(old_entries[i] == s[i]);
                            }
                            assert(old_entries[j] == s[j]);
                            assert(is_first_key(old_entries, m, j));
                            lemma_first_key_unique(s, m, j);
                            lemma_first_key_unique(old_entries, m, j);
                        }
                    }
                }
            },
        }
        proof {
            assert(self.model() =~= old(self).model().insert(name@, ty@)) by {
                assert forall|m: Seq<char>| #[trigger] self.model().dom().contains(m) == old(self).model().insert(name@, ty@).dom().contains(m) by {
                    if m != name@ {
                        assert(self.lookup(m) == old(self).lookup(m));
                    }
                }
            }
        }
    }
}

/// State of the type checker.
pub struct TypeChecker {
    /// Lexical scopes, innermost last.
    pub scopes: Vec<TypeTable>,
    /// Global constants.
    pub consts: TypeTable,
    /// The type of `self` inside the body being checked.
    pub current_self_type: Option<Type>,
    /// The declared structs, looked up by name (the first of a name).
    pub structs: Vec<StructDef>,
    /// The declared enums, looked up by name (the first of a name).
    pub enums: Vec<EnumDef>,
    /// The declared free functions, looked up by name (the first of a name).
    pub functions: Vec<FnDef>,
    /// For each type with an `implement` block, the names of its methods.
    pub methods: Vec<(String, Vec<String>)>,
    /// Whether a model's body is being checked.
    pub in_model: bool,
    /// The functions whose bodies are being checked, outermost first.
    pub fn_stack: Vec<String>,
    /// The names of the models of the program.
    pub model_names: Vec<String>,
    /// The type found for each checked expression, by expression number, in
    /// the order they were found.
    pub expr_types: Vec<(usize, Type)>,
    /// The declared return type of the function being checked.
    pub current_return_type: Option<Type>,
}

impl TypeChecker {
    pub fn new() -> (r: TypeChecker)
        ensures
            r.scopes@.len() == 0,
            r.consts.model() == Map::<Seq<char>, TypeModel>::empty(),
            r.current_self_type is None,
            r.structs@.len() == 0,
            r.enums@.len() == 0,
            r.functions@.len() == 0,
            r.methods@.len() == 0,
            !r.in_model,
            r.fn_stack@.len() == 0,
            r.model_names@.len() == 0,
            r.expr_types@.len() == 0,
            r.current_return_type is None,
    {
        TypeChecker {
            scopes: Vec::new(),
            consts: TypeTable::new(),
            current_self_type: None,
            structs: Vec::new(),
            enums: Vec::new(),
            functions: Vec::new(),
            methods: Vec::new(),
            in_model: false,
            fn_stack: Vec::new(),
            model_names: Vec::new(),
            expr_types: Vec::new(),
            current_return_type: None,
        }
    }

    /// Structural equality of types.
    pub fn types_equal(&self, a: &Type, b: &Type) -> (r: bool)
        ensures
            r == (a@ == b@),
    {
        types_eq(a, b)
    }
}

pub fn shape_dims_eq(a: &Vec<ShapeDim>, b: &Vec<ShapeDim>) -> (r: bool)
    ensures
        r == (shapes_model(a@) == shapes_model(b@)),
{
    if a.len() != b.len() {
        assert(shapes_model(a@).len() != shapes_model(b@).len());
        return false;
    }
    let mut i: usize = 0;
    while i < a.len()
        invariant
            a@.len() == b@.len(),
            i <= a.len(),
            forall|j: int| 0 <= j < i ==> a@[j]@ == b@[j]@,
        decreases a.len() - i,
    {
        let same = match (&a[i], &b[i]) {
            (ShapeDim::Const(x), ShapeDim::Const(y)) => *x == *y,
            (ShapeDim::Sym(x), ShapeDim::Sym(y)) => *x == *y,
            (ShapeDim::Dyn, ShapeDim::Dyn) => true,
            _ => false,
        };
        if !same {
            assert(shapes_model(a@)[i as int] != shapes_model(b@)[i as int]);
            return false;
        }
        i += 1;
    }
    assert(shapes_model(a@) =~= shapes_model(b@));
    true
}

pub fn i64s_eq(a: &Vec<i64>, b: &Vec<i64>) -> (r: bool)
    ensures
        r == (a@ == b@),
{
    if a.len() != b.len() {
        return false;
    }
    let mut i: usize = 0;
    while i < a.len()
        invariant
            a@.len() == b@.len(),
            i <= a.len(),
            forall|j: int| 0 <= j < i ==> a@[j] == b@[j],
        decreases a.len() - i,
    {
        if a[i] != b[i] {
            return false;
        }
        i += 1;
    }
    assert(a@ =~= b@);
    true
}

pub fn opt_strings_eq(a: &Option<String>, b: &Option<String>) -> (r: bool)
    ensures
        r == (opt_text(*a) == opt_text(*b)),
{
    match (a, b) {
        (Some(x), Some(y)) => *x == *y,
        (None, None) => true,
        _ => false,
    }
}

/// Whether two privacy tags are written identically.
pub fn tags_identical(a: &PrivacyTag, b: &PrivacyTag) -> (r: bool)
    ensures
        r == (a@ == b@),
{
    match (a, b) {
        (PrivacyTag::Public, PrivacyTag::Public) => true,
        (PrivacyTag::Private, PrivacyTag::Private) => true,
        (
            PrivacyTag::Differential { eps: e1, delta: d1 },
            PrivacyTag::Differential { eps: e2, delta: d2 },
        ) => *e1 == *e2 && opt_strings_eq(d1, d2),
        _ => false,
    }
}

/// Whether two type sequences are equal element by element.
pub fn type_lists_eq(a: &Vec<Type>, b: &Vec<Type>) -> (r: bool)
    ensures
        r == (types_model(a@) == types_model(b@)),
    decreases a@, 0nat,
{
    if a.len() != b.len() {
        assert(types_model(a@).len() != types_model(b@).len());
        return false;
    }
    let mut i: usize = 0;
    while i < a.len()
        invariant
            a@.len() == b@.len(),
            i <= a.len(),
            forall|j: int| 0 <= j < i ==> a@[j]@ == b@[j]@,
        decreases a.len() - i,
    {
        proof {
            assert(decreases_to!(a@ => a@[i as int]));
        }
        if !types_eq(&a[i], &b[i]) {
            assert(types_model(a@)[i as int] != types_model(b@)[i as int]);
            return false;
        }
        i += 1;
    }
    assert(types_model(a@) =~= types_model(b@));
    true
}

/// Structural equality of types.
#[verifier::rlimit(50)]
pub fn types_eq(a: &Type, b: &Type) -> (r: bool)
    ensures
        r == (a@ == b@),
    decreases a, 1nat,
{
    match (a, b) {
        (Type::I8, Type::I8) => true,
        (Type::I16, Type::I16) => true,
        (Type::I32, Type::I32) => true,
        (Type::I64, Type::I64) => true,
        (Type::I128, Type::I128) => true,
        (Type::U8, Type::U8) => true,
        (Type::U16, Type::U16) => true,
        (Type::U32, Type::U32) => true,
        (Type::U64, Type::U64) => true,
        (Type::U128, Type::U128) => true,
        (Type::F16, Type::F16) => true,
        (Type::F32, Type::F32) => true,
        (Type::F64, Type::F64) => true,
        (Type::SymInt, Type::SymInt) => true,
        (Type::Bool, Type::Bool) => true,
        (Type::Char, Type::Char) => true,
        (Type::Str, Type::Str) => true,
        (Type::Struct(x), Type::Struct(y)) => *x == *y,
        (Type::Enum(x), Type::Enum(y)) => *x == *y,
        (Type::TypeParam(x), Type::TypeParam(y)) => *x == *y,
        (Type::Generic(x, xs), Type::Generic(y, ys)) => {
            assert(a@->Generic_1 =~= types_model(xs@));
            assert(b@->Generic_1 =~= types_model(ys@));
            *x == *y && type_lists_eq(xs, ys)
        },
        (Type::Tensor { dtype: d1, shape: s1 }, Type::Tensor { dtype: d2, shape: s2 }) => {
            types_eq(d1, d2) && shape_dims_eq(s1, s2)
        },
        (Type::Privacy(i1, t1), Type::Privacy(i2, t2)) => types_eq(i1, i2) && tags_identical(t1, t2),
        (Type::SelfType, Type::SelfType) => true,
        (Type::ConstIntArray(x), Type::ConstIntArray(y)) => i64s_eq(x, y),
        (Type::Tuple(xs), Type::Tuple(ys)) => {
            assert(a@->Tuple_0 =~= types_model(xs@));
            assert(b@->Tuple_0 =~= types_model(ys@));
            type_lists_eq(xs, ys)
        },
        (Type::Array(e1, n1), Type::Array(e2, n2)) => *n1 == *n2 && types_eq(e1, e2),
        (Type::Ref { mutable: m1, inner: i1 }, Type::Ref { mutable: m2, inner: i2 }) => {
            *m1 == *m2 && types_eq(i1, i2)
        },
        (Type::Slice(i1), Type::Slice(i2)) => types_eq(i1, i2),
        (Type::Unit, Type::Unit) => true,
        (Type::Never, Type::Never) => true,
        _ => false,
    }
}

/// The integer and floating-point types.
pub open spec fn is_numeric_model(t: TypeModel) -> bool {
    match t {
        TypeModel::I8 | TypeModel::I16 | TypeModel::I32 | TypeModel::I64 | TypeModel::I128
        | TypeModel::U8 | TypeModel::U16 | TypeModel::U32 | TypeModel::U64 | TypeModel::U128
        | TypeModel::F16 | TypeModel::F32 | TypeModel::F64 => true,
        _ => false,
    }
}

impl TypeChecker {
    /// Whether `t` is an integer or floating-point type.
    pub fn is_numeric_type(&self, t: &Type) -> (r: bool)
        ensures
            r == is_numeric_model(t@),
    {
        match t {
            Type::I8 | Type::I16 | Type::I32 | Type::I64 | Type::I128 | Type::U8 | Type::U16
            | Type::U32 | Type::U64 | Type::U128 | Type::F16 | Type::F32 | Type::F64 => true,
            _ => false,
        }
    }
}

} // verus!
