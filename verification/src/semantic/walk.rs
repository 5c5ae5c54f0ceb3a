//! The type checker's walk over expressions: each expression kind checked
//! against the tables of structs, enums, functions and methods, with the
//! work of the block, `match`, method-call, qualified-call and cross-model
//! passes taken from their recorded results.
use vstd::prelude::*;
use vstd::string::*;
use crate::ast::{CallArg, Expr, ExprKind, FnDef, IfKind, Literal, Type, TypeModel, UnaryOp, opt_type_model};
use crate::semantic::check_expr::debug_type;
use crate::semantic::check_program::{TypeChecker, TypeTable};
use crate::ast::opt_ref_type_model;
use crate::semantic::helpers::arg_choice;
use crate::semantic::walk_spec::{
    Outcome, Passes, if_finish, md002_text, names_hold, arg_of, bound_args, bound_or_param, byte_slice_ref, enum_result, field_access, plain_field, preset_from,
    result_model, struct_result, walk_args_all, walk_array, walk_call, walk_closure, walk_evc,
    walk_expr, walk_fields, walk_fn_args, walk_fn_call, walk_if, walk_if_expected,
    walk_struct_init, walk_tensor_cond, walk_while_loop, walk_with_expected,
};
use crate::semantic::walk_tables::{
    bound_types, cross_result, element_type_of, find_enum, find_field_first, find_field_last,
    find_fn, find_struct, find_variant, join_with_commas, lemma_scope_models_push,
    literal_type_of, method_listed, names_contain, pass_result, preset_table, same_statics,
    scope_models, variant_owners_of,
};
use crate::text::{push_decimal, same_text};

verus! {

fn bool_type(t: &Type) -> (r: bool)
    ensures
        r == (t@ == TypeModel::Bool),
{
    match t {
        Type::Bool => true,
        _ => false,
    }
}

fn small_int_type(t: &Type) -> (r: bool)
    ensures
        r == (t@ == TypeModel::I32 || t@ == TypeModel::I64),
{
    match t {
        Type::I32 | Type::I64 => true,
        _ => false,
    }
}

fn ref_to(inner: Type) -> (r: Type)
    ensures
        r@ == (TypeModel::Ref { mutable: false, inner: Box::new(inner@) }),
{
    Type::Ref { mutable: false, inner: Box::new(inner) }
}

fn slice_of(inner: Type) -> (r: Type)
    ensures
        r@ == TypeModel::Slice(Box::new(inner@)),
{
    Type::Slice(Box::new(inner))
}

/// Text: `a` followed by the debug text of `t`.
pub(crate) fn with_type(a: &str, t: &Type) -> (r: String)
    ensures
        r@ == a@ + type_debug_of(t@),
{
    let mut m = String::from_str(a);
    m.append(debug_type(t).as_str());
    m
}

pub open spec fn type_debug_of(t: TypeModel) -> Seq<char> {
    crate::semantic::check_expr::type_debug(t)
}

impl TypeChecker {
    /// The type of the field `f` of a value of (unlabelled) type `st`.
    fn field_access_of(&self, st: &Type, f: &str) -> (r: Result<Type, String>)
        ensures
            result_model(r) == field_access(*self, st@, f@),
    {
        match st {
            Type::Struct(name) => self.plain_field_of(name.as_str(), f),
            Type::Generic(name, args) => match find_struct(&self.structs, name.as_str()) {
                None => {
                    let mut m = String::from_str("undefined struct: ");
                    m.append(name.as_str());
                    Err(m)
                },
                Some(k) => {
                    let sd = &self.structs[k];
                    let names = Self::generic_param_names(sd.generic_params.as_slice());
                    let n = if names.len() <= args.len() {
                        names.len()
                    } else {
                        args.len()
                    };
                    match find_field_first(&sd.fields, f) {
                        Some(j) => {
                            let table = preset_table(&names, args, n);
                            proof {
                                assert(args@.map_values(|t: Type| t@) =~= st@->Generic_1);
                            }
                            let ft = self.substitute_type(&sd.fields[j].ty, &table);
                            Ok(self.strip_privacy(&ft))
                        },
                        None => {
                            let mut m = String::from_str("field '");
                            m.append(f);
                            m.append("' not found in struct ");
                            m.append(name.as_str());
                            Err(m)
                        },
                    }
                },
            },
            Type::SelfType => match &self.current_self_type {
                Some(Type::Struct(name)) => self.plain_field_of(name.as_str(), f),
                _ => Err(String::from_str("field access on SelfType with no current self type")),
            },
            _ => Err(with_type("field access on non-struct type: ", st)),
        }
    }

    /// The type of the field `f` of the struct `name`.
    fn plain_field_of(&self, name: &str, f: &str) -> (r: Result<Type, String>)
        ensures
            result_model(r) == plain_field(*self, name@, f@),
    {
        match find_struct(&self.structs, name) {
            None => {
                let mut m = String::from_str("undefined struct: ");
                m.append(name);
                Err(m)
            },
            Some(k) => match find_field_first(&self.structs[k].fields, f) {
                Some(j) => Ok(self.strip_privacy(&self.structs[k].fields[j].ty)),
                None => {
                    let mut m = String::from_str("field '");
                    m.append(f);
                    m.append("' not found in struct ");
                    m.append(name);
                    Err(m)
                },
            },
        }
    }

    /// Checks `expr` under the scopes in force, with the tables of `tc0`.
    #[verifier::rlimit(100)]
    fn check_expr_in(&mut self, expr: &Expr, p: &Passes, Ghost(tc0): Ghost<TypeChecker>) -> (r: Result<Type, String>)
        requires
            same_statics(*old(self), tc0),
            walk_expr(tc0, *p, scope_models(old(self).scopes@), *expr) is Some,
        ensures
            same_statics(*final(self), tc0),
            final(self).scopes@ == old(self).scopes@,
            Some(result_model(r)) == walk_expr(tc0, *p, scope_models(old(self).scopes@), *expr),
            r matches Ok(t) ==> final(self).expr_types@.len() > 0 && final(self).expr_types@.last().0
                == expr.id && final(self).expr_types@.last().1@ == t@,
        decreases expr, 2nat,
    {
        let ghost sc = scope_models(self.scopes@);
        let r = match &expr.kind {
            ExprKind::Literal(l) => Ok(literal_type_of(l)),
            ExprKind::Ident(name) => {
                proof {
                    crate::semantic::walk_tables::lemma_scopes_lookup_models(
                        self.scopes@,
                        name@,
                        self.scopes@.len() - 1,
                    );
                }
                self.hunt_symbol(name.as_str())
            },
            ExprKind::Sym(_) => Ok(Type::I32),
            ExprKind::Closure { param, body } => {
                let mut t = TypeTable::new();
                t.insert(param.clone(), Type::F32);
                proof {
                    lemma_scope_models_push(self.scopes@, t);
                    assert(t.model() =~= Map::<Seq<char>, TypeModel>::empty().insert(param@, TypeModel::F32));
                }
                self.scopes.push(t);
                let r = self.check_expr_in(body, p, Ghost(tc0));
                self.scopes.pop();
                r
            },
            ExprKind::BinaryOp { op, left, right } => match self.check_expr_in(left, p, Ghost(tc0)) {
                Err(m) => Err(m),
                Ok(lt) => match self.check_expr_in(right, p, Ghost(tc0)) {
                    Err(m) => Err(m),
                    Ok(rt) => self.check_binary_op(op, &lt, &rt, left, right),
                },
            },
            ExprKind::Unary { op, expr: inner } => match self.check_expr_in(inner, p, Ghost(tc0)) {
                Err(m) => Err(m),
                Ok(t) => {
                    let stripped = self.strip_privacy(&t);
                    match op {
                        UnaryOp::Neg => {
                            if self.is_signed_numeric_type(&stripped) {
                                let tag = self.extract_privacy_tag(&t);
                                Ok(self.apply_privacy_tag(stripped, tag))
                            } else {
                                let mut m = with_type("cannot apply unary `-` to ", &t);
                                m.append("（只支持有符号数值类型，无符号类型想取负得先 `as` 成有符号类型）");
                                Err(m)
                            }
                        },
                        UnaryOp::Not => {
                            if bool_type(&stripped) {
                                let tag = self.extract_privacy_tag(&t);
                                Ok(self.apply_privacy_tag(Type::Bool, tag))
                            } else {
                                Err(with_type("cannot apply `!` to non-bool type: ", &t))
                            }
                        },
                    }
                },
            },
            ExprKind::Cast { expr: inner, ty } => match self.check_expr_in(inner, p, Ghost(tc0)) {
                Err(m) => Err(m),
                Ok(t) => {
                    let stripped = self.strip_privacy(&t);
                    if !self.is_numeric_type(&stripped) || !self.is_numeric_type(ty) {
                        let mut m = with_type("invalid cast: `as` 目前只支持数值类型之间的转换，得到 ", &t);
                        m.append(" as ");
                        m.append(debug_type(ty).as_str());
                        Err(m)
                    } else {
                        let tag = self.extract_privacy_tag(&t);
                        Ok(self.apply_privacy_tag(ty.duplicate(), tag))
                    }
                },
            },
            ExprKind::Index { expr: base, index } => match self.check_expr_in(base, p, Ghost(tc0)) {
                Err(m) => Err(m),
                Ok(bt) => match self.check_expr_in(index, p, Ghost(tc0)) {
                    Err(m) => Err(m),
                    Ok(it) => {
                        let istripped = self.strip_privacy(&it);
                        if !self.is_integer_type(&istripped) {
                            Err(with_type("index must be an integer type, got ", &it))
                        } else {
                            let bstripped = self.strip_privacy(&bt);
                            match element_type_of(&bstripped) {
                                Ok(el) => {
                                    let tag = self.extract_privacy_tag(&bt);
                                    Ok(self.apply_privacy_tag(el, tag))
                                },
                                Err(m) => Err(m),
                            }
                        }
                    },
                },
            },
            ExprKind::LackSlice(ty) => Ok(ref_to(slice_of(ty.duplicate()))),
            ExprKind::Call { .. } => self.check_call_in(expr, p, Ghost(tc0)),
            ExprKind::Block(_) => {
                let o = pass_result(&p.blocks, expr.id);
                o.unwrap()
            },
            ExprKind::StructInit { struct_name, fields } => self.check_struct_init_in(
                struct_name.as_str(),
                fields,
                None,
                p,
                Ghost(tc0),
            ),
            ExprKind::FieldAccess { struct_expr, field_name } => match self.check_expr_in(
                struct_expr,
                p,
                Ghost(tc0),
            ) {
                Err(m) => Err(m),
                Ok(t) => {
                    let st = self.strip_privacy(&t);
                    self.field_access_of(&st, field_name.as_str())
                },
            },
            ExprKind::Range { start, end } => match self.check_expr_in(start, p, Ghost(tc0)) {
                Err(m) => Err(m),
                Ok(st) => match self.check_expr_in(end, p, Ghost(tc0)) {
                    Err(m) => Err(m),
                    Ok(et) => {
                        if small_int_type(&st) && small_int_type(&et) {
                            Ok(Type::I32)
                        } else {
                            Err(String::from_str("range bounds must be integers"))
                        }
                    },
                },
            },
            ExprKind::If { .. } => self.check_if_in(expr, p, Ghost(tc0)),
            ExprKind::ArrayLiteral(es) => {
                if es.len() == 0 {
                    Err(String::from_str("array literal cannot be empty"))
                } else {
                    let mut vals: Vec<i64> = Vec::new();
                    self.check_array_from(es, 0, &mut vals, p, Ghost(tc0))
                }
            },
            ExprKind::EnumVariantAccess { enum_name, variant_name } => match find_enum(
                &self.enums,
                enum_name.as_str(),
            ) {
                None => {
                    let mut m = String::from_str("undefined enum: ");
                    m.append(enum_name.as_str());
                    Err(m)
                },
                Some(k) => match find_variant(&self.enums[k].variants, variant_name.as_str()) {
                    Some(_) => Ok(Type::Enum(enum_name.clone())),
                    None => {
                        let mut m = String::from_str("enum ");
                        m.append(enum_name.as_str());
                        m.append(" has no variant named ");
                        m.append(variant_name.as_str());
                        Err(m)
                    },
                },
            },
            ExprKind::EnumVariantConstruction { enum_name, variant_name, args } => self.check_evc_in(
                expr.id,
                enum_name.as_str(),
                variant_name.as_str(),
                args,
                None,
                p,
                Ghost(tc0),
            ),
            ExprKind::Match(_) => {
                let o = pass_result(&p.matches, expr.id);
                o.unwrap()
            },
            ExprKind::UnsafeBlock(_) => {
                let o = pass_result(&p.blocks, expr.id);
                o.unwrap()
            },
        };
        if let Ok(t) = &r {
            self.expr_types.push((expr.id, t.duplicate()));
        }
        r
    }
}


fn int32_literal(e: &Expr) -> (r: bool)
    ensures
        r == crate::semantic::check_expr::is_int_literal(*e),
{
    match &e.kind {
        ExprKind::Literal(Literal::Int32(_)) => true,
        _ => false,
    }
}

fn str_type(t: &Type) -> (r: bool)
    ensures
        r == (t@ == TypeModel::Str),
{
    match t {
        Type::Str => true,
        _ => false,
    }
}

fn unit_type(t: &Type) -> (r: bool)
    ensures
        r == (t@ == TypeModel::Unit),
{
    match t {
        Type::Unit => true,
        _ => false,
    }
}

fn byte_slice_ref_type(t: &Type) -> (r: bool)
    ensures
        r == (t@ == byte_slice_ref()),
{
    match t {
        Type::Ref { mutable, inner } => {
            let m = *mutable;
            match &**inner {
                Type::Slice(e) => {
                    assert(inner@ == TypeModel::Slice(Box::new(e@)));
                    match &**e {
                        Type::U8 => {
                            assert(e@ == TypeModel::U8);
                            !m
                        },
                        _ => {
                            assert(e@ != TypeModel::U8);
                            false
                        },
                    }
                },
                _ => {
                    assert(!(inner@ is Slice));
                    false
                },
            }
        },
        _ => false,
    }
}

/// The type of a constructed value: `name` itself without generic
/// parameters, else `name` applied to the bindings of `names`.
fn constructed_type(name: &str, names: &Vec<String>, b: &TypeTable, is_enum: bool) -> (r: Type)
    ensures
        r@ == if is_enum {
            enum_result(name@, names@.map_values(|s: String| s@), b.model())
        } else {
            struct_result(name@, names@.map_values(|s: String| s@), b.model())
        },
{
    if names.len() == 0 {
        if is_enum {
            Type::Enum(String::from_str(name))
        } else {
            Type::Struct(String::from_str(name))
        }
    } else {
        let args = bound_types(b, names);
        let ghost av = args@;
        let r = Type::Generic(String::from_str(name), args);
        proof {
            let ns = names@.map_values(|s: String| s@);
            assert forall|i: int| 0 <= i < names@.len() implies r@->Generic_1[i] == bound_args(b.model(), ns)[i] by {
                assert(av[i]@ == bound_or_param(b.model(), names@[i]@));
                assert(ns[i] == names@[i]@);
            }
            assert(r@->Generic_1 =~= bound_args(b.model(), ns));
        }
        r
    }
}

/// The bindings that an expected type presets for a construction of `name`
/// with the generic parameters `names`.
fn preset_for(expected: Option<&Type>, name: &str, names: &Vec<String>) -> (r: TypeTable)
    ensures
        r.model() == preset_from(opt_ref_type_model(expected), name@, names@.map_values(|s: String| s@)),
{
    match expected {
        Some(Type::Generic(x, xs)) => {
            if same_text(x.as_str(), name) && xs.len() == names.len() {
                let t = preset_table(names, xs, names.len());
                proof {
                    assert(xs@.map_values(|t: Type| t@) =~= expected.unwrap()@->Generic_1);
                }
                t
            } else {
                TypeTable::new()
            }
        },
        _ => TypeTable::new(),
    }
}

impl TypeChecker {
    /// Checks the expression of an argument.
    pub(crate) fn check_arg_in(&mut self, arg: &CallArg, p: &Passes, Ghost(tc0): Ghost<TypeChecker>) -> (r: Result<Type, String>)
        requires
            same_statics(*old(self), tc0),
            walk_expr(tc0, *p, scope_models(old(self).scopes@), arg_of(*arg)) is Some,
        ensures
            same_statics(*final(self), tc0),
            final(self).scopes@ == old(self).scopes@,
            Some(result_model(r)) == walk_expr(tc0, *p, scope_models(old(self).scopes@), arg_of(*arg)),
        decreases arg, 0nat,
    {
        match arg {
            CallArg::Positional(e) => self.check_expr_in(e, p, Ghost(tc0)),
            CallArg::Named(_, e) => self.check_expr_in(e, p, Ghost(tc0)),
        }
    }

    /// Checks the arguments `args[i..]` in order; the first error, if any.
    fn check_args_from(&mut self, args: &Vec<CallArg>, i: usize, p: &Passes, Ghost(tc0): Ghost<TypeChecker>) -> (r: Option<String>)
        requires
            same_statics(*old(self), tc0),
            walk_args_all(tc0, *p, scope_models(old(self).scopes@), args@, i as int) is Some,
        ensures
            same_statics(*final(self), tc0),
            final(self).scopes@ == old(self).scopes@,
            walk_args_all(tc0, *p, scope_models(old(self).scopes@), args@, i as int) == Some(
                match r {
                    Some(m) => Some(m@),
                    None => None,
                },
            ),
        decreases args@, args@.len() - i,
    {
        if i >= args.len() {
            return None;
        }
        proof {
            assert(decreases_to!(args@ => args@[i as int]));
        }
        match self.check_arg_in(&args[i], p, Ghost(tc0)) {
            Err(m) => Some(m),
            Ok(_) => self.check_args_from(args, i + 1, p, Ghost(tc0)),
        }
    }

    /// Unifies the arguments `args[i..]` of a call to `func`, the function
    /// `functions[k]`, against its parameters, extending the bindings `b`.
    fn check_fn_args_from(
        &mut self,
        func: &str,
        k: usize,
        args: &Vec<CallArg>,
        i: usize,
        b: &mut TypeTable,
        p: &Passes,
        Ghost(tc0): Ghost<TypeChecker>,
    ) -> (r: Option<String>)
        requires
            same_statics(*old(self), tc0),
            k < tc0.functions@.len(),
            walk_fn_args(
                tc0,
                *p,
                scope_models(old(self).scopes@),
                func@,
                tc0.functions@[k as int].params@,
                args@,
                i as int,
                old(b).model(),
            ) is Some,
        ensures
            same_statics(*final(self), tc0),
            final(self).scopes@ == old(self).scopes@,
            walk_fn_args(
                tc0,
                *p,
                scope_models(old(self).scopes@),
                func@,
                tc0.functions@[k as int].params@,
                args@,
                i as int,
                old(b).model(),
            ) == Some(
                match r {
                    Some(m) => Err(m@),
                    None => Ok(final(b).model()),
                },
            ),
        decreases args@, args@.len() - i,
    {
        if i >= args.len() || i >= self.functions[k].params.len() {
            return None;
        }
        proof {
            assert(decreases_to!(args@ => args@[i as int]));
        }
        let pty = self.functions[k].params[i].ty.duplicate();
        let pname = self.functions[k].params[i].name.clone();
        match self.check_arg_in(&args[i], p, Ghost(tc0)) {
            Err(m) => Some(m),
            Ok(at) => {
                if self.unify_type(&at, &pty, b) {
                    self.check_fn_args_from(func, k, args, i + 1, b, p, Ghost(tc0))
                } else {
                    let mut m = String::from_str("type mismatch in call to `");
                    m.append(func);
                    m.append("`: parameter `");
                    m.append(pname.as_str());
                    m.append("` expected ");
                    m.append(debug_type(&pty).as_str());
                    m.append(", got ");
                    m.append(debug_type(&at).as_str());
                    Some(m)
                }
            },
        }
    }

    /// A call to the free function `functions[k]`.
    fn check_fn_call_in(&mut self, func: &str, k: usize, args: &Vec<CallArg>, p: &Passes, Ghost(tc0): Ghost<TypeChecker>) -> (r: Result<Type, String>)
        requires
            same_statics(*old(self), tc0),
            k < tc0.functions@.len(),
            walk_fn_call(tc0, *p, scope_models(old(self).scopes@), func@, tc0.functions@[k as int], args@) is Some,
        ensures
            same_statics(*final(self), tc0),
            final(self).scopes@ == old(self).scopes@,
            Some(result_model(r)) == walk_fn_call(
                tc0,
                *p,
                scope_models(old(self).scopes@),
                func@,
                tc0.functions@[k as int],
                args@,
            ),
        decreases args@, args@.len() + 1,
    {
        let np = self.functions[k].params.len();
        if np != args.len() {
            let mut m = String::from_str("function `");
            m.append(func);
            m.append("` expects ");
            push_decimal(&mut m, np);
            m.append(" arguments, got ");
            push_decimal(&mut m, args.len());
            return Err(m);
        }
        let mut b = TypeTable::new();
        proof {
            assert(b.model() =~= Map::<Seq<char>, TypeModel>::empty());
        }
        match self.check_fn_args_from(func, k, args, 0, &mut b, p, Ghost(tc0)) {
            Some(m) => Err(m),
            None => match &self.functions[k].return_type {
                Some(ret) => Ok(self.substitute_type(ret, &b)),
                None => Ok(Type::Unit),
            },
        }
    }

    /// Checks a closure with its parameter of type `param_ty` in a scope of
    /// its own, against the expected return type `expected`.
    pub(crate) fn check_closure_in(
        &mut self,
        e: &Expr,
        param_ty: &Type,
        expected: Option<&Type>,
        p: &Passes,
        Ghost(tc0): Ghost<TypeChecker>,
    ) -> (r: Result<Type, String>)
        requires
            same_statics(*old(self), tc0),
            walk_closure(tc0, *p, *e, param_ty@, opt_ref_type_model(expected)) is Some,
        ensures
            same_statics(*final(self), tc0),
            final(self).scopes@ == old(self).scopes@,
            Some(result_model(r)) == walk_closure(tc0, *p, *e, param_ty@, opt_ref_type_model(expected)),
        decreases e, 1nat,
    {
        match &e.kind {
            ExprKind::Closure { param, body } => {
                let mut t = TypeTable::new();
                t.insert(param.clone(), param_ty.duplicate());
                let mut fresh: Vec<TypeTable> = Vec::new();
                fresh.push(t);
                proof {
                    assert(t.model() =~= Map::<Seq<char>, TypeModel>::empty().insert(param@, param_ty@));
                    assert(scope_models(fresh@) =~= seq![Map::<Seq<char>, TypeModel>::empty().insert(param@, param_ty@)]);
                }
                std::mem::swap(&mut self.scopes, &mut fresh);
                let r = self.check_expr_in(body, p, Ghost(tc0));
                std::mem::swap(&mut self.scopes, &mut fresh);
                match r {
                    Err(m) => Err(m),
                    Ok(rt) => match expected {
                        Some(x) => {
                            if self.types_equal_with_privacy(&rt, x) {
                                Ok(rt)
                            } else {
                                let mut m = with_type("Closure return type ", &rt);
                                m.append(" does not match expected ");
                                m.append(debug_type(x).as_str());
                                Err(m)
                            }
                        },
                        None => Ok(rt),
                    },
                }
            },
            _ => Err(String::from_str("Expected a closure")),
        }
    }
}


impl TypeChecker {
    /// `tensor.cond(input, condition, then, else)`.
    fn tensor_cond_in(&mut self, args: &Vec<CallArg>, p: &Passes, Ghost(tc0): Ghost<TypeChecker>) -> (r: Result<Type, String>)
        requires
            same_statics(*old(self), tc0),
            walk_tensor_cond(tc0, *p, scope_models(old(self).scopes@), args@) is Some,
        ensures
            same_statics(*final(self), tc0),
            final(self).scopes@ == old(self).scopes@,
            Some(result_model(r)) == walk_tensor_cond(tc0, *p, scope_models(old(self).scopes@), args@),
        decreases args@, 0nat,
    {
        let input = match self.get_call_arg_by_pos_or_name(args.as_slice(), 0, "input") {
            Ok((e, _)) => e,
            Err(m) => return Err(m),
        };
        let cond = match self.get_call_arg_by_pos_or_name(args.as_slice(), 1, "condition") {
            Ok((e, _)) => e,
            Err(m) => return Err(m),
        };
        let then_e = match self.get_call_arg_by_pos_or_name(args.as_slice(), 2, "then") {
            Ok((e, _)) => e,
            Err(m) => return Err(m),
        };
        let else_e = match self.get_call_arg_by_pos_or_name(args.as_slice(), 3, "else") {
            Ok((e, _)) => e,
            Err(m) => return Err(m),
        };
        let ghost ki = arg_choice(args@, 0, "input"@).unwrap();
        let ghost kc = arg_choice(args@, 1, "condition"@).unwrap();
        let ghost kt = arg_choice(args@, 2, "then"@).unwrap();
        let ghost ke = arg_choice(args@, 3, "else"@).unwrap();
        proof {
            assert(decreases_to!(args@ => args@[ki]));
            assert(decreases_to!(args@ => args@[kc]));
            assert(decreases_to!(args@ => args@[kt]));
            assert(decreases_to!(args@ => args@[ke]));
        }
        let it = match self.check_expr_in(input, p, Ghost(tc0)) {
            Err(m) => return Err(m),
            Ok(t) => t,
        };
        match self.check_closure_in(cond, &it, Some(&Type::Bool), p, Ghost(tc0)) {
            Err(m) => return Err(m),
            Ok(_) => {},
        }
        let tt = match self.check_closure_in(then_e, &it, Some(&it), p, Ghost(tc0)) {
            Err(m) => return Err(m),
            Ok(t) => t,
        };
        let et = match self.check_closure_in(else_e, &it, Some(&it), p, Ghost(tc0)) {
            Err(m) => return Err(m),
            Ok(t) => t,
        };
        if !self.types_equal_with_privacy(&tt, &et) {
            return Err(String::from_str("tensor.cond 'then' and 'else' branches have different types"));
        }
        Ok(it)
    }

    /// `tensor.while_loop(init, cond, body)`.
    fn while_loop_in(&mut self, args: &Vec<CallArg>, p: &Passes, Ghost(tc0): Ghost<TypeChecker>) -> (r: Result<Type, String>)
        requires
            same_statics(*old(self), tc0),
            walk_while_loop(tc0, *p, scope_models(old(self).scopes@), args@) is Some,
        ensures
            same_statics(*final(self), tc0),
            final(self).scopes@ == old(self).scopes@,
            Some(result_model(r)) == walk_while_loop(tc0, *p, scope_models(old(self).scopes@), args@),
        decreases args@, 0nat,
    {
        let init = match self.get_call_arg_by_pos_or_name(args.as_slice(), 0, "init") {
            Ok((e, _)) => e,
            Err(m) => return Err(m),
        };
        let cond = match self.get_call_arg_by_pos_or_name(args.as_slice(), 1, "cond") {
            Ok((e, _)) => e,
            Err(m) => return Err(m),
        };
        let body = match self.get_call_arg_by_pos_or_name(args.as_slice(), 2, "body") {
            Ok((e, _)) => e,
            Err(m) => return Err(m),
        };
        let ghost ki = arg_choice(args@, 0, "init"@).unwrap();
        let ghost kc = arg_choice(args@, 1, "cond"@).unwrap();
        let ghost kb = arg_choice(args@, 2, "body"@).unwrap();
        proof {
            assert(decreases_to!(args@ => args@[ki]));
            assert(decreases_to!(args@ => args@[kc]));
            assert(decreases_to!(args@ => args@[kb]));
        }
        let it = match self.check_expr_in(init, p, Ghost(tc0)) {
            Err(m) => return Err(m),
            Ok(t) => t,
        };
        match self.check_closure_in(cond, &it, Some(&Type::Bool), p, Ghost(tc0)) {
            Err(m) => return Err(m),
            Ok(_) => {},
        }
        match self.check_closure_in(body, &it, Some(&it), p, Ghost(tc0)) {
            Err(m) => return Err(m),
            Ok(_) => {},
        }
        Ok(it)
    }

    /// A call expression.
    #[verifier::rlimit(100)]
    fn check_call_in(&mut self, expr: &Expr, p: &Passes, Ghost(tc0): Ghost<TypeChecker>) -> (r: Result<Type, String>)
        requires
            same_statics(*old(self), tc0),
            walk_call(tc0, *p, scope_models(old(self).scopes@), *expr) is Some,
        ensures
            same_statics(*final(self), tc0),
            final(self).scopes@ == old(self).scopes@,
            Some(result_model(r)) == walk_call(tc0, *p, scope_models(old(self).scopes@), *expr),
        decreases expr, 1nat,
    {
        match &expr.kind {
            ExprKind::Call { qualifier, func, args, is_method } => {
                if qualifier.is_some() {
                    let o = pass_result(&p.qualified_calls, expr.id);
                    return o.unwrap();
                }
                let owners = variant_owners_of(&self.enums, func.as_str());
                proof {
                    assert(owners@.map_values(|s: String| s@).len() == owners@.len());
                }
                if !*is_method && owners.len() == 1 {
                    proof {
                        assert(owners@.map_values(|s: String| s@)[0] == owners@[0]@);
                    }
                    return self.check_evc_in(expr.id, owners[0].as_str(), func.as_str(), args, None, p, Ghost(tc0));
                }
                if !*is_method && owners.len() > 1 {
                    let mut m = String::from_str("ambiguous bare variant `");
                    m.append(func.as_str());
                    m.append("`: matches multiple enums (");
                    m.append(join_with_commas(&owners).as_str());
                    m.append("), use a qualified path like EnumName::");
                    m.append(func.as_str());
                    m.append("(...)");
                    return Err(m);
                }
                if same_text(func.as_str(), "print") {
                    if self.in_model {
                        return Err(String::from_str("error[MD001]: side-effect not allowed in model block"));
                    }
                    return match self.check_args_from(args, 0, p, Ghost(tc0)) {
                        None => Ok(Type::I32),
                        Some(m) => Err(m),
                    };
                }
                if same_text(func.as_str(), "panic") {
                    if args.len() != 1 {
                        return Err(String::from_str("`panic` expects exactly 1 argument (a message)"));
                    }
                    return match self.check_arg_in(&args[0], p, Ghost(tc0)) {
                        Err(m) => Err(m),
                        Ok(t) => {
                            let st = self.strip_privacy(&t);
                            if str_type(&st) {
                                Ok(Type::Never)
                            } else {
                                Err(with_type("`panic` expects a string argument, got ", &t))
                            }
                        },
                    };
                }
                if same_text(func.as_str(), "from_utf8_unchecked") {
                    if args.len() != 1 {
                        return Err(String::from_str("`from_utf8_unchecked` expects exactly 1 argument"));
                    }
                    return match self.check_arg_in(&args[0], p, Ghost(tc0)) {
                        Err(m) => Err(m),
                        Ok(t) => {
                            let st = self.strip_privacy(&t);
                            if byte_slice_ref_type(&st) {
                                Ok(ref_to(Type::Str))
                            } else {
                                Err(with_type("`from_utf8_unchecked` expects &[u8], got ", &t))
                            }
                        },
                    };
                }
                let cross = cross_result(&p.cross_model_calls, expr.id);
                match cross {
                    Some(Err(m)) => return Err(m),
                    Some(Ok(Some(t))) => return Ok(t),
                    _ => {},
                }
                if self.in_model && names_contain(&self.fn_stack, func.as_str()) {
                    return Err(
                        String::from_str(
                            "error[MD002]: recursion not allowed in model block; graph must be topologically sortable",
                        ),
                    );
                }
                if !*is_method {
                    match find_fn(&self.functions, func.as_str()) {
                        Some(k) => return self.check_fn_call_in(func.as_str(), k, args, p, Ghost(tc0)),
                        None => {},
                    }
                }
                if same_text(func.as_str(), "tensor.cond") {
                    return self.tensor_cond_in(args, p, Ghost(tc0));
                }
                if same_text(func.as_str(), "tensor.while_loop") {
                    return self.while_loop_in(args, p, Ghost(tc0));
                }
                if same_text(func.as_str(), "embedding") {
                    return self.embedding_in(args, p, Ghost(tc0));
                }
                if same_text(func.as_str(), "linear") {
                    return self.linear_in(args, p, Ghost(tc0));
                }
                if same_text(func.as_str(), "conv2d") {
                    return self.conv2d_in(args, p, Ghost(tc0));
                }
                if same_text(func.as_str(), "max_pool2d") {
                    return self.max_pool2d_in(args, p, Ghost(tc0));
                }
                if same_text(func.as_str(), "flatten") {
                    return self.flatten_in(args, p, Ghost(tc0));
                }
                if same_text(func.as_str(), "reshape") {
                    return self.reshape_in(args, p, Ghost(tc0));
                }
                let is_sum = same_text(func.as_str(), "sum");
                if same_text(func.as_str(), "relu") || same_text(func.as_str(), "dropout") || same_text(
                    func.as_str(),
                    "layer_norm",
                ) || is_sum {
                    if args.len() < 1 {
                        let mut m = func.clone();
                        m.append(" requires at least 1 argument");
                        return Err(m);
                    }
                    return match self.check_arg_in(&args[0], p, Ghost(tc0)) {
                        Err(m) => Err(m),
                        Ok(t) => {
                            if is_sum {
                                Ok(Type::F32)
                            } else {
                                Ok(t)
                            }
                        },
                    };
                }
                if *is_method {
                    let o = pass_result(&p.method_calls, expr.id);
                    return o.unwrap();
                }
                match self.check_args_from(args, 0, p, Ghost(tc0)) {
                    None => {
                        let mut m = String::from_str("undefined function or method: ");
                        m.append(func.as_str());
                        Err(m)
                    },
                    Some(m) => Err(m),
                }
            },
            _ => Err(String::new()),
        }
    }

    /// The elements `es[i..]` of an array literal, after the values `vals`
    /// of the elements before.
    fn check_array_from(
        &mut self,
        es: &Vec<Expr>,
        i: usize,
        vals: &mut Vec<i64>,
        p: &Passes,
        Ghost(tc0): Ghost<TypeChecker>,
    ) -> (r: Result<Type, String>)
        requires
            same_statics(*old(self), tc0),
            walk_array(tc0, *p, scope_models(old(self).scopes@), es@, i as int, old(vals)@) is Some,
        ensures
            same_statics(*final(self), tc0),
            final(self).scopes@ == old(self).scopes@,
            Some(result_model(r)) == walk_array(
                tc0,
                *p,
                scope_models(old(self).scopes@),
                es@,
                i as int,
                old(vals)@,
            ),
        decreases es@, es@.len() - i,
    {
        if i >= es.len() {
            let mut out: Vec<i64> = Vec::new();
            std::mem::swap(vals, &mut out);
            return Ok(Type::ConstIntArray(out));
        }
        proof {
            assert(decreases_to!(es@ => es@[i as int]));
        }
        match self.check_expr_in(&es[i], p, Ghost(tc0)) {
            Err(m) => Err(m),
            Ok(t) => {
                if small_int_type(&t) {
                    match self.eval_const_int_expr(&es[i]) {
                        Some(v) => {
                            vals.push(v);
                            self.check_array_from(es, i + 1, vals, p, Ghost(tc0))
                        },
                        None => {
                            let mut m = String::from_str("array element is not a constant integer: expression #");
                            push_decimal(&mut m, es[i].id);
                            Err(m)
                        },
                    }
                } else {
                    Err(with_type("array literal elements must be integers, got ", &t))
                }
            },
        }
    }

    /// An `if` expression.
    fn check_if_in(&mut self, expr: &Expr, p: &Passes, Ghost(tc0): Ghost<TypeChecker>) -> (r: Result<Type, String>)
        requires
            same_statics(*old(self), tc0),
            walk_if(tc0, *p, scope_models(old(self).scopes@), *expr) is Some,
        ensures
            same_statics(*final(self), tc0),
            final(self).scopes@ == old(self).scopes@,
            Some(result_model(r)) == walk_if(tc0, *p, scope_models(old(self).scopes@), *expr),
        decreases expr, 1nat,
    {
        match &expr.kind {
            ExprKind::If { kind, cond, then_expr, else_expr } => {
                if self.in_model {
                    match self.check_expr_in(cond, p, Ghost(tc0)) {
                        Err(m) => return Err(m),
                        Ok(ct) => {
                            let st = self.strip_privacy(&ct);
                            if let Type::Tensor { .. } = st {
                                return Err(
                                    String::from_str(
                                        "error[MD003]: runtime tensor condition must use explicit dynamic operator `tensor.cond`",
                                    ),
                                );
                            }
                        },
                    }
                }
                let ct = match self.check_expr_in(cond, p, Ghost(tc0)) {
                    Err(m) => return Err(m),
                    Ok(t) => t,
                };
                if !bool_type(&ct) {
                    return Err(String::from_str("if condition must be bool"));
                }
                let tt = match self.check_expr_in(then_expr, p, Ghost(tc0)) {
                    Err(m) => return Err(m),
                    Ok(t) => t,
                };
                match kind {
                    IfKind::Normal => match else_expr {
                        None => Err(
                            String::from_str(
                                "if expression requires an else branch（如果这个 if 不需要产出值、纯粹是副作用，请显式写成 `lack if`）",
                            ),
                        ),
                        Some(x) => match self.check_expr_in(x, p, Ghost(tc0)) {
                            Err(m) => Err(m),
                            Ok(et) => self.join_branches(&tt, &et),
                        },
                    },
                    IfKind::Lack => self.lack_branch(&tt, else_expr.is_some(), true),
                }
            },
            _ => Err(String::new()),
        }
    }

    /// An `if` expression checked against the expected type `x`.
    fn check_if_expected_in(&mut self, expr: &Expr, x: &Type, p: &Passes, Ghost(tc0): Ghost<TypeChecker>) -> (r: Result<Type, String>)
        requires
            same_statics(*old(self), tc0),
            walk_if_expected(tc0, *p, scope_models(old(self).scopes@), *expr, x@) is Some,
        ensures
            same_statics(*final(self), tc0),
            final(self).scopes@ == old(self).scopes@,
            Some(result_model(r)) == walk_if_expected(tc0, *p, scope_models(old(self).scopes@), *expr, x@),
        decreases expr, 1nat,
    {
        match &expr.kind {
            ExprKind::If { kind, cond, then_expr, else_expr } => {
                let ct = match self.check_expr_in(cond, p, Ghost(tc0)) {
                    Err(m) => return Err(m),
                    Ok(t) => t,
                };
                if !bool_type(&ct) {
                    return Err(String::from_str("if condition must be bool"));
                }
                let tt = match self.check_with_expected_in(then_expr, Some(x), p, Ghost(tc0)) {
                    Err(m) => return Err(m),
                    Ok(t) => t,
                };
                match kind {
                    IfKind::Normal => match else_expr {
                        None => Err(
                            String::from_str(
                                "if expression requires an else branch（如果这个 if 不需要产出值、纯粹是副作用，请显式写成 `lack if`）",
                            ),
                        ),
                        Some(y) => match self.check_with_expected_in(y, Some(x), p, Ghost(tc0)) {
                            Err(m) => Err(m),
                            Ok(et) => self.join_branches(&tt, &et),
                        },
                    },
                    IfKind::Lack => self.lack_branch(&tt, else_expr.is_some(), false),
                }
            },
            _ => Err(String::new()),
        }
    }

    /// The type of a normal `if` whose branches have types `tt` and `et`.
    fn join_branches(&self, tt: &Type, et: &Type) -> (r: Result<Type, String>)
        requires
            if_finish(IfKind::Normal, tt@, Some(Some(Ok(et@))), true) is Some,
        ensures
            Some(result_model(r)) == if_finish(IfKind::Normal, tt@, Some(Some(Ok(et@))), true),
            Some(result_model(r)) == if_finish(IfKind::Normal, tt@, Some(Some(Ok(et@))), false),
    {
        if !self.types_equal_with_privacy(tt, et) {
            let mut m = with_type("if branches have different types: then = ", tt);
            m.append(", else = ");
            m.append(debug_type(et).as_str());
            return Err(m);
        }
        let tag = self.join_privacy_labels(tt, et);
        let base = self.strip_privacy(tt);
        Ok(self.apply_privacy_tag(base, tag))
    }

    /// The type of a `lack if` whose then branch has type `tt`.
    fn lack_branch(&self, tt: &Type, has_else: bool, long: bool) -> (r: Result<Type, String>)
        ensures
            forall|els: Option<Outcome>|
                els is Some == has_else ==> Some(result_model(r)) == #[trigger] if_finish(
                    IfKind::Lack,
                    tt@,
                    els,
                    long,
                ),
    {
        if has_else {
            return Err(
                String::from_str(
                    "`lack if` must not have an else branch（既然写了 else，就该用普通 if，不要用 lack if）",
                ),
            );
        }
        let st = self.strip_privacy(tt);
        if !unit_type(&st) {
            let mut m = with_type("`lack if` 的 then 分支必须是 Unit 类型（纯副作用、不产出值），得到 ", tt);
            if long {
                m.append("（如果这个 if 需要产出值，请改成普通 if 并补上 else 分支）");
            } else {
                proof {
                    reveal_strlit("");
                    assert(m@ =~= m@ + ""@);
                }
            }
            proof {
                assert forall|els: Option<Outcome>| els is Some == has_else implies Some(result_model(Err::<Type, String>(m))) == #[trigger] if_finish(
                    IfKind::Lack,
                    tt@,
                    els,
                    long,
                ) by {}
            }
            return Err(m);
        }
        Ok(Type::Unit)
    }

    /// A construction of the variant `vn` of the enum `en` (expression
    /// number `id`), against the expected type `expected`.
    #[verifier::rlimit(60)]
    fn check_evc_in(
        &mut self,
        id: usize,
        en: &str,
        vn: &str,
        args: &Vec<CallArg>,
        expected: Option<&Type>,
        p: &Passes,
        Ghost(tc0): Ghost<TypeChecker>,
    ) -> (r: Result<Type, String>)
        requires
            same_statics(*old(self), tc0),
            walk_evc(tc0, *p, scope_models(old(self).scopes@), id, en@, vn@, args@, opt_ref_type_model(expected))
                is Some,
        ensures
            same_statics(*final(self), tc0),
            final(self).scopes@ == old(self).scopes@,
            Some(result_model(r)) == walk_evc(
                tc0,
                *p,
                scope_models(old(self).scopes@),
                id,
                en@,
                vn@,
                args@,
                opt_ref_type_model(expected),
            ),
        decreases args@, 1nat,
    {
        match find_enum(&self.enums, en) {
            None => {
                if method_listed(&self.methods, en, vn) {
                    let o = pass_result(&p.qualified_calls, id);
                    o.unwrap()
                } else {
                    let mut m = String::from_str("undefined enum: ");
                    m.append(en);
                    Err(m)
                }
            },
            Some(k) => {
                let names = Self::generic_param_names(self.enums[k].generic_params.as_slice());
                let mut b = preset_for(expected, en, &names);
                match find_variant(&self.enums[k].variants, vn) {
                    None => {
                        let mut m = String::from_str("enum ");
                        m.append(en);
                        m.append(" has no variant ");
                        m.append(vn);
                        Err(m)
                    },
                    Some(j) => {
                        let vty: Option<Type> = match &self.enums[k].variants[j].ty {
                            Some(t) => Some(t.duplicate()),
                            None => None,
                        };
                        match vty {
                            Some(vt) => {
                                if args.len() != 1 {
                                    return Err(String::from_str("variant expects 1 argument"));
                                }
                                proof {
                                    assert(decreases_to!(args@ => args@[0]));
                                }
                                match self.check_arg_in(&args[0], p, Ghost(tc0)) {
                                    Err(m) => Err(m),
                                    Ok(at) => {
                                        let resolved = self.substitute_type(&vt, &b);
                                        let lit = match &args[0] {
                                            CallArg::Positional(e) => int32_literal(e),
                                            CallArg::Named(_, e) => int32_literal(e),
                                        };
                                        let sr = self.strip_privacy(&resolved);
                                        let eff = if lit && self.is_numeric_type(&sr) {
                                            resolved
                                        } else {
                                            at.duplicate()
                                        };
                                        if self.unify_type(&eff, &vt, &mut b) {
                                            Ok(constructed_type(en, &names, &b, true))
                                        } else {
                                            let mut m = with_type("type mismatch: expected ", &vt);
                                            m.append(", got ");
                                            m.append(debug_type(&at).as_str());
                                            Err(m)
                                        }
                                    },
                                }
                            },
                            None => {
                                if args.len() != 0 {
                                    Err(String::from_str("variant takes no arguments"))
                                } else {
                                    Ok(constructed_type(en, &names, &b, true))
                                }
                            },
                        }
                    },
                }
            },
        }
    }

    /// An initialisation of the struct `name` with `fields`, against the
    /// expected type `expected`.
    fn check_struct_init_in(
        &mut self,
        name: &str,
        fields: &Vec<(String, Expr)>,
        expected: Option<&Type>,
        p: &Passes,
        Ghost(tc0): Ghost<TypeChecker>,
    ) -> (r: Result<Type, String>)
        requires
            same_statics(*old(self), tc0),
            walk_struct_init(tc0, *p, scope_models(old(self).scopes@), name@, fields@, opt_ref_type_model(expected))
                is Some,
        ensures
            same_statics(*final(self), tc0),
            final(self).scopes@ == old(self).scopes@,
            Some(result_model(r)) == walk_struct_init(
                tc0,
                *p,
                scope_models(old(self).scopes@),
                name@,
                fields@,
                opt_ref_type_model(expected),
            ),
        decreases fields@, fields@.len() + 1,
    {
        match find_struct(&self.structs, name) {
            None => {
                let mut m = String::from_str("undefined struct: ");
                m.append(name);
                Err(m)
            },
            Some(k) => {
                let names = Self::generic_param_names(self.structs[k].generic_params.as_slice());
                let nf = self.structs[k].fields.len();
                if fields.len() != nf {
                    let mut m = String::from_str("struct ");
                    m.append(name);
                    m.append(" expects ");
                    push_decimal(&mut m, nf);
                    m.append(" fields, got ");
                    push_decimal(&mut m, fields.len());
                    return Err(m);
                }
                let mut b = preset_for(expected, name, &names);
                match self.check_fields_from(name, k, fields, 0, &mut b, p, Ghost(tc0)) {
                    None => Ok(constructed_type(name, &names, &b, false)),
                    Some(m) => Err(m),
                }
            },
        }
    }

    /// The field initialisers `fields[i..]` of the struct `structs[k]`,
    /// extending the bindings `b`.
    fn check_fields_from(
        &mut self,
        name: &str,
        k: usize,
        fields: &Vec<(String, Expr)>,
        i: usize,
        b: &mut TypeTable,
        p: &Passes,
        Ghost(tc0): Ghost<TypeChecker>,
    ) -> (r: Option<String>)
        requires
            same_statics(*old(self), tc0),
            k < tc0.structs@.len(),
            walk_fields(
                tc0,
                *p,
                scope_models(old(self).scopes@),
                name@,
                tc0.structs@[k as int].fields@,
                fields@,
                i as int,
                old(b).model(),
            ) is Some,
        ensures
            same_statics(*final(self), tc0),
            final(self).scopes@ == old(self).scopes@,
            walk_fields(
                tc0,
                *p,
                scope_models(old(self).scopes@),
                name@,
                tc0.structs@[k as int].fields@,
                fields@,
                i as int,
                old(b).model(),
            ) == Some(
                match r {
                    Some(m) => Err(m@),
                    None => Ok(final(b).model()),
                },
            ),
        decreases fields@, fields@.len() - i,
    {
        if i >= fields.len() {
            return None;
        }
        proof {
            assert(decreases_to!(fields@ => fields@[i as int]));
            assert(decreases_to!(fields@[i as int] => fields@[i as int].1));
        }
        let fname = &fields[i].0;
        match find_field_last(&self.structs[k].fields, fname.as_str()) {
            None => {
                let mut m = String::from_str("unknown field '");
                m.append(fname.as_str());
                m.append("' in struct ");
                m.append(name);
                Some(m)
            },
            Some(j) => {
                let ety = self.structs[k].fields[j].ty.duplicate();
                match self.check_with_expected_in(&fields[i].1, Some(&ety), p, Ghost(tc0)) {
                    Err(m) => Some(m),
                    Ok(at) => {
                        let lit = int32_literal(&fields[i].1);
                        let se = self.strip_privacy(&ety);
                        let eff = if lit && self.is_numeric_type(&se) {
                            ety.duplicate()
                        } else {
                            at.duplicate()
                        };
                        if self.unify_type(&eff, &ety, b) {
                            self.check_fields_from(name, k, fields, i + 1, b, p, Ghost(tc0))
                        } else {
                            let mut m = String::from_str("field '");
                            m.append(fname.as_str());
                            m.append("' type mismatch: expected ");
                            m.append(debug_type(&ety).as_str());
                            m.append(", got ");
                            m.append(debug_type(&at).as_str());
                            Some(m)
                        }
                    },
                }
            },
        }
    }

    /// Checks `expr` against the expected type `expected`.
    fn check_with_expected_in(
        &mut self,
        expr: &Expr,
        expected: Option<&Type>,
        p: &Passes,
        Ghost(tc0): Ghost<TypeChecker>,
    ) -> (r: Result<Type, String>)
        requires
            same_statics(*old(self), tc0),
            walk_with_expected(tc0, *p, scope_models(old(self).scopes@), *expr, opt_ref_type_model(expected)) is Some,
        ensures
            same_statics(*final(self), tc0),
            final(self).scopes@ == old(self).scopes@,
            Some(result_model(r)) == walk_with_expected(
                tc0,
                *p,
                scope_models(old(self).scopes@),
                *expr,
                opt_ref_type_model(expected),
            ),
        decreases expr, 3nat,
    {
        match expected {
            None => self.check_expr_in(expr, p, Ghost(tc0)),
            Some(x) => match &expr.kind {
                ExprKind::EnumVariantConstruction { enum_name, variant_name, args } => self.check_evc_in(
                    expr.id,
                    enum_name.as_str(),
                    variant_name.as_str(),
                    args,
                    Some(x),
                    p,
                    Ghost(tc0),
                ),
                ExprKind::StructInit { struct_name, fields } => self.check_struct_init_in(
                    struct_name.as_str(),
                    fields,
                    Some(x),
                    p,
                    Ghost(tc0),
                ),
                ExprKind::Call { qualifier, func, args, is_method } => {
                    let owners = variant_owners_of(&self.enums, func.as_str());
                    proof {
                        assert(owners@.map_values(|s: String| s@).len() == owners@.len());
                    }
                    if qualifier.is_none() && !*is_method && owners.len() == 1 {
                        proof {
                            assert(owners@.map_values(|s: String| s@)[0] == owners@[0]@);
                        }
                        self.check_evc_in(expr.id, owners[0].as_str(), func.as_str(), args, Some(x), p, Ghost(tc0))
                    } else {
                        self.check_expr_in(expr, p, Ghost(tc0))
                    }
                },
                ExprKind::Literal(Literal::Int32(_)) => {
                    let sx = self.strip_privacy(x);
                    if self.is_numeric_type(&sx) {
                        Ok(x.duplicate())
                    } else {
                        self.check_expr_in(expr, p, Ghost(tc0))
                    }
                },
                ExprKind::Unary { op, expr: inner } => {
                    let sx = self.strip_privacy(x);
                    let neg = match op {
                        UnaryOp::Neg => true,
                        UnaryOp::Not => false,
                    };
                    if neg && int32_literal(inner) && self.is_signed_numeric_type(&sx) {
                        Ok(x.duplicate())
                    } else {
                        self.check_expr_in(expr, p, Ghost(tc0))
                    }
                },
                ExprKind::Block(_) => {
                    let o = pass_result(&p.blocks_expected, expr.id);
                    o.unwrap()
                },
                ExprKind::If { .. } => self.check_if_expected_in(expr, x, p, Ghost(tc0)),
                _ => self.check_expr_in(expr, p, Ghost(tc0)),
            },
        }
    }
}


/// The scope that checking a function opens: each parameter bound to its
/// type, `self` to the type of `self` (or `Self` when there is none), a
/// later parameter of a name replacing an earlier one.
pub open spec fn params_scope(params: Seq<crate::ast::Param>, self_ty: Option<TypeModel>, n: int) -> Map<
    Seq<char>,
    TypeModel,
>
    decreases n,
{
    if n <= 0 || n > params.len() {
        Map::empty()
    } else {
        params_scope(params, self_ty, n - 1).insert(
            params[n - 1].name@,
            if params[n - 1].name@ == "self"@ {
                match self_ty {
                    Some(t) => t,
                    None => TypeModel::SelfType,
                }
            } else {
                params[n - 1].ty@
            },
        )
    }
}

/// How checking a function ends once its body has been checked with the
/// result `body`, and the forward-function requirement with `dp`; `None`
/// where the comparison of privacy labels does not complete.
pub open spec fn func_outcome(
    ret: Option<TypeModel>,
    body: Result<TypeModel, Seq<char>>,
    dp: Result<(), Seq<char>>,
) -> Option<Result<(), Seq<char>>> {
    match body {
        Err(m) => Some(Err(m)),
        Ok(bt) => match ret {
            Some(x) => if bt != x {
                Some(
                    Err(
                        "expected return type "@ + crate::semantic::check_expr::type_debug(x) + ", got "@
                            + crate::semantic::check_expr::type_debug(bt),
                    ),
                )
            } else if !crate::semantic::privacy::equal_with_privacy_ok(bt, x) {
                None
            } else if !crate::semantic::privacy::equal_with_privacy(bt, x) {
                Some(
                    Err(
                        "privacy label mismatch: expected "@ + crate::semantic::check_expr::type_debug(x)
                            + ", got "@ + crate::semantic::check_expr::type_debug(bt),
                    ),
                )
            } else {
                Some(dp)
            },
            None => Some(dp),
        },
    }
}

pub open spec fn unit_result_model(r: Result<(), String>) -> Result<(), Seq<char>> {
    match r {
        Ok(()) => Ok(()),
        Err(m) => Err(m@),
    }
}

impl TypeChecker {
    /// The type of `expr` under the scopes in force; the block, `match`,
    /// method-call, qualified-call and cross-model passes' results are read
    /// from `p`. Records the type of each expression checked.
    pub fn check_expr(&mut self, expr: &Expr, p: &Passes) -> (r: Result<Type, String>)
        requires
            walk_expr(*old(self), *p, scope_models(old(self).scopes@), *expr) is Some,
        ensures
            Some(result_model(r)) == walk_expr(*old(self), *p, scope_models(old(self).scopes@), *expr),
            same_statics(*final(self), *old(self)),
            final(self).scopes@ == old(self).scopes@,
            r matches Ok(t) ==> final(self).expr_types@.last().0 == expr.id && final(self).expr_types@.last().1@
                == t@,
    {
        let ghost tc0 = *self;
        self.check_expr_in(expr, p, Ghost(tc0))
    }

    /// The type of `expr` checked against the expected type `expected`.
    pub fn check_expr_with_expected(&mut self, expr: &Expr, expected: Option<&Type>, p: &Passes) -> (r: Result<Type, String>)
        requires
            walk_with_expected(*old(self), *p, scope_models(old(self).scopes@), *expr, opt_ref_type_model(expected))
                is Some,
        ensures
            Some(result_model(r)) == walk_with_expected(
                *old(self),
                *p,
                scope_models(old(self).scopes@),
                *expr,
                opt_ref_type_model(expected),
            ),
            same_statics(*final(self), *old(self)),
            final(self).scopes@ == old(self).scopes@,
    {
        let ghost tc0 = *self;
        self.check_with_expected_in(expr, expected, p, Ghost(tc0))
    }

    /// The type of an initialisation of the struct `struct_name` with
    /// `fields`, against the expected type `expected`.
    pub fn check_struct_init(
        &mut self,
        struct_name: &str,
        fields: &Vec<(String, Expr)>,
        expected: Option<&Type>,
        p: &Passes,
    ) -> (r: Result<Type, String>)
        requires
            walk_struct_init(
                *old(self),
                *p,
                scope_models(old(self).scopes@),
                struct_name@,
                fields@,
                opt_ref_type_model(expected),
            ) is Some,
        ensures
            Some(result_model(r)) == walk_struct_init(
                *old(self),
                *p,
                scope_models(old(self).scopes@),
                struct_name@,
                fields@,
                opt_ref_type_model(expected),
            ),
            same_statics(*final(self), *old(self)),
            final(self).scopes@ == old(self).scopes@,
    {
        let ghost tc0 = *self;
        self.check_struct_init_in(struct_name, fields, expected, p, Ghost(tc0))
    }

    /// The type of a construction of the variant `variant_name` of the enum
    /// `enum_name` (expression number `id`) with `args`, against the
    /// expected type `expected`.
    pub fn check_enum_variant_construction(
        &mut self,
        id: usize,
        enum_name: &str,
        variant_name: &str,
        args: &Vec<CallArg>,
        expected: Option<&Type>,
        p: &Passes,
    ) -> (r: Result<Type, String>)
        requires
            walk_evc(
                *old(self),
                *p,
                scope_models(old(self).scopes@),
                id,
                enum_name@,
                variant_name@,
                args@,
                opt_ref_type_model(expected),
            ) is Some,
        ensures
            Some(result_model(r)) == walk_evc(
                *old(self),
                *p,
                scope_models(old(self).scopes@),
                id,
                enum_name@,
                variant_name@,
                args@,
                opt_ref_type_model(expected),
            ),
            same_statics(*final(self), *old(self)),
            final(self).scopes@ == old(self).scopes@,
    {
        let ghost tc0 = *self;
        self.check_evc_in(id, enum_name, variant_name, args, expected, p, Ghost(tc0))
    }

    /// The type of an argument's expression.
    pub fn check_call_arg(&mut self, arg: &CallArg, p: &Passes) -> (r: Result<Type, String>)
        requires
            walk_expr(*old(self), *p, scope_models(old(self).scopes@), arg_of(*arg)) is Some,
        ensures
            Some(result_model(r)) == walk_expr(*old(self), *p, scope_models(old(self).scopes@), arg_of(*arg)),
            same_statics(*final(self), *old(self)),
            final(self).scopes@ == old(self).scopes@,
    {
        let ghost tc0 = *self;
        self.check_arg_in(arg, p, Ghost(tc0))
    }

    /// The type of an argument's expression.
    pub fn get_arg_type(&mut self, arg: &CallArg, p: &Passes) -> (r: Result<Type, String>)
        requires
            walk_expr(*old(self), *p, scope_models(old(self).scopes@), arg_of(*arg)) is Some,
        ensures
            Some(result_model(r)) == walk_expr(*old(self), *p, scope_models(old(self).scopes@), arg_of(*arg)),
            same_statics(*final(self), *old(self)),
            final(self).scopes@ == old(self).scopes@,
    {
        let ghost tc0 = *self;
        self.check_arg_in(arg, p, Ghost(tc0))
    }

    /// The return type of the closure `closure_expr`, its parameter of type
    /// `param_ty`, checked in a scope of its own against `expected_ret`.
    pub fn check_closure(
        &mut self,
        closure_expr: &Expr,
        param_ty: &Type,
        expected_ret: Option<&Type>,
        p: &Passes,
    ) -> (r: Result<Type, String>)
        requires
            walk_closure(*old(self), *p, *closure_expr, param_ty@, opt_ref_type_model(expected_ret)) is Some,
        ensures
            Some(result_model(r)) == walk_closure(
                *old(self),
                *p,
                *closure_expr,
                param_ty@,
                opt_ref_type_model(expected_ret),
            ),
            same_statics(*final(self), *old(self)),
            final(self).scopes@ == old(self).scopes@,
    {
        let ghost tc0 = *self;
        self.check_closure_in(closure_expr, param_ty, expected_ret, p, Ghost(tc0))
    }

    /// Checks the function `fn_def`, whose body the block pass checked with
    /// the result `body_result` (against the declared return type), and
    /// whose forward-function requirement gave `dp_result`. A function that
    /// is already being checked is refused as recursion. On success the
    /// function's scope and its entry on the stack are gone again; on an
    /// error after they were opened they stay.
    pub fn check_func(&mut self, fn_def: &FnDef, body_result: Result<Type, String>, dp_result: Result<(), String>) -> (r:
        Result<(), String>)
        requires
            !names_hold(old(self).fn_stack@, fn_def.name@) ==> func_outcome(
                opt_type_model(fn_def.return_type),
                result_model(body_result),
                unit_result_model(dp_result),
            ) is Some,
        ensures
            final(self).current_return_type == old(self).current_return_type,
            final(self).consts == old(self).consts,
            final(self).current_self_type == old(self).current_self_type,
            names_hold(old(self).fn_stack@, fn_def.name@) ==> unit_result_model(r) == Err::<(), Seq<char>>(
                md002_text(),
            ) && final(self).fn_stack@ == old(self).fn_stack@ && final(self).scopes@ == old(self).scopes@,
            !names_hold(old(self).fn_stack@, fn_def.name@) ==> {
                &&& Some(unit_result_model(r)) == func_outcome(
                    opt_type_model(fn_def.return_type),
                    result_model(body_result),
                    unit_result_model(dp_result),
                )
                &&& r is Ok ==> final(self).fn_stack@ == old(self).fn_stack@ && final(self).scopes@
                    == old(self).scopes@
                &&& r is Err ==> final(self).fn_stack@.len() == old(self).fn_stack@.len() + 1
                    && final(self).fn_stack@.drop_last() == old(self).fn_stack@
                    && final(self).fn_stack@.last()@ == fn_def.name@
                    && final(self).scopes@.len() == old(self).scopes@.len() + 1
                    && final(self).scopes@.drop_last() == old(self).scopes@
                    && final(self).scopes@.last().model() == params_scope(
                    fn_def.params@,
                    opt_type_model(old(self).current_self_type),
                    fn_def.params@.len() as int,
                )
            },
    {
        if names_contain(&self.fn_stack, fn_def.name.as_str()) {
            return Err(
                String::from_str(
                    "error[MD002]: recursion not allowed in model block; graph must be topologically sortable",
                ),
            );
        }
        self.fn_stack.push(fn_def.name.clone());
        let mut table = TypeTable::new();
        let mut i: usize = 0;
        while i < fn_def.params.len()
            invariant
                i <= fn_def.params@.len(),
                table.model() == params_scope(
                    fn_def.params@,
                    opt_type_model(self.current_self_type),
                    i as int,
                ),
            decreases fn_def.params.len() - i,
        {
            let param = &fn_def.params[i];
            let ty = if same_text(param.name.as_str(), "self") {
                match &self.current_self_type {
                    Some(t) => t.duplicate(),
                    None => Type::SelfType,
                }
            } else {
                param.ty.duplicate()
            };
            table.insert(param.name.clone(), ty);
            i += 1;
        }
        self.scopes.push(table);
        let mut saved = crate::ast::duplicate_opt_type(&fn_def.return_type);
        std::mem::swap(&mut self.current_return_type, &mut saved);
        let body_type_result = body_result;
        std::mem::swap(&mut self.current_return_type, &mut saved);
        let body_type = match body_type_result {
            Ok(t) => t,
            Err(m) => return Err(m),
        };
        if let Some(expected) = &fn_def.return_type {
            if !self.types_equal(&body_type, expected) {
                let mut m = with_type("expected return type ", expected);
                m.append(", got ");
                m.append(debug_type(&body_type).as_str());
                return Err(m);
            }
            if !self.types_equal_with_privacy(&body_type, expected) {
                let mut m = with_type("privacy label mismatch: expected ", expected);
                m.append(", got ");
                m.append(debug_type(&body_type).as_str());
                return Err(m);
            }
        }
        match dp_result {
            Ok(()) => {},
            Err(m) => return Err(m),
        }
        self.scopes.pop();
        self.fn_stack.pop();
        Ok(())
    }
}

} // verus!
