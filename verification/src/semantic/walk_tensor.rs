//! The tensor operators of the type checker's walk: the shapes that
//! `embedding`, `linear`, `conv2d`, `max_pool2d`, `flatten` and `reshape`
//! give.
use vstd::prelude::*;
use vstd::string::*;
use crate::ast::{CallArg, ShapeDim, ShapeDimModel, Type, TypeModel, shapes_model};
use crate::semantic::check_program::TypeChecker;
use crate::semantic::helpers::{in_i64, opt_i64_value, trunc_div};
use crate::semantic::privacy::{apply_tag, extract_tag, strip};
use crate::semantic::walk::with_type;
use crate::semantic::walk_spec::{
    Passes, conv_dim, conv_out, dim_from, flat_total, pool_dim, pool_out, result_model,
    walk_conv2d, walk_embedding, walk_flatten, walk_linear, walk_max_pool2d, walk_reshape,
};
use crate::semantic::walk_tables::{same_statics, scope_models};
use crate::show::push_int;
use crate::text::push_decimal;

verus! {

pub open spec fn dim_model(r: Option<Result<ShapeDim, String>>) -> Option<Result<ShapeDimModel, Seq<char>>> {
    match r {
        None => None,
        Some(Ok(d)) => Some(Ok(d@)),
        Some(Err(m)) => Some(Err(m@)),
    }
}

pub open spec fn flat_model(r: Option<(bool, usize)>) -> Option<(bool, int)> {
    match r {
        None => None,
        Some((a, t)) => Some((a, t as int)),
    }
}

fn fits_i64(v: i128) -> (r: bool)
    ensures
        r == in_i64(v as int),
{
    i64::MIN as i128 <= v && v <= i64::MAX as i128
}

proof fn lemma_div_by_negated(a: int, b: int)
    requires
        a >= 0,
        b > 0,
    ensures
        a / (-b) == -(a / b),
{
    let q = a / b;
    let r = a % b;
    assert(a == b * q + r && 0 <= r < b) by (nonlinear_arith)
        requires
            b > 0,
            q == a / b,
            r == a % b,
    ;
    let x = a / (-b);
    let y = a % (-b);
    assert(a == (-b) * x + y && 0 <= y < b) by (nonlinear_arith)
        requires
            b > 0,
            x == a / (-b),
            y == a % (-b),
    ;
    assert(x == -q) by (nonlinear_arith)
        requires
            b > 0,
            a == b * q + r,
            0 <= r < b,
            a == (-b) * x + y,
            0 <= y < b,
    ;
}

/// `c / stride + 1` with truncating division, `None` on overflow or a zero
/// stride.
fn div_plus_one(c: i64, stride: i64) -> (r: Option<i64>)
    ensures
        opt_i64_value(r) == (if stride == 0 || !in_i64(trunc_div(c as int, stride as int)) || !in_i64(
            trunc_div(c as int, stride as int) + 1,
        ) {
            None
        } else {
            Some(trunc_div(c as int, stride as int) + 1)
        }),
{
    if stride == 0 {
        return None;
    }
    let ac: u128 = if c < 0 {
        (0i128 - c as i128) as u128
    } else {
        c as u128
    };
    let asd: u128 = if stride < 0 {
        (0i128 - stride as i128) as u128
    } else {
        stride as u128
    };
    let qa: u128 = ac / asd;
    assert(qa <= ac) by (nonlinear_arith)
        requires
            qa == ac / asd,
            asd > 0,
    ;
    let q: i128 = if (c < 0) != (stride < 0) {
        0i128 - qa as i128
    } else {
        qa as i128
    };
    proof {
        if c < 0 && stride < 0 {
            lemma_div_by_negated(ac as int, asd as int);
        } else if c >= 0 && stride < 0 {
            lemma_div_by_negated(ac as int, asd as int);
        }
    }
    assert(q as int == trunc_div(c as int, stride as int));
    if !fits_i64(q) || !fits_i64(q + 1) {
        return None;
    }
    Some((q + 1) as i64)
}

/// `(x + 2 * padding - kernel) / stride + 1`.
fn conv_out_of(x: i64, padding: i64, kernel: i64, stride: i64) -> (r: Option<i64>)
    ensures
        opt_i64_value(r) == conv_out(x as int, padding as int, kernel as int, stride as int),
{
    let a: i128 = 2 * (padding as i128);
    if !fits_i64(a) {
        return None;
    }
    let b: i128 = x as i128 + a;
    if !fits_i64(b) {
        return None;
    }
    let c: i128 = b - kernel as i128;
    if !fits_i64(c) {
        return None;
    }
    div_plus_one(c as i64, stride)
}

/// `(x - kernel) / stride + 1`.
fn pool_out_of(x: i64, kernel: i64, stride: i64) -> (r: Option<i64>)
    ensures
        opt_i64_value(r) == pool_out(x as int, kernel as int, stride as int),
{
    let c: i128 = x as i128 - kernel as i128;
    if !fits_i64(c) {
        return None;
    }
    div_plus_one(c as i64, stride)
}

fn dim_of(v: Option<i64>, err: &str) -> (r: Option<Result<ShapeDim, String>>)
    ensures
        dim_model(r) == dim_from(opt_i64_value(v), err@),
{
    match v {
        None => None,
        Some(v) => if v <= 0 {
            Some(Err(String::from_str(err)))
        } else {
            Some(Ok(ShapeDim::Const(v as usize)))
        },
    }
}

/// One output dimension of a convolution.
fn conv_dim_of(d: &ShapeDim, padding: i64, kernel: i64, stride: i64, err: &str) -> (r: Option<
    Result<ShapeDim, String>,
>)
    ensures
        dim_model(r) == conv_dim(d@, padding as int, kernel as int, stride as int, err@),
{
    match d {
        ShapeDim::Const(x) => dim_of(conv_out_of(*x as i64, padding, kernel, stride), err),
        _ => Some(Ok(ShapeDim::Dyn)),
    }
}

/// One output dimension of a pooling.
fn pool_dim_of(d: &ShapeDim, kernel: i64, stride: i64, err: &str) -> (r: Option<Result<ShapeDim, String>>)
    ensures
        dim_model(r) == pool_dim(d@, kernel as int, stride as int, err@),
{
    match d {
        ShapeDim::Const(x) => dim_of(pool_out_of(*x as i64, kernel, stride), err),
        _ => Some(Ok(ShapeDim::Dyn)),
    }
}

/// The product of the constant dimensions of `shape[i..]` up to the first
/// other one, times `acc`, and whether all were constant.
fn flat_from(shape: &Vec<ShapeDim>, i: usize, acc: usize) -> (r: Option<(bool, usize)>)
    requires
        i <= shape.len(),
    ensures
        flat_model(r) == flat_total(shapes_model(shape@), i as int, acc as int),
    decreases shape.len() - i,
{
    if i >= shape.len() {
        return Some((true, acc));
    }
    match &shape[i] {
        ShapeDim::Const(c) => match acc.checked_mul(*c) {
            None => None,
            Some(n) => flat_from(shape, i + 1, n),
        },
        _ => Some((false, acc)),
    }
}

impl TypeChecker {
    /// `embedding(x, num_embeddings = .., embedding_dim = ..)`.
    pub(crate) fn embedding_in(&mut self, args: &Vec<CallArg>, p: &Passes, Ghost(tc0): Ghost<TypeChecker>) -> (r:
        Result<Type, String>)
        requires
            same_statics(*old(self), tc0),
            walk_embedding(tc0, *p, scope_models(old(self).scopes@), args@) is Some,
        ensures
            same_statics(*final(self), tc0),
            final(self).scopes@ == old(self).scopes@,
            Some(result_model(r)) == walk_embedding(tc0, *p, scope_models(old(self).scopes@), args@),
        decreases args@, 0nat,
    {
        if args.len() < 2 {
            return Err(String::from_str("embedding requires at least two arguments"));
        }
        proof {
            assert(decreases_to!(args@ => args@[0]));
        }
        let rt = match self.check_arg_in(&args[0], p, Ghost(tc0)) {
            Err(m) => return Err(m),
            Ok(t) => t,
        };
        match self.extract_int_arg(args.as_slice(), "num_embeddings") {
            Err(m) => return Err(m),
            Ok(_) => {},
        }
        let d = match self.extract_int_arg(args.as_slice(), "embedding_dim") {
            Err(m) => return Err(m),
            Ok(v) => v,
        };
        let tag = self.extract_privacy_tag(&rt);
        let st = self.strip_privacy(&rt);
        match st {
            Type::Tensor { dtype: _, shape } => {
                let ghost s0 = shape@;
                let mut sh = shape;
                sh.push(ShapeDim::Const(d as usize));
                assert(shapes_model(sh@) =~= shapes_model(s0).push(ShapeDimModel::Const(d as usize)));
                let f = Type::F32;
                assert(f@ == TypeModel::F32);
                let t = Type::Tensor { dtype: Box::new(f), shape: sh };
                assert(t@ == crate::semantic::walk_spec::tensor(TypeModel::F32, shapes_model(sh@)));
                Ok(self.apply_privacy_tag(t, tag))
            },
            _ => Err(with_type("embedding expects a tensor, got ", &rt)),
        }
    }

    /// `linear(x, in = .., out = ..)`.
    pub(crate) fn linear_in(&mut self, args: &Vec<CallArg>, p: &Passes, Ghost(tc0): Ghost<TypeChecker>) -> (r:
        Result<Type, String>)
        requires
            same_statics(*old(self), tc0),
            walk_linear(tc0, *p, scope_models(old(self).scopes@), args@) is Some,
        ensures
            same_statics(*final(self), tc0),
            final(self).scopes@ == old(self).scopes@,
            Some(result_model(r)) == walk_linear(tc0, *p, scope_models(old(self).scopes@), args@),
        decreases args@, 0nat,
    {
        if args.len() < 2 {
            return Err(String::from_str("linear requires at least two arguments"));
        }
        proof {
            assert(decreases_to!(args@ => args@[0]));
        }
        let rt = match self.check_arg_in(&args[0], p, Ghost(tc0)) {
            Err(m) => return Err(m),
            Ok(t) => t,
        };
        let iv = match self.extract_int_arg(args.as_slice(), "in") {
            Err(m) => return Err(m),
            Ok(v) => v,
        };
        let ov = match self.extract_int_arg(args.as_slice(), "out") {
            Err(m) => return Err(m),
            Ok(v) => v,
        };
        let tag = self.extract_privacy_tag(&rt);
        let st = self.strip_privacy(&rt);
        match st {
            Type::Tensor { dtype, shape } => {
                if shape.len() == 0 {
                    return Err(String::from_str("tensor must have at least one dimension for linear"));
                }
                let n = shape.len() - 1;
                match &shape[n] {
                    ShapeDim::Const(c) => {
                        if *c != iv as usize {
                            let mut m = String::from_str("shape mismatch in linear: input last dim ");
                            push_decimal(&mut m, *c);
                            m.append(" does not match 'in' value ");
                            push_int(&mut m, iv);
                            return Err(m);
                        }
                    },
                    _ => {},
                }
                let ghost s0 = shape@;
                let mut sh = shape;
                sh.set(n, ShapeDim::Const(ov as usize));
                assert(shapes_model(sh@) =~= shapes_model(s0).update(n as int, ShapeDimModel::Const(ov as usize)));
                Ok(self.apply_privacy_tag(Type::Tensor { dtype, shape: sh }, tag))
            },
            _ => Err(with_type("linear expects a tensor, got ", &rt)),
        }
    }

    /// `conv2d(x, in = .., out = .., kernel = .., stride = .., padding = ..)`.
    #[verifier::rlimit(100)]
    pub(crate) fn conv2d_in(&mut self, args: &Vec<CallArg>, p: &Passes, Ghost(tc0): Ghost<TypeChecker>) -> (r:
        Result<Type, String>)
        requires
            same_statics(*old(self), tc0),
            walk_conv2d(tc0, *p, scope_models(old(self).scopes@), args@) is Some,
        ensures
            same_statics(*final(self), tc0),
            final(self).scopes@ == old(self).scopes@,
            Some(result_model(r)) == walk_conv2d(tc0, *p, scope_models(old(self).scopes@), args@),
        decreases args@, 0nat,
    {
        if args.len() < 2 {
            return Err(String::from_str("conv2d requires at least 2 arguments"));
        }
        proof {
            assert(decreases_to!(args@ => args@[0]));
        }
        let rt = match self.check_arg_in(&args[0], p, Ghost(tc0)) {
            Err(m) => return Err(m),
            Ok(t) => t,
        };
        let tag = self.extract_privacy_tag(&rt);
        let st = self.strip_privacy(&rt);
        match st {
            Type::Tensor { dtype, shape } => {
                if shape.len() != 3 && shape.len() != 4 {
                    return Err(String::from_str("conv2d expects 3D [C, H, W] or 4D [B, C, H, W] tensor"));
                }
                let ci: usize = if shape.len() == 4 {
                    1
                } else {
                    0
                };
                match self.extract_int_arg(args.as_slice(), "in") {
                    Err(m) => return Err(m),
                    Ok(_) => {},
                }
                let ov = match self.extract_int_arg(args.as_slice(), "out") {
                    Err(m) => return Err(m),
                    Ok(v) => v,
                };
                let k = match self.extract_int_arg(args.as_slice(), "kernel") {
                    Err(m) => return Err(m),
                    Ok(v) => v,
                };
                let sd = match self.extract_int_arg(args.as_slice(), "stride") {
                    Err(_) => 1,
                    Ok(v) => v,
                };
                let pd = match self.extract_int_arg(args.as_slice(), "padding") {
                    Err(_) => 0,
                    Ok(v) => v,
                };
                let h = match conv_dim_of(&shape[ci + 1], pd, k, sd, "conv2d output height non-positive") {
                    None => return Err(String::new()),
                    Some(Err(m)) => return Err(m),
                    Some(Ok(h)) => h,
                };
                let w = match conv_dim_of(&shape[ci + 2], pd, k, sd, "conv2d output width non-positive") {
                    None => return Err(String::new()),
                    Some(Err(m)) => return Err(m),
                    Some(Ok(w)) => w,
                };
                let ghost s0 = shape@;
                let ghost hm = h@;
                let ghost wm = w@;
                let mut sh = shape;
                sh.set(ci, ShapeDim::Const(ov as usize));
                sh.set(ci + 1, h);
                sh.set(ci + 2, w);
                assert(shapes_model(sh@) =~= shapes_model(s0).update(ci as int, ShapeDimModel::Const(ov as usize)).update(
                    ci + 1,
                    hm,
                ).update(ci + 2, wm));
                Ok(self.apply_privacy_tag(Type::Tensor { dtype, shape: sh }, tag))
            },
            _ => Err(with_type("conv2d expects a tensor, got ", &rt)),
        }
    }

    /// `max_pool2d(x, kernel = .., stride = ..)`.
    pub(crate) fn max_pool2d_in(&mut self, args: &Vec<CallArg>, p: &Passes, Ghost(tc0): Ghost<TypeChecker>) -> (r:
        Result<Type, String>)
        requires
            same_statics(*old(self), tc0),
            walk_max_pool2d(tc0, *p, scope_models(old(self).scopes@), args@) is Some,
        ensures
            same_statics(*final(self), tc0),
            final(self).scopes@ == old(self).scopes@,
            Some(result_model(r)) == walk_max_pool2d(tc0, *p, scope_models(old(self).scopes@), args@),
        decreases args@, 0nat,
    {
        if args.len() < 1 {
            return Err(String::from_str("max_pool2d requires at least 1 argument"));
        }
        proof {
            assert(decreases_to!(args@ => args@[0]));
        }
        let rt = match self.check_arg_in(&args[0], p, Ghost(tc0)) {
            Err(m) => return Err(m),
            Ok(t) => t,
        };
        let k = match self.extract_int_arg(args.as_slice(), "kernel") {
            Err(m) => return Err(m),
            Ok(v) => v,
        };
        let sd = match self.extract_int_arg(args.as_slice(), "stride") {
            Err(_) => k,
            Ok(v) => v,
        };
        let tag = self.extract_privacy_tag(&rt);
        let st = self.strip_privacy(&rt);
        match st {
            Type::Tensor { dtype, shape } => {
                if shape.len() != 3 && shape.len() != 4 {
                    return Err(String::from_str("max_pool2d expects 3D or 4D tensor"));
                }
                let hi: usize = if shape.len() == 4 {
                    2
                } else {
                    1
                };
                let h = match pool_dim_of(&shape[hi], k, sd, "max_pool2d output height non-positive") {
                    None => return Err(String::new()),
                    Some(Err(m)) => return Err(m),
                    Some(Ok(h)) => h,
                };
                let w = match pool_dim_of(&shape[hi + 1], k, sd, "max_pool2d output width non-positive") {
                    None => return Err(String::new()),
                    Some(Err(m)) => return Err(m),
                    Some(Ok(w)) => w,
                };
                let ghost s0 = shape@;
                let ghost hm = h@;
                let ghost wm = w@;
                let mut sh = shape;
                sh.set(hi, h);
                sh.set(hi + 1, w);
                assert(shapes_model(sh@) =~= shapes_model(s0).update(hi as int, hm).update(hi + 1, wm));
                Ok(self.apply_privacy_tag(Type::Tensor { dtype, shape: sh }, tag))
            },
            _ => Err(with_type("max_pool2d expects a tensor, got ", &rt)),
        }
    }

    /// `flatten(x)`.
    pub(crate) fn flatten_in(&mut self, args: &Vec<CallArg>, p: &Passes, Ghost(tc0): Ghost<TypeChecker>) -> (r:
        Result<Type, String>)
        requires
            same_statics(*old(self), tc0),
            walk_flatten(tc0, *p, scope_models(old(self).scopes@), args@) is Some,
        ensures
            same_statics(*final(self), tc0),
            final(self).scopes@ == old(self).scopes@,
            Some(result_model(r)) == walk_flatten(tc0, *p, scope_models(old(self).scopes@), args@),
        decreases args@, 0nat,
    {
        if args.len() < 1 {
            return Err(String::from_str("flatten requires at least 1 argument"));
        }
        proof {
            assert(decreases_to!(args@ => args@[0]));
        }
        let rt = match self.check_arg_in(&args[0], p, Ghost(tc0)) {
            Err(m) => return Err(m),
            Ok(t) => t,
        };
        let tag = self.extract_privacy_tag(&rt);
        let st = self.strip_privacy(&rt);
        match st {
            Type::Tensor { dtype, shape } => match flat_from(&shape, 0, 1) {
                None => Err(String::new()),
                Some((all, total)) => {
                    if all {
                        let mut sh: Vec<ShapeDim> = Vec::new();
                        sh.push(ShapeDim::Const(total));
                        assert(shapes_model(sh@) =~= seq![ShapeDimModel::Const(total)]);
                        Ok(self.apply_privacy_tag(Type::Tensor { dtype, shape: sh }, tag))
                    } else {
                        Ok(self.apply_privacy_tag(Type::Tensor { dtype, shape }, tag))
                    }
                },
            },
            _ => Err(with_type("flatten expects a tensor, got ", &rt)),
        }
    }

    /// `reshape(x, [dims..])`.
    pub(crate) fn reshape_in(&mut self, args: &Vec<CallArg>, p: &Passes, Ghost(tc0): Ghost<TypeChecker>) -> (r:
        Result<Type, String>)
        requires
            same_statics(*old(self), tc0),
            walk_reshape(tc0, *p, scope_models(old(self).scopes@), args@) is Some,
        ensures
            same_statics(*final(self), tc0),
            final(self).scopes@ == old(self).scopes@,
            Some(result_model(r)) == walk_reshape(tc0, *p, scope_models(old(self).scopes@), args@),
        decreases args@, 0nat,
    {
        if args.len() < 2 {
            return Err(String::from_str("reshape requires target shape"));
        }
        proof {
            assert(decreases_to!(args@ => args@[0]));
            assert(decreases_to!(args@ => args@[1]));
        }
        let rt = match self.check_arg_in(&args[0], p, Ghost(tc0)) {
            Err(m) => return Err(m),
            Ok(t) => t,
        };
        let at = match self.check_arg_in(&args[1], p, Ghost(tc0)) {
            Err(m) => return Err(m),
            Ok(t) => t,
        };
        match at {
            Type::ConstIntArray(vals) => {
                let tag = self.extract_privacy_tag(&rt);
                let st = self.strip_privacy(&rt);
                match st {
                    Type::Tensor { dtype, .. } => {
                        let mut sh: Vec<ShapeDim> = Vec::new();
                        let mut i: usize = 0;
                        while i < vals.len()
                            invariant
                                i <= vals.len(),
                                sh@.len() == i,
                                forall|j: int| 0 <= j < i ==> sh@[j]@ == ShapeDimModel::Const(vals@[j] as usize),
                            decreases vals.len() - i,
                        {
                            sh.push(ShapeDim::Const(vals[i] as usize));
                            i += 1;
                        }
                        assert(shapes_model(sh@) =~= Seq::new(
                            vals@.len(),
                            |j: int| ShapeDimModel::Const(vals@[j] as usize),
                        ));
                        Ok(self.apply_privacy_tag(Type::Tensor { dtype, shape: sh }, tag))
                    },
                    _ => Err(String::from_str("reshape expects a tensor")),
                }
            },
            _ => Err(String::from_str("reshape expects a constant integer array for shape")),
        }
    }
}

} // verus!
