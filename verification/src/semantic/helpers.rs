//! Helpers of the type checker: import paths, compile-time constants and their
//! integer values, and call arguments by position or by name.
use vstd::prelude::*;
use vstd::string::*;
use crate::ast::{CallArg, Expr, ExprKind, Literal, ShapeDim, UnaryOp, BinaryOp};
use crate::semantic::check_program::TypeChecker;
use crate::text::{chars_of, chars_equal, decimal_text, push_decimal, same_text};

verus! {

// ===== imports =====

impl TypeChecker {
    /// Where the standard library keeps the source of `module_name`.
    pub fn import_candidate_path(module_name: &str, stdlib_path: &str) -> (r: String)
        ensures
            r@ == stdlib_path@ + "/xiyi-core/src/"@ + module_name@ + ".xiyi"@,
    {
        let mut p = String::from_str(stdlib_path);
        p.append("/xiyi-core/src/");
        p.append(module_name);
        p.append(".xiyi");
        p
    }

    /// The answer to an import of `module_name` once it is known whether the
    /// candidate `path` exists.
    pub fn import_outcome(module_name: &str, path: String, found: bool) -> (r: Result<String, String>)
        ensures
            found ==> r == Ok::<String, String>(path),
            !found ==> r is Err && r->Err_0@ == "module not found: "@ + module_name@,
    {
        if found {
            Ok(path)
        } else {
            let mut m = String::from_str("module not found: ");
            m.append(module_name);
            Err(m)
        }
    }
}

// ===== compile-time constants =====

/// Whether `e` is a compile-time constant, given the global constants.
pub open spec fn const_expr(e: Expr, consts: Map<Seq<char>, crate::ast::TypeModel>) -> bool
    decreases e,
{
    match e.kind {
        ExprKind::Literal(_) => true,
        ExprKind::Sym(_) => true,
        ExprKind::Ident(name) => consts.dom().contains(name@),
        ExprKind::BinaryOp { left, right, .. } => const_expr(*left, consts) && const_expr(
            *right,
            consts,
        ),
        ExprKind::Unary { op: UnaryOp::Neg, expr } => const_expr(*expr, consts),
        ExprKind::LackSlice(_) => true,
        _ => false,
    }
}

pub open spec fn in_i64(x: int) -> bool {
    i64::MIN <= x <= i64::MAX
}

/// The value of an integer literal, as an `i64` (wider literals wrap).
pub open spec fn literal_int(l: Literal) -> Option<int> {
    match l {
        Literal::Int8(v) => Some(v as int),
        Literal::Int16(v) => Some(v as int),
        Literal::Int32(v) => Some(v as int),
        Literal::Int64(v) => Some(v as int),
        Literal::Int128(v) => Some((v as i64) as int),
        Literal::UInt8(v) => Some(v as int),
        Literal::UInt16(v) => Some(v as int),
        Literal::UInt32(v) => Some(v as int),
        Literal::UInt64(v) => Some((v as i64) as int),
        Literal::UInt128(v) => Some((v as i64) as int),
        Literal::Isize(v) => Some((v as i64) as int),
        Literal::Usize(v) => Some((v as i64) as int),
        _ => None,
    }
}

/// Integer division rounding toward zero.
pub open spec fn trunc_div(l: int, r: int) -> int {
    if l >= 0 {
        l / r
    } else {
        -((-l) / r)
    }
}

/// The integer value of a constant expression: integer literals, negation,
/// and `+ - * /`; division by zero has no value.
pub open spec fn const_int_value(e: Expr) -> Option<int>
    decreases e,
{
    match e.kind {
        ExprKind::Literal(l) => literal_int(l),
        ExprKind::Unary { op: UnaryOp::Neg, expr } => match const_int_value(*expr) {
            Some(v) => Some(-v),
            None => None,
        },
        ExprKind::BinaryOp { op, left, right } => match (
            const_int_value(*left),
            const_int_value(*right),
        ) {
            (Some(l), Some(r)) => match op {
                BinaryOp::Add => Some(l + r),
                BinaryOp::Sub => Some(l - r),
                BinaryOp::Mul => Some(l * r),
                BinaryOp::Div => if r == 0 {
                    None
                } else {
                    Some(trunc_div(l, r))
                },
                _ => None,
            },
            _ => None,
        },
        _ => None,
    }
}

/// Every operation that evaluating `e` carries out stays within `i64`.
pub open spec fn const_int_fits(e: Expr) -> bool
    decreases e,
{
    match e.kind {
        ExprKind::Unary { op: UnaryOp::Neg, expr } => const_int_fits(*expr) && match const_int_value(
            *expr,
        ) {
            Some(v) => in_i64(-v),
            None => true,
        },
        ExprKind::BinaryOp { op, left, right } => {
            &&& const_int_fits(*left)
            &&& const_int_value(*left) is Some ==> const_int_fits(*right)
            &&& match (const_int_value(*left), const_int_value(*right)) {
                (Some(l), Some(r)) => match op {
                    BinaryOp::Add => in_i64(l + r),
                    BinaryOp::Sub => in_i64(l - r),
                    BinaryOp::Mul => in_i64(l * r),
                    BinaryOp::Div => r != 0 ==> in_i64(trunc_div(l, r)),
                    _ => true,
                },
                _ => true,
            }
        },
        _ => true,
    }
}

/// Constant evaluation computes the exact sum, difference and product of
/// the values of constant operands, and divides by truncating toward zero:
/// the remainder it leaves is smaller than the divisor and has the sign of
/// the dividend; a zero divisor, and any other operator, has no value.
pub proof fn law_const_int_binary(e: Expr, op: BinaryOp, left: Expr, right: Expr, a: int, b: int)
    requires
        e.kind == (ExprKind::BinaryOp { op, left: Box::new(left), right: Box::new(right) }),
        const_int_value(left) == Some(a),
        const_int_value(right) == Some(b),
    ensures
        op == BinaryOp::Add ==> const_int_value(e) == Some(a + b),
        op == BinaryOp::Sub ==> const_int_value(e) == Some(a - b),
        op == BinaryOp::Mul ==> const_int_value(e) == Some(a * b),
        op == BinaryOp::Div && b == 0 ==> const_int_value(e) is None,
        op == BinaryOp::Div && b != 0 ==> (const_int_value(e) matches Some(q) && -(if b < 0 {
            -b
        } else {
            b
        }) < a - b * q < (if b < 0 {
            -b
        } else {
            b
        }) && (a - b * q == 0 || (a - b * q > 0) == (a > 0))),
        !(op == BinaryOp::Add || op == BinaryOp::Sub || op == BinaryOp::Mul || op == BinaryOp::Div)
            ==> const_int_value(e) is None,
{
    if op == BinaryOp::Div && b != 0 {
        lemma_trunc_div_remainder(a, b);
    }
}

/// The negation of a constant has the negated value.
pub proof fn law_const_int_negation(e: Expr, inner: Expr, a: int)
    requires
        e.kind == (ExprKind::Unary { op: UnaryOp::Neg, expr: Box::new(inner) }),
        const_int_value(inner) == Some(a),
    ensures
        const_int_value(e) == Some(-a),
{
}

proof fn lemma_trunc_div_remainder(a: int, b: int)
    requires
        b != 0,
    ensures
        -(if b < 0 { -b } else { b }) < a - b * trunc_div(a, b) < (if b < 0 { -b } else { b }),
        a - b * trunc_div(a, b) == 0 || (a - b * trunc_div(a, b) > 0) == (a > 0),
{
    let m = if b < 0 { -b } else { b };
    if a >= 0 {
        assert(0 <= a - b * (a / b) < m && (a == 0 ==> a - b * (a / b) == 0)) by (nonlinear_arith)
            requires
                a >= 0,
                b != 0,
                m == (if b < 0 { -b } else { b }),
        ;
    } else {
        assert(0 <= (-a) - b * ((-a) / b) < m) by (nonlinear_arith)
            requires
                a < 0,
                b != 0,
                m == (if b < 0 { -b } else { b }),
        ;
        assert(a - b * (-((-a) / b)) == -((-a) - b * ((-a) / b))) by (nonlinear_arith);
    }
}

pub open spec fn opt_i64_value(o: Option<i64>) -> Option<int> {
    match o {
        Some(v) => Some(v as int),
        None => None,
    }
}

impl TypeChecker {
    /// Whether `expr` is known at compile time: literals, symbols, global
    /// constants, and arithmetic or negation of such.
    pub fn is_compile_time_constant(&self, expr: &Expr) -> (r: bool)
        ensures
            r == const_expr(*expr, self.consts.model()),
        decreases expr,
    {
        match &expr.kind {
            ExprKind::Literal(_) => true,
            ExprKind::Sym(_) => true,
            ExprKind::Ident(name) => self.consts.contains_key(name.as_str()),
            ExprKind::BinaryOp { left, right, .. } => {
                self.is_compile_time_constant(left) && self.is_compile_time_constant(right)
            },
            ExprKind::Unary { op: UnaryOp::Neg, expr: inner } => self.is_compile_time_constant(inner),
            ExprKind::LackSlice(_) => true,
            _ => false,
        }
    }

    /// The `i64` value of a constant integer expression, if it has one.
    pub fn eval_const_int_expr(&self, expr: &Expr) -> (r: Option<i64>)
        requires
            const_int_fits(*expr),
        ensures
            opt_i64_value(r) == const_int_value(*expr),
        decreases expr,
    {
        match &expr.kind {
            ExprKind::Literal(Literal::Int8(v)) => Some(*v as i64),
            ExprKind::Literal(Literal::Int16(v)) => Some(*v as i64),
            ExprKind::Literal(Literal::Int32(v)) => Some(*v as i64),
            ExprKind::Literal(Literal::Int64(v)) => Some(*v),
            ExprKind::Literal(Literal::Int128(v)) => Some(*v as i64),
            ExprKind::Literal(Literal::UInt8(v)) => Some(*v as i64),
            ExprKind::Literal(Literal::UInt16(v)) => Some(*v as i64),
            ExprKind::Literal(Literal::UInt32(v)) => Some(*v as i64),
            ExprKind::Literal(Literal::UInt64(v)) => Some(*v as i64),
            ExprKind::Literal(Literal::UInt128(v)) => Some(*v as i64),
            ExprKind::Literal(Literal::Isize(v)) => Some(*v as i64),
            ExprKind::Literal(Literal::Usize(v)) => Some(*v as i64),
            ExprKind::Unary { op: UnaryOp::Neg, expr: inner } => {
                match self.eval_const_int_expr(inner) {
                    Some(v) => Some(-v),
                    None => None,
                }
            },
            ExprKind::BinaryOp { op, left, right } => {
                let l = match self.eval_const_int_expr(left) {
                    Some(l) => l,
                    None => return None,
                };
                let r = match self.eval_const_int_expr(right) {
                    Some(r) => r,
                    None => return None,
                };
                match op {
                    BinaryOp::Add => Some(l + r),
                    BinaryOp::Sub => Some(l - r),
                    BinaryOp::Mul => Some(l * r),
                    BinaryOp::Div => {
                        if r == 0 {
                            None
                        } else {
                            Some(l / r)
                        }
                    },
                    _ => None,
                }
            },
            _ => None,
        }
    }

    /// A constant dimension as an `i64` (a `usize` past `i64::MAX` wraps).
    pub fn shape_dim_to_i64(&self, dim: &ShapeDim) -> (r: Result<i64, String>)
        ensures
            match r {
                Ok(v) => dim matches ShapeDim::Const(c) && v == c as i64,
                Err(e) => !(dim is Const) && e@ == "expected constant dimension"@,
            },
    {
        match dim {
            ShapeDim::Const(c) => Ok(*c as i64),
            _ => Err(String::from_str("expected constant dimension")),
        }
    }
}

// ===== call arguments =====

pub open spec fn arg_expr(a: CallArg) -> Expr {
    match a {
        CallArg::Positional(e) => e,
        CallArg::Named(_, e) => e,
    }
}

/// `a` is an argument named `name`.
pub open spec fn named_as(a: CallArg, name: Seq<char>) -> bool {
    a matches CallArg::Named(n, _) && n@ == name
}

/// The index of the first argument named `name` in `args[i..]`.
pub open spec fn first_named_from(args: Seq<CallArg>, name: Seq<char>, i: int) -> Option<int>
    decreases args.len() - i,
{
    if i < 0 || i >= args.len() {
        None
    } else if named_as(args[i], name) {
        Some(i)
    } else {
        first_named_from(args, name, i + 1)
    }
}

/// The argument that `get_call_arg_by_pos_or_name` picks: the one at `pos`
/// when it is positional or named `name`, else the first named `name`.
pub open spec fn arg_choice(args: Seq<CallArg>, pos: int, name: Seq<char>) -> Option<int> {
    if 0 <= pos < args.len() && (args[pos] is Positional || named_as(args[pos], name)) {
        Some(pos)
    } else {
        first_named_from(args, name, 0)
    }
}

/// Position of the first argument named `name`, scanning from the start.
fn find_named(args: &[CallArg], name: &str) -> (r: Option<usize>)
    ensures
        opt_usize_value(r) == first_named_from(args@, name@, 0),
        r matches Some(k) ==> k < args@.len() && named_as(args@[k as int], name@),
{
    let key = chars_of(name);
    let mut i: usize = 0;
    while i < args.len()
        invariant
            i <= args@.len(),
            key@ == name@,
            first_named_from(args@, name@, 0) == first_named_from(args@, name@, i as int),
        decreases args.len() - i,
    {
        if let CallArg::Named(n, _) = &args[i] {
            let nk = chars_of(n.as_str());
            if chars_equal(&nk, &key) {
                return Some(i);
            }
        }
        i += 1;
    }
    None
}

proof fn lemma_first_named_in_range(args: Seq<CallArg>, name: Seq<char>, i: int)
    requires
        0 <= i,
    ensures
        first_named_from(args, name, i) matches Some(k) ==> i <= k < args.len() && named_as(
            args[k],
            name,
        ),
    decreases args.len() - i,
{
    if i < args.len() && !named_as(args[i], name) {
        lemma_first_named_in_range(args, name, i + 1);
    }
}

pub open spec fn opt_usize_value(o: Option<usize>) -> Option<int> {
    match o {
        Some(v) => Some(v as int),
        None => None,
    }
}

impl TypeChecker {
    /// The argument at position `pos` if it is positional or named `name`,
    /// else the first argument named `name`; with a label that says how it
    /// was found.
    pub fn get_call_arg_by_pos_or_name<'a>(&self, args: &'a [CallArg], pos: usize, name: &str) -> (r:
        Result<(&'a Expr, String), String>)
        requires
            pos < usize::MAX,
        ensures
            match r {
                Ok((e, label)) => arg_choice(args@, pos as int, name@) matches Some(k) && *e == arg_expr(
                    args@[k],
                ) && label@ == if args@[k] is Positional {
                    "positional #"@ + decimal_text((pos + 1) as nat)
                } else {
                    name@
                },
                Err(m) => arg_choice(args@, pos as int, name@) is None && m@ == "argument '"@ + name@
                    + "' not found (tried position "@ + decimal_text((pos + 1) as nat)
                    + " and name '"@ + name@ + "')"@,
            },
    {
        if pos < args.len() {
            match &args[pos] {
                CallArg::Positional(e) => {
                    let mut label = String::from_str("positional #");
                    push_decimal(&mut label, pos + 1);
                    return Ok((e, label));
                },
                CallArg::Named(n, e) => {
                    if same_text(n.as_str(), name) {
                        return Ok((e, n.clone()));
                    }
                },
            }
        }
        match find_named(args, name) {
            Some(k) => {
                match &args[k] {
                    CallArg::Named(n, e) => Ok((e, n.clone())),
                    CallArg::Positional(e) => Ok((e, String::new())),
                }
            },
            None => {
                let mut m = String::from_str("argument '");
                m.append(name);
                m.append("' not found (tried position ");
                push_decimal(&mut m, pos + 1);
                m.append(" and name '");
                m.append(name);
                m.append("')");
                Err(m)
            },
        }
    }

    /// The value of the constant integer argument named `name`.
    pub fn extract_int_arg(&self, args: &[CallArg], name: &str) -> (r: Result<i64, String>)
        requires
            first_named_from(args@, name@, 0) matches Some(k) ==> const_int_fits(arg_expr(args@[k])),
        ensures
            match first_named_from(args@, name@, 0) {
                Some(k) => match const_int_value(arg_expr(args@[k])) {
                    Some(v) => r == Ok::<i64, String>(v as i64),
                    None => r is Err && r->Err_0@ == "parameter '"@ + name@
                        + "' is not a constant integer expression"@,
                },
                None => r is Err && r->Err_0@ == "parameter '"@ + name@ + "' not found"@,
            },
    {
        proof {
            lemma_first_named_in_range(args@, name@, 0);
        }
        match find_named(args, name) {
            Some(k) => {
                let e = match &args[k] {
                    CallArg::Named(_, e) => e,
                    CallArg::Positional(e) => e,
                };
                match self.eval_const_int_expr(e) {
                    Some(v) => Ok(v),
                    None => {
                        let mut m = String::from_str("parameter '");
                        m.append(name);
                        m.append("' is not a constant integer expression");
                        Err(m)
                    },
                }
            },
            None => {
                let mut m = String::from_str("parameter '");
                m.append(name);
                m.append("' not found");
                Err(m)
            },
        }
    }
}

} // verus!
