//! Constant folding of literal operands: checked integer arithmetic and
//! comparisons, and boolean logic.
//!
//! Floating-point literals are carried as bit patterns and are folded by the
//! driver, which has the machine's floating-point arithmetic at hand.
use vstd::prelude::*;
use crate::ast::{BinaryOp, Literal, UnaryOp};

verus! {

/// The constant folder.
pub struct Calc;

/// The value of an integer literal.
pub open spec fn int_value(l: Literal) -> Option<int> {
    match l {
        Literal::Int8(v) => Some(v as int),
        Literal::Int16(v) => Some(v as int),
        Literal::Int32(v) => Some(v as int),
        Literal::Int64(v) => Some(v as int),
        Literal::Int128(v) => Some(v as int),
        Literal::UInt8(v) => Some(v as int),
        Literal::UInt16(v) => Some(v as int),
        Literal::UInt32(v) => Some(v as int),
        Literal::UInt64(v) => Some(v as int),
        Literal::UInt128(v) => Some(v as int),
        Literal::Isize(v) => Some(v as int),
        Literal::Usize(v) => Some(v as int),
        _ => None,
    }
}

/// Both literals are integers of the same width and signedness.
pub open spec fn same_int_kind(a: Literal, b: Literal) -> bool {
    match (a, b) {
        (Literal::Int8(_), Literal::Int8(_)) => true,
        (Literal::Int16(_), Literal::Int16(_)) => true,
        (Literal::Int32(_), Literal::Int32(_)) => true,
        (Literal::Int64(_), Literal::Int64(_)) => true,
        (Literal::Int128(_), Literal::Int128(_)) => true,
        (Literal::UInt8(_), Literal::UInt8(_)) => true,
        (Literal::UInt16(_), Literal::UInt16(_)) => true,
        (Literal::UInt32(_), Literal::UInt32(_)) => true,
        (Literal::UInt64(_), Literal::UInt64(_)) => true,
        (Literal::UInt128(_), Literal::UInt128(_)) => true,
        (Literal::Isize(_), Literal::Isize(_)) => true,
        (Literal::Usize(_), Literal::Usize(_)) => true,
        _ => false,
    }
}

/// The least value of the integer kind of `l`.
pub open spec fn kind_min(l: Literal) -> int {
    match l {
        Literal::Int8(_) => i8::MIN as int,
        Literal::Int16(_) => i16::MIN as int,
        Literal::Int32(_) => i32::MIN as int,
        Literal::Int64(_) => i64::MIN as int,
        Literal::Int128(_) => i128::MIN as int,
        Literal::UInt8(_) => u8::MIN as int,
        Literal::UInt16(_) => u16::MIN as int,
        Literal::UInt32(_) => u32::MIN as int,
        Literal::UInt64(_) => u64::MIN as int,
        Literal::UInt128(_) => u128::MIN as int,
        Literal::Isize(_) => isize::MIN as int,
        Literal::Usize(_) => usize::MIN as int,
        _ => 0,
    }
}

/// The greatest value of the integer kind of `l`.
pub open spec fn kind_max(l: Literal) -> int {
    match l {
        Literal::Int8(_) => i8::MAX as int,
        Literal::Int16(_) => i16::MAX as int,
        Literal::Int32(_) => i32::MAX as int,
        Literal::Int64(_) => i64::MAX as int,
        Literal::Int128(_) => i128::MAX as int,
        Literal::UInt8(_) => u8::MAX as int,
        Literal::UInt16(_) => u16::MAX as int,
        Literal::UInt32(_) => u32::MAX as int,
        Literal::UInt64(_) => u64::MAX as int,
        Literal::UInt128(_) => u128::MAX as int,
        Literal::Isize(_) => isize::MAX as int,
        Literal::Usize(_) => usize::MAX as int,
        _ => 0,
    }
}

/// A literal of the same integer kind as `l` holding `v`.
pub open spec fn with_value(l: Literal, v: int) -> Literal {
    match l {
        Literal::Int8(_) => Literal::Int8(v as i8),
        Literal::Int16(_) => Literal::Int16(v as i16),
        Literal::Int32(_) => Literal::Int32(v as i32),
        Literal::Int64(_) => Literal::Int64(v as i64),
        Literal::Int128(_) => Literal::Int128(v as i128),
        Literal::UInt8(_) => Literal::UInt8(v as u8),
        Literal::UInt16(_) => Literal::UInt16(v as u16),
        Literal::UInt32(_) => Literal::UInt32(v as u32),
        Literal::UInt64(_) => Literal::UInt64(v as u64),
        Literal::UInt128(_) => Literal::UInt128(v as u128),
        Literal::Isize(_) => Literal::Isize(v as isize),
        Literal::Usize(_) => Literal::Usize(v as usize),
        _ => l,
    }
}

/// Quotient rounded toward zero.
pub open spec fn quot(x: int, d: int) -> int {
    if x == 0 {
        0
    } else if x > 0 && d > 0 {
        x / d
    } else if x < 0 && d < 0 {
        (x * -1) / (d * -1)
    } else if x < 0 {
        ((x * -1) / d) * -1
    } else {
        (x / (d * -1)) * -1
    }
}

/// Remainder of the division rounded toward zero; it has the sign of `x`.
pub open spec fn rem(x: int, d: int) -> int {
    if x == 0 {
        0
    } else if x > 0 && d > 0 {
        x % d
    } else if x < 0 && d < 0 {
        ((x * -1) % (d * -1)) * -1
    } else if x < 0 {
        ((x * -1) % d) * -1
    } else {
        x % (d * -1)
    }
}

/// `v` fits in the integer kind of `l`.
pub open spec fn fits(l: Literal, v: int) -> bool {
    kind_min(l) <= v <= kind_max(l)
}

/// Folding `a op b` for integers of the kind of `l`: arithmetic that leaves
/// the kind, or divides by zero, has no value; comparisons give a boolean.
pub open spec fn int_fold(op: BinaryOp, l: Literal, a: int, b: int) -> Option<Literal> {
    match op {
        BinaryOp::Add => if fits(l, a + b) {
            Some(with_value(l, a + b))
        } else {
            None
        },
        BinaryOp::Sub => if fits(l, a - b) {
            Some(with_value(l, a - b))
        } else {
            None
        },
        BinaryOp::Mul => if fits(l, a * b) {
            Some(with_value(l, a * b))
        } else {
            None
        },
        BinaryOp::Div => if b == 0 || !fits(l, quot(a, b)) {
            None
        } else {
            Some(with_value(l, quot(a, b)))
        },
        BinaryOp::Mod => if b == 0 || (a == kind_min(l) && b == -1) || !fits(l, rem(a, b)) {
            None
        } else {
            Some(with_value(l, rem(a, b)))
        },
        BinaryOp::Eq => Some(Literal::Bool(a == b)),
        BinaryOp::Neq => Some(Literal::Bool(a != b)),
        BinaryOp::Lt => Some(Literal::Bool(a < b)),
        BinaryOp::Gt => Some(Literal::Bool(a > b)),
        BinaryOp::Le => Some(Literal::Bool(a <= b)),
        BinaryOp::Ge => Some(Literal::Bool(a >= b)),
        BinaryOp::And | BinaryOp::Or => None,
    }
}

pub open spec fn bool_fold(op: BinaryOp, x: bool, y: bool) -> Option<Literal> {
    match op {
        BinaryOp::And => Some(Literal::Bool(x && y)),
        BinaryOp::Or => Some(Literal::Bool(x || y)),
        BinaryOp::Eq => Some(Literal::Bool(x == y)),
        BinaryOp::Neq => Some(Literal::Bool(x != y)),
        _ => None,
    }
}

/// Two floating-point literals of the same width.
pub open spec fn float_pair(a: Literal, b: Literal) -> bool {
    match (a, b) {
        (Literal::Float16(_), Literal::Float16(_)) => true,
        (Literal::Float32(_), Literal::Float32(_)) => true,
        (Literal::Float64(_), Literal::Float64(_)) => true,
        _ => false,
    }
}

pub open spec fn is_float(l: Literal) -> bool {
    l is Float16 || l is Float32 || l is Float64
}

/// The folded value of `left op right`: integers of one kind, or two
/// booleans; any other pair has none.
pub open spec fn folded_binary(op: BinaryOp, left: Literal, right: Literal) -> Option<Literal> {
    if same_int_kind(left, right) {
        int_fold(op, left, int_value(left).unwrap(), int_value(right).unwrap())
    } else {
        match (left, right) {
            (Literal::Bool(x), Literal::Bool(y)) => bool_fold(op, x, y),
            _ => None,
        }
    }
}

/// The folded value of `op operand`: negation of a signed integer that
/// stays in its kind, and boolean negation.
pub open spec fn folded_unary(op: UnaryOp, operand: Literal) -> Option<Literal> {
    match (op, operand) {
        (UnaryOp::Neg, Literal::Int8(v)) => if v == i8::MIN {
            None
        } else {
            Some(Literal::Int8(-v as i8))
        },
        (UnaryOp::Neg, Literal::Int16(v)) => if v == i16::MIN {
            None
        } else {
            Some(Literal::Int16(-v as i16))
        },
        (UnaryOp::Neg, Literal::Int32(v)) => if v == i32::MIN {
            None
        } else {
            Some(Literal::Int32(-v as i32))
        },
        (UnaryOp::Neg, Literal::Int64(v)) => if v == i64::MIN {
            None
        } else {
            Some(Literal::Int64(-v as i64))
        },
        (UnaryOp::Neg, Literal::Int128(v)) => if v == i128::MIN {
            None
        } else {
            Some(Literal::Int128(-v as i128))
        },
        (UnaryOp::Neg, Literal::Isize(v)) => if v == isize::MIN {
            None
        } else {
            Some(Literal::Isize(-v as isize))
        },
        (UnaryOp::Not, Literal::Bool(v)) => Some(Literal::Bool(!v)),
        _ => None,
    }
}

/// Folds `l op r` for `i8` operands.
fn fold_i8(op: BinaryOp, l: i8, r: i8) -> (res: Option<Literal>)
    ensures
        res == int_fold(op, Literal::Int8(l), l as int, r as int),
{
    match op {
        BinaryOp::Add => match l.checked_add(r) {
            Some(v) => Some(Literal::Int8(v)),
            None => None,
        },
        BinaryOp::Sub => match l.checked_sub(r) {
            Some(v) => Some(Literal::Int8(v)),
            None => None,
        },
        BinaryOp::Mul => match l.checked_mul(r) {
            Some(v) => Some(Literal::Int8(v)),
            None => None,
        },
        BinaryOp::Div => match l.checked_div(r) {
            Some(v) => Some(Literal::Int8(v)),
            None => None,
        },
        BinaryOp::Mod => match l.checked_rem(r) {
            Some(v) => Some(Literal::Int8(v)),
            None => None,
        },
        BinaryOp::Eq => Some(Literal::Bool(l == r)),
        BinaryOp::Neq => Some(Literal::Bool(l != r)),
        BinaryOp::Lt => Some(Literal::Bool(l < r)),
        BinaryOp::Gt => Some(Literal::Bool(l > r)),
        BinaryOp::Le => Some(Literal::Bool(l <= r)),
        BinaryOp::Ge => Some(Literal::Bool(l >= r)),
        _ => None,
    }
}

/// Folds `l op r` for `i16` operands.
fn fold_i16(op: BinaryOp, l: i16, r: i16) -> (res: Option<Literal>)
    ensures
        res == int_fold(op, Literal::Int16(l), l as int, r as int),
{
    match op {
        BinaryOp::Add => match l.checked_add(r) {
            Some(v) => Some(Literal::Int16(v)),
            None => None,
        },
        BinaryOp::Sub => match l.checked_sub(r) {
            Some(v) => Some(Literal::Int16(v)),
            None => None,
        },
        BinaryOp::Mul => match l.checked_mul(r) {
            Some(v) => Some(Literal::Int16(v)),
            None => None,
        },
        BinaryOp::Div => match l.checked_div(r) {
            Some(v) => Some(Literal::Int16(v)),
            None => None,
        },
        BinaryOp::Mod => match l.checked_rem(r) {
            Some(v) => Some(Literal::Int16(v)),
            None => None,
        },
        BinaryOp::Eq => Some(Literal::Bool(l == r)),
        BinaryOp::Neq => Some(Literal::Bool(l != r)),
        BinaryOp::Lt => Some(Literal::Bool(l < r)),
        BinaryOp::Gt => Some(Literal::Bool(l > r)),
        BinaryOp::Le => Some(Literal::Bool(l <= r)),
        BinaryOp::Ge => Some(Literal::Bool(l >= r)),
        _ => None,
    }
}

/// Folds `l op r` for `i32` operands.
fn fold_i32(op: BinaryOp, l: i32, r: i32) -> (res: Option<Literal>)
    ensures
        res == int_fold(op, Literal::Int32(l), l as int, r as int),
{
    match op {
        BinaryOp::Add => match l.checked_add(r) {
            Some(v) => Some(Literal::Int32(v)),
            None => None,
        },
        BinaryOp::Sub => match l.checked_sub(r) {
            Some(v) => Some(Literal::Int32(v)),
            None => None,
        },
        BinaryOp::Mul => match l.checked_mul(r) {
            Some(v) => Some(Literal::Int32(v)),
            None => None,
        },
        BinaryOp::Div => match l.checked_div(r) {
            Some(v) => Some(Literal::Int32(v)),
            None => None,
        },
        BinaryOp::Mod => match l.checked_rem(r) {
            Some(v) => Some(Literal::Int32(v)),
            None => None,
        },
        BinaryOp::Eq => Some(Literal::Bool(l == r)),
        BinaryOp::Neq => Some(Literal::Bool(l != r)),
        BinaryOp::Lt => Some(Literal::Bool(l < r)),
        BinaryOp::Gt => Some(Literal::Bool(l > r)),
        BinaryOp::Le => Some(Literal::Bool(l <= r)),
        BinaryOp::Ge => Some(Literal::Bool(l >= r)),
        _ => None,
    }
}

/// Folds `l op r` for `i64` operands.
fn fold_i64(op: BinaryOp, l: i64, r: i64) -> (res: Option<Literal>)
    ensures
        res == int_fold(op, Literal::Int64(l), l as int, r as int),
{
    match op {
        BinaryOp::Add => match l.checked_add(r) {
            Some(v) => Some(Literal::Int64(v)),
            None => None,
        },
        BinaryOp::Sub => match l.checked_sub(r) {
            Some(v) => Some(Literal::Int64(v)),
            None => None,
        },
        BinaryOp::Mul => match l.checked_mul(r) {
            Some(v) => Some(Literal::Int64(v)),
            None => None,
        },
        BinaryOp::Div => match l.checked_div(r) {
            Some(v) => Some(Literal::Int64(v)),
            None => None,
        },
        BinaryOp::Mod => match l.checked_rem(r) {
            Some(v) => Some(Literal::Int64(v)),
            None => None,
        },
        BinaryOp::Eq => Some(Literal::Bool(l == r)),
        BinaryOp::Neq => Some(Literal::Bool(l != r)),
        BinaryOp::Lt => Some(Literal::Bool(l < r)),
        BinaryOp::Gt => Some(Literal::Bool(l > r)),
        BinaryOp::Le => Some(Literal::Bool(l <= r)),
        BinaryOp::Ge => Some(Literal::Bool(l >= r)),
        _ => None,
    }
}

/// Folds `l op r` for `i128` operands.
fn fold_i128(op: BinaryOp, l: i128, r: i128) -> (res: Option<Literal>)
    ensures
        res == int_fold(op, Literal::Int128(l), l as int, r as int),
{
    match op {
        BinaryOp::Add => match l.checked_add(r) {
            Some(v) => Some(Literal::Int128(v)),
            None => None,
        },
        BinaryOp::Sub => match l.checked_sub(r) {
            Some(v) => Some(Literal::Int128(v)),
            None => None,
        },
        BinaryOp::Mul => match l.checked_mul(r) {
            Some(v) => Some(Literal::Int128(v)),
            None => None,
        },
        BinaryOp::Div => match l.checked_div(r) {
            Some(v) => Some(Literal::Int128(v)),
            None => None,
        },
        BinaryOp::Mod => match l.checked_rem(r) {
            Some(v) => Some(Literal::Int128(v)),
            None => None,
        },
        BinaryOp::Eq => Some(Literal::Bool(l == r)),
        BinaryOp::Neq => Some(Literal::Bool(l != r)),
        BinaryOp::Lt => Some(Literal::Bool(l < r)),
        BinaryOp::Gt => Some(Literal::Bool(l > r)),
        BinaryOp::Le => Some(Literal::Bool(l <= r)),
        BinaryOp::Ge => Some(Literal::Bool(l >= r)),
        _ => None,
    }
}

/// Folds `l op r` for `u8` operands.
fn fold_u8(op: BinaryOp, l: u8, r: u8) -> (res: Option<Literal>)
    ensures
        res == int_fold(op, Literal::UInt8(l), l as int, r as int),
{
    match op {
        BinaryOp::Add => match l.checked_add(r) {
            Some(v) => Some(Literal::UInt8(v)),
            None => None,
        },
        BinaryOp::Sub => match l.checked_sub(r) {
            Some(v) => Some(Literal::UInt8(v)),
            None => None,
        },
        BinaryOp::Mul => match l.checked_mul(r) {
            Some(v) => Some(Literal::UInt8(v)),
            None => None,
        },
        BinaryOp::Div => match l.checked_div(r) {
            Some(v) => Some(Literal::UInt8(v)),
            None => None,
        },
        BinaryOp::Mod => match l.checked_rem(r) {
            Some(v) => Some(Literal::UInt8(v)),
            None => None,
        },
        BinaryOp::Eq => Some(Literal::Bool(l == r)),
        BinaryOp::Neq => Some(Literal::Bool(l != r)),
        BinaryOp::Lt => Some(Literal::Bool(l < r)),
        BinaryOp::Gt => Some(Literal::Bool(l > r)),
        BinaryOp::Le => Some(Literal::Bool(l <= r)),
        BinaryOp::Ge => Some(Literal::Bool(l >= r)),
        _ => None,
    }
}

/// Folds `l op r` for `u16` operands.
fn fold_u16(op: BinaryOp, l: u16, r: u16) -> (res: Option<Literal>)
    ensures
        res == int_fold(op, Literal::UInt16(l), l as int, r as int),
{
    match op {
        BinaryOp::Add => match l.checked_add(r) {
            Some(v) => Some(Literal::UInt16(v)),
            None => None,
        },
        BinaryOp::Sub => match l.checked_sub(r) {
            Some(v) => Some(Literal::UInt16(v)),
            None => None,
        },
        BinaryOp::Mul => match l.checked_mul(r) {
            Some(v) => Some(Literal::UInt16(v)),
            None => None,
        },
        BinaryOp::Div => match l.checked_div(r) {
            Some(v) => Some(Literal::UInt16(v)),
            None => None,
        },
        BinaryOp::Mod => match l.checked_rem(r) {
            Some(v) => Some(Literal::UInt16(v)),
            None => None,
        },
        BinaryOp::Eq => Some(Literal::Bool(l == r)),
        BinaryOp::Neq => Some(Literal::Bool(l != r)),
        BinaryOp::Lt => Some(Literal::Bool(l < r)),
        BinaryOp::Gt => Some(Literal::Bool(l > r)),
        BinaryOp::Le => Some(Literal::Bool(l <= r)),
        BinaryOp::Ge => Some(Literal::Bool(l >= r)),
        _ => None,
    }
}

/// Folds `l op r` for `u32` operands.
fn fold_u32(op: BinaryOp, l: u32, r: u32) -> (res: Option<Literal>)
    ensures
        res == int_fold(op, Literal::UInt32(l), l as int, r as int),
{
    match op {
        BinaryOp::Add => match l.checked_add(r) {
            Some(v) => Some(Literal::UInt32(v)),
            None => None,
        },
        BinaryOp::Sub => match l.checked_sub(r) {
            Some(v) => Some(Literal::UInt32(v)),
            None => None,
        },
        BinaryOp::Mul => match l.checked_mul(r) {
            Some(v) => Some(Literal::UInt32(v)),
            None => None,
        },
        BinaryOp::Div => match l.checked_div(r) {
            Some(v) => Some(Literal::UInt32(v)),
            None => None,
        },
        BinaryOp::Mod => match l.checked_rem(r) {
            Some(v) => Some(Literal::UInt32(v)),
            None => None,
        },
        BinaryOp::Eq => Some(Literal::Bool(l == r)),
        BinaryOp::Neq => Some(Literal::Bool(l != r)),
        BinaryOp::Lt => Some(Literal::Bool(l < r)),
        BinaryOp::Gt => Some(Literal::Bool(l > r)),
        BinaryOp::Le => Some(Literal::Bool(l <= r)),
        BinaryOp::Ge => Some(Literal::Bool(l >= r)),
        _ => None,
    }
}

/// Folds `l op r` for `u64` operands.
fn fold_u64(op: BinaryOp, l: u64, r: u64) -> (res: Option<Literal>)
    ensures
        res == int_fold(op, Literal::UInt64(l), l as int, r as int),
{
    match op {
        BinaryOp::Add => match l.checked_add(r) {
            Some(v) => Some(Literal::UInt64(v)),
            None => None,
        },
        BinaryOp::Sub => match l.checked_sub(r) {
            Some(v) => Some(Literal::UInt64(v)),
            None => None,
        },
        BinaryOp::Mul => match l.checked_mul(r) {
            Some(v) => Some(Literal::UInt64(v)),
            None => None,
        },
        BinaryOp::Div => match l.checked_div(r) {
            Some(v) => Some(Literal::UInt64(v)),
            None => None,
        },
        BinaryOp::Mod => match l.checked_rem(r) {
            Some(v) => Some(Literal::UInt64(v)),
            None => None,
        },
        BinaryOp::Eq => Some(Literal::Bool(l == r)),
        BinaryOp::Neq => Some(Literal::Bool(l != r)),
        BinaryOp::Lt => Some(Literal::Bool(l < r)),
        BinaryOp::Gt => Some(Literal::Bool(l > r)),
        BinaryOp::Le => Some(Literal::Bool(l <= r)),
        BinaryOp::Ge => Some(Literal::Bool(l >= r)),
        _ => None,
    }
}

/// Folds `l op r` for `u128` operands.
fn fold_u128(op: BinaryOp, l: u128, r: u128) -> (res: Option<Literal>)
    ensures
        res == int_fold(op, Literal::UInt128(l), l as int, r as int),
{
    match op {
        BinaryOp::Add => match l.checked_add(r) {
            Some(v) => Some(Literal::UInt128(v)),
            None => None,
        },
        BinaryOp::Sub => match l.checked_sub(r) {
            Some(v) => Some(Literal::UInt128(v)),
            None => None,
        },
        BinaryOp::Mul => match l.checked_mul(r) {
            Some(v) => Some(Literal::UInt128(v)),
            None => None,
        },
        BinaryOp::Div => match l.checked_div(r) {
            Some(v) => Some(Literal::UInt128(v)),
            None => None,
        },
        BinaryOp::Mod => match l.checked_rem(r) {
            Some(v) => Some(Literal::UInt128(v)),
            None => None,
        },
        BinaryOp::Eq => Some(Literal::Bool(l == r)),
        BinaryOp::Neq => Some(Literal::Bool(l != r)),
        BinaryOp::Lt => Some(Literal::Bool(l < r)),
        BinaryOp::Gt => Some(Literal::Bool(l > r)),
        BinaryOp::Le => Some(Literal::Bool(l <= r)),
        BinaryOp::Ge => Some(Literal::Bool(l >= r)),
        _ => None,
    }
}

/// Folds `l op r` for `isize` operands.
fn fold_isize(op: BinaryOp, l: isize, r: isize) -> (res: Option<Literal>)
    ensures
        res == int_fold(op, Literal::Isize(l), l as int, r as int),
{
    match op {
        BinaryOp::Add => match l.checked_add(r) {
            Some(v) => Some(Literal::Isize(v)),
            None => None,
        },
        BinaryOp::Sub => match l.checked_sub(r) {
            Some(v) => Some(Literal::Isize(v)),
            None => None,
        },
        BinaryOp::Mul => match l.checked_mul(r) {
            Some(v) => Some(Literal::Isize(v)),
            None => None,
        },
        BinaryOp::Div => match l.checked_div(r) {
            Some(v) => Some(Literal::Isize(v)),
            None => None,
        },
        BinaryOp::Mod => match l.checked_rem(r) {
            Some(v) => Some(Literal::Isize(v)),
            None => None,
        },
        BinaryOp::Eq => Some(Literal::Bool(l == r)),
        BinaryOp::Neq => Some(Literal::Bool(l != r)),
        BinaryOp::Lt => Some(Literal::Bool(l < r)),
        BinaryOp::Gt => Some(Literal::Bool(l > r)),
        BinaryOp::Le => Some(Literal::Bool(l <= r)),
        BinaryOp::Ge => Some(Literal::Bool(l >= r)),
        _ => None,
    }
}

/// Folds `l op r` for `usize` operands.
fn fold_usize(op: BinaryOp, l: usize, r: usize) -> (res: Option<Literal>)
    ensures
        res == int_fold(op, Literal::Usize(l), l as int, r as int),
{
    match op {
        BinaryOp::Add => match l.checked_add(r) {
            Some(v) => Some(Literal::Usize(v)),
            None => None,
        },
        BinaryOp::Sub => match l.checked_sub(r) {
            Some(v) => Some(Literal::Usize(v)),
            None => None,
        },
        BinaryOp::Mul => match l.checked_mul(r) {
            Some(v) => Some(Literal::Usize(v)),
            None => None,
        },
        BinaryOp::Div => match l.checked_div(r) {
            Some(v) => Some(Literal::Usize(v)),
            None => None,
        },
        BinaryOp::Mod => match l.checked_rem(r) {
            Some(v) => Some(Literal::Usize(v)),
            None => None,
        },
        BinaryOp::Eq => Some(Literal::Bool(l == r)),
        BinaryOp::Neq => Some(Literal::Bool(l != r)),
        BinaryOp::Lt => Some(Literal::Bool(l < r)),
        BinaryOp::Gt => Some(Literal::Bool(l > r)),
        BinaryOp::Le => Some(Literal::Bool(l <= r)),
        BinaryOp::Ge => Some(Literal::Bool(l >= r)),
        _ => None,
    }
}

/// Truncating division and its remainder recombine to the dividend.
pub proof fn lemma_quot_rem(x: int, d: int)
    requires
        d != 0,
    ensures
        x == d * quot(x, d) + rem(x, d),
{
    if x > 0 && d > 0 {
        vstd::arithmetic::div_mod::lemma_fundamental_div_mod(x, d);
    } else if x < 0 && d < 0 {
        vstd::arithmetic::div_mod::lemma_fundamental_div_mod(x * -1, d * -1);
        assert(d * ((x * -1) / (d * -1)) == (d * -1) * ((x * -1) / (d * -1)) * -1) by (nonlinear_arith);
    } else if x < 0 {
        vstd::arithmetic::div_mod::lemma_fundamental_div_mod(x * -1, d);
        assert(d * (((x * -1) / d) * -1) == (d * ((x * -1) / d)) * -1) by (nonlinear_arith);
    } else if x > 0 {
        vstd::arithmetic::div_mod::lemma_fundamental_div_mod(x, d * -1);
        assert(d * ((x / (d * -1)) * -1) == (d * -1) * (x / (d * -1))) by (nonlinear_arith);
    }
}

/// Reading back the value put into a literal of an integer kind gives it
/// back, when it fits the kind.
pub proof fn lemma_with_value(l: Literal, v: int)
    requires
        int_value(l) is Some,
        fits(l, v),
    ensures
        int_value(with_value(l, v)) == Some(v),
        same_int_kind(l, with_value(l, v)),
{
}

/// Subtracting what was added gives the first operand back.
pub proof fn law_sub_undoes_add(a: Literal, b: Literal, c: Literal)
    requires
        same_int_kind(a, b),
        folded_binary(BinaryOp::Add, a, b) == Some(c),
    ensures
        folded_binary(BinaryOp::Sub, c, b) == Some(a),
{
    let x = int_value(a).unwrap();
    let y = int_value(b).unwrap();
    lemma_with_value(a, x + y);
    lemma_with_value(a, x);
    assert(with_value(c, x) == a);
}

/// Addition and multiplication of integers of one kind do not depend on
/// the order of the operands.
pub proof fn law_add_mul_commutative(a: Literal, b: Literal)
    requires
        same_int_kind(a, b),
    ensures
        folded_binary(BinaryOp::Add, a, b) == folded_binary(BinaryOp::Add, b, a),
        folded_binary(BinaryOp::Mul, a, b) == folded_binary(BinaryOp::Mul, b, a),
{
    let x = int_value(a).unwrap();
    let y = int_value(b).unwrap();
    assert(x * y == y * x) by (nonlinear_arith);
}

/// Comparisons read the same from either side: `a < b` is `b > a`,
/// `a <= b` is `b >= a`, and equality is symmetric.
pub proof fn law_comparisons_converse(a: Literal, b: Literal)
    ensures
        folded_binary(BinaryOp::Lt, a, b) == folded_binary(BinaryOp::Gt, b, a),
        folded_binary(BinaryOp::Le, a, b) == folded_binary(BinaryOp::Ge, b, a),
        folded_binary(BinaryOp::Eq, a, b) == folded_binary(BinaryOp::Eq, b, a),
        folded_binary(BinaryOp::Neq, a, b) == folded_binary(BinaryOp::Neq, b, a),
{
}

/// When both fold, the quotient and remainder recombine to the dividend:
/// `a == b * (a / b) + a % b`.
pub proof fn law_div_mod_recombine(a: Literal, b: Literal, q: Literal, m: Literal)
    requires
        same_int_kind(a, b),
        folded_binary(BinaryOp::Div, a, b) == Some(q),
        folded_binary(BinaryOp::Mod, a, b) == Some(m),
    ensures
        int_value(a).unwrap() == int_value(b).unwrap() * int_value(q).unwrap() + int_value(m).unwrap(),
{
    let x = int_value(a).unwrap();
    let y = int_value(b).unwrap();
    lemma_quot_rem(x, y);
    lemma_with_value(a, quot(x, y));
    lemma_with_value(a, rem(x, y));
}

/// Negating twice, and `!` twice, give the operand back.
pub proof fn law_negation_involutive(x: Literal, y: Literal)
    requires
        folded_unary(UnaryOp::Neg, x) == Some(y) || folded_unary(UnaryOp::Not, x) == Some(y),
    ensures
        folded_unary(UnaryOp::Neg, x) == Some(y) ==> folded_unary(UnaryOp::Neg, y) == Some(x),
        folded_unary(UnaryOp::Not, x) == Some(y) ==> folded_unary(UnaryOp::Not, y) == Some(x),
{
}

/// `&&`, `||`, `==` and `!=` fold two booleans to their conjunction,
/// disjunction, equality and difference; no other operator folds booleans.
pub proof fn law_fold_booleans(op: BinaryOp, x: bool, y: bool)
    ensures
        folded_binary(BinaryOp::And, Literal::Bool(x), Literal::Bool(y)) == Some(Literal::Bool(x && y)),
        folded_binary(BinaryOp::Or, Literal::Bool(x), Literal::Bool(y)) == Some(Literal::Bool(x || y)),
        folded_binary(BinaryOp::Eq, Literal::Bool(x), Literal::Bool(y)) == Some(Literal::Bool(x == y)),
        folded_binary(BinaryOp::Neq, Literal::Bool(x), Literal::Bool(y)) == Some(Literal::Bool(x != y)),
        !(op == BinaryOp::And || op == BinaryOp::Or || op == BinaryOp::Eq || op == BinaryOp::Neq)
            ==> folded_binary(op, Literal::Bool(x), Literal::Bool(y)) is None,
{
}

/// `+`, `-` and `*` on integers of one kind fold to the exact sum,
/// difference and product, in that kind, and do so exactly when the exact
/// result lies within the kind.
pub proof fn law_fold_integer_arithmetic(a: Literal, b: Literal)
    requires
        same_int_kind(a, b),
    ensures
        folded_binary(BinaryOp::Add, a, b) is Some <==> kind_min(a) <= int_value(a).unwrap() + int_value(b).unwrap()
            <= kind_max(a),
        folded_binary(BinaryOp::Add, a, b) matches Some(c) ==> same_int_kind(a, c) && int_value(c) == Some(
            int_value(a).unwrap() + int_value(b).unwrap(),
        ),
        folded_binary(BinaryOp::Sub, a, b) is Some <==> kind_min(a) <= int_value(a).unwrap() - int_value(b).unwrap()
            <= kind_max(a),
        folded_binary(BinaryOp::Sub, a, b) matches Some(c) ==> same_int_kind(a, c) && int_value(c) == Some(
            int_value(a).unwrap() - int_value(b).unwrap(),
        ),
        folded_binary(BinaryOp::Mul, a, b) is Some <==> kind_min(a) <= int_value(a).unwrap() * int_value(b).unwrap()
            <= kind_max(a),
        folded_binary(BinaryOp::Mul, a, b) matches Some(c) ==> same_int_kind(a, c) && int_value(c) == Some(
            int_value(a).unwrap() * int_value(b).unwrap(),
        ),
{
    let x = int_value(a).unwrap();
    let y = int_value(b).unwrap();
    if fits(a, x + y) {
        lemma_with_value(a, x + y);
    }
    if fits(a, x - y) {
        lemma_with_value(a, x - y);
    }
    if fits(a, x * y) {
        lemma_with_value(a, x * y);
    }
}

/// Comparisons of integers of one kind fold to the truth of the comparison
/// of their values; `&&` and `||` do not fold integers.
pub proof fn law_fold_integer_comparisons(a: Literal, b: Literal)
    requires
        same_int_kind(a, b),
    ensures
        folded_binary(BinaryOp::Eq, a, b) == Some(Literal::Bool(int_value(a) == int_value(b))),
        folded_binary(BinaryOp::Neq, a, b) == Some(Literal::Bool(int_value(a) != int_value(b))),
        folded_binary(BinaryOp::Lt, a, b) == Some(Literal::Bool(int_value(a).unwrap() < int_value(b).unwrap())),
        folded_binary(BinaryOp::Gt, a, b) == Some(Literal::Bool(int_value(a).unwrap() > int_value(b).unwrap())),
        folded_binary(BinaryOp::Le, a, b) == Some(Literal::Bool(int_value(a).unwrap() <= int_value(b).unwrap())),
        folded_binary(BinaryOp::Ge, a, b) == Some(Literal::Bool(int_value(a).unwrap() >= int_value(b).unwrap())),
        folded_binary(BinaryOp::And, a, b) is None,
        folded_binary(BinaryOp::Or, a, b) is None,
{
}

/// Operands of different kinds (an integer and a boolean, or integers of
/// different widths or signedness) never fold.
pub proof fn law_fold_needs_one_kind(op: BinaryOp, a: Literal, b: Literal)
    requires
        !same_int_kind(a, b),
        !(a is Bool && b is Bool),
    ensures
        folded_binary(op, a, b) is None,
{
}

/// The remainder of truncating division is smaller than the divisor and
/// has the sign of the dividend.
proof fn lemma_rem_bounds(x: int, d: int)
    requires
        d != 0,
    ensures
        -(if d < 0 { -d } else { d }) < rem(x, d) < (if d < 0 { -d } else { d }),
        rem(x, d) == 0 || (rem(x, d) > 0) == (x > 0),
{
    if x > 0 && d > 0 {
        assert(0 <= x % d < d) by (nonlinear_arith)
            requires
                d > 0,
        ;
    } else if x < 0 && d < 0 {
        assert(0 <= (x * -1) % (d * -1) < d * -1) by (nonlinear_arith)
            requires
                d < 0,
        ;
    } else if x < 0 {
        assert(0 <= (x * -1) % d < d) by (nonlinear_arith)
            requires
                d > 0,
        ;
    } else if x > 0 {
        assert(0 <= x % (d * -1) < d * -1) by (nonlinear_arith)
            requires
                d < 0,
        ;
    }
}

/// Division and remainder on integers of one kind truncate toward zero:
/// nothing folds for a zero divisor, a quotient folds exactly when it fits
/// the kind, and a folded quotient `q` leaves the remainder `a - b * q`,
/// smaller than `b` and of the sign of `a`, which is what `%` folds to; the
/// remainder of the least value of a kind by `-1`, which overflows, does
/// not fold.
pub proof fn law_fold_division(a: Literal, b: Literal)
    requires
        same_int_kind(a, b),
    ensures
        int_value(b) == Some(0int) ==> folded_binary(BinaryOp::Div, a, b) is None && folded_binary(
            BinaryOp::Mod,
            a,
            b,
        ) is None,
        folded_binary(BinaryOp::Div, a, b) matches Some(q) ==> {
            let x = int_value(a).unwrap();
            let y = int_value(b).unwrap();
            let r = x - y * int_value(q).unwrap();
            &&& same_int_kind(a, q)
            &&& -(if y < 0 { -y } else { y }) < r < (if y < 0 { -y } else { y })
            &&& (r == 0 || (r > 0) == (x > 0))
        },
        int_value(a) == Some(kind_min(a)) && int_value(b) == Some(-1int) ==> folded_binary(BinaryOp::Mod, a, b)
            is None,
        int_value(b) != Some(0int) ==> (folded_binary(BinaryOp::Div, a, b) is Some <==> fits(
            a,
            quot(int_value(a).unwrap(), int_value(b).unwrap()),
        )),
        folded_binary(BinaryOp::Mod, a, b) matches Some(m) ==> {
            let x = int_value(a).unwrap();
            let y = int_value(b).unwrap();
            &&& same_int_kind(a, m)
            &&& int_value(m) == Some(x - y * quot(x, y))
        },
{
    let x = int_value(a).unwrap();
    let y = int_value(b).unwrap();
    if y != 0 {
        lemma_quot_rem(x, y);
        lemma_rem_bounds(x, y);
        if fits(a, quot(x, y)) {
            lemma_with_value(a, quot(x, y));
        }
        if fits(a, rem(x, y)) {
            lemma_with_value(a, rem(x, y));
        }
    }
}

/// `-` folds a signed integer to its negative, in its kind, exactly when
/// the negative lies within the kind; it folds nothing else. `!` folds a
/// boolean to its negation.
pub proof fn law_fold_negation(x: Literal, b: bool)
    ensures
        folded_unary(UnaryOp::Neg, x) matches Some(y) ==> same_int_kind(x, y) && int_value(y) == Some(
            -int_value(x).unwrap(),
        ),
        folded_unary(UnaryOp::Neg, x) is Some <==> int_value(x) is Some && kind_min(x) < 0 && fits(
            x,
            -int_value(x).unwrap(),
        ),
        folded_unary(UnaryOp::Not, Literal::Bool(b)) == Some(Literal::Bool(!b)),
        int_value(x) is Some ==> folded_unary(UnaryOp::Not, x) is None,
{
}

impl Calc {
    /// Folds `left op right` for integer and boolean literals.
    pub fn eval_binary_op(op: BinaryOp, left: Literal, right: Literal) -> (r: Option<Literal>)
        requires
            !float_pair(left, right),
        ensures
            r == folded_binary(op, left, right),
    {
        match (left, right) {
            (Literal::Int8(l), Literal::Int8(r)) => fold_i8(op, l, r),
            (Literal::Int16(l), Literal::Int16(r)) => fold_i16(op, l, r),
            (Literal::Int32(l), Literal::Int32(r)) => fold_i32(op, l, r),
            (Literal::Int64(l), Literal::Int64(r)) => fold_i64(op, l, r),
            (Literal::Int128(l), Literal::Int128(r)) => fold_i128(op, l, r),
            (Literal::UInt8(l), Literal::UInt8(r)) => fold_u8(op, l, r),
            (Literal::UInt16(l), Literal::UInt16(r)) => fold_u16(op, l, r),
            (Literal::UInt32(l), Literal::UInt32(r)) => fold_u32(op, l, r),
            (Literal::UInt64(l), Literal::UInt64(r)) => fold_u64(op, l, r),
            (Literal::UInt128(l), Literal::UInt128(r)) => fold_u128(op, l, r),
            (Literal::Isize(l), Literal::Isize(r)) => fold_isize(op, l, r),
            (Literal::Usize(l), Literal::Usize(r)) => fold_usize(op, l, r),
            (Literal::Bool(l), Literal::Bool(r)) => match op {
                BinaryOp::And => Some(Literal::Bool(l && r)),
                BinaryOp::Or => Some(Literal::Bool(l || r)),
                BinaryOp::Eq => Some(Literal::Bool(l == r)),
                BinaryOp::Neq => Some(Literal::Bool(l != r)),
                _ => None,
            },
            _ => None,
        }
    }

    /// Folds `op operand`: `-` on signed integers, `!` on booleans.
    pub fn eval_unary_op(op: UnaryOp, operand: Literal) -> (r: Option<Literal>)
        requires
            !(op == UnaryOp::Neg && is_float(operand)),
        ensures
            r == folded_unary(op, operand),
    {
        match (op, operand) {
            (UnaryOp::Neg, Literal::Int8(v)) => if v == i8::MIN {
                None
            } else {
                Some(Literal::Int8(-v))
            },
            (UnaryOp::Neg, Literal::Int16(v)) => if v == i16::MIN {
                None
            } else {
                Some(Literal::Int16(-v))
            },
            (UnaryOp::Neg, Literal::Int32(v)) => if v == i32::MIN {
                None
            } else {
                Some(Literal::Int32(-v))
            },
            (UnaryOp::Neg, Literal::Int64(v)) => if v == i64::MIN {
                None
            } else {
                Some(Literal::Int64(-v))
            },
            (UnaryOp::Neg, Literal::Int128(v)) => if v == i128::MIN {
                None
            } else {
                Some(Literal::Int128(-v))
            },
            (UnaryOp::Neg, Literal::Isize(v)) => if v == isize::MIN {
                None
            } else {
                Some(Literal::Isize(-v))
            },
            (UnaryOp::Not, Literal::Bool(v)) => Some(Literal::Bool(!v)),
            _ => None,
        }
    }
}

} // verus!
