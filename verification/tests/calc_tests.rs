use lib::ast::{BinaryOp, Literal, UnaryOp};
use lib::calc::Calc;

#[test]
fn add_of_i32_is_exact() {
    assert_eq!(Calc::eval_binary_op(BinaryOp::Add, Literal::Int32(2), Literal::Int32(40)), Some(Literal::Int32(42)));
}

#[test]
fn add_overflow_folds_to_nothing() {
    assert_eq!(Calc::eval_binary_op(BinaryOp::Add, Literal::Int8(127), Literal::Int8(1)), None);
    assert_eq!(Calc::eval_binary_op(BinaryOp::Sub, Literal::UInt8(0), Literal::UInt8(1)), None);
    assert_eq!(Calc::eval_binary_op(BinaryOp::Mul, Literal::Int64(i64::MAX), Literal::Int64(2)), None);
}

#[test]
fn division_truncates_toward_zero() {
    assert_eq!(Calc::eval_binary_op(BinaryOp::Div, Literal::Int32(-7), Literal::Int32(2)), Some(Literal::Int32(-3)));
    assert_eq!(Calc::eval_binary_op(BinaryOp::Mod, Literal::Int32(-7), Literal::Int32(2)), Some(Literal::Int32(-1)));
    assert_eq!(Calc::eval_binary_op(BinaryOp::Div, Literal::UInt32(7), Literal::UInt32(2)), Some(Literal::UInt32(3)));
}

#[test]
fn division_by_zero_and_min_over_minus_one_fold_to_nothing() {
    assert_eq!(Calc::eval_binary_op(BinaryOp::Div, Literal::Int32(1), Literal::Int32(0)), None);
    assert_eq!(Calc::eval_binary_op(BinaryOp::Mod, Literal::Usize(1), Literal::Usize(0)), None);
    assert_eq!(Calc::eval_binary_op(BinaryOp::Div, Literal::Int16(i16::MIN), Literal::Int16(-1)), None);
    assert_eq!(Calc::eval_binary_op(BinaryOp::Mod, Literal::Int16(i16::MIN), Literal::Int16(-1)), None);
}

#[test]
fn comparisons_give_bools() {
    assert_eq!(Calc::eval_binary_op(BinaryOp::Lt, Literal::Int128(-1), Literal::Int128(0)), Some(Literal::Bool(true)));
    assert_eq!(Calc::eval_binary_op(BinaryOp::Ge, Literal::UInt64(3), Literal::UInt64(4)), Some(Literal::Bool(false)));
    assert_eq!(Calc::eval_binary_op(BinaryOp::Neq, Literal::Isize(5), Literal::Isize(5)), Some(Literal::Bool(false)));
}

#[test]
fn comparisons_are_converse() {
    let a = Calc::eval_binary_op(BinaryOp::Lt, Literal::Int32(3), Literal::Int32(9));
    let b = Calc::eval_binary_op(BinaryOp::Gt, Literal::Int32(9), Literal::Int32(3));
    assert_eq!(a, b);
}

#[test]
fn subtraction_undoes_addition() {
    let s = Calc::eval_binary_op(BinaryOp::Add, Literal::Int64(1000), Literal::Int64(-37)).unwrap();
    assert_eq!(Calc::eval_binary_op(BinaryOp::Sub, s, Literal::Int64(-37)), Some(Literal::Int64(1000)));
}

#[test]
fn quotient_and_remainder_recombine() {
    let q = Calc::eval_binary_op(BinaryOp::Div, Literal::Int32(-17), Literal::Int32(5)).unwrap();
    let r = Calc::eval_binary_op(BinaryOp::Mod, Literal::Int32(-17), Literal::Int32(5)).unwrap();
    let p = Calc::eval_binary_op(BinaryOp::Mul, q, Literal::Int32(5)).unwrap();
    assert_eq!(Calc::eval_binary_op(BinaryOp::Add, p, r), Some(Literal::Int32(-17)));
}

#[test]
fn bool_logic_and_mismatches() {
    assert_eq!(Calc::eval_binary_op(BinaryOp::And, Literal::Bool(true), Literal::Bool(false)), Some(Literal::Bool(false)));
    assert_eq!(Calc::eval_binary_op(BinaryOp::Or, Literal::Bool(true), Literal::Bool(false)), Some(Literal::Bool(true)));
    assert_eq!(Calc::eval_binary_op(BinaryOp::Lt, Literal::Bool(true), Literal::Bool(false)), None);
    assert_eq!(Calc::eval_binary_op(BinaryOp::Add, Literal::Int32(1), Literal::Int64(1)), None);
    assert_eq!(Calc::eval_binary_op(BinaryOp::And, Literal::Int32(1), Literal::Int32(1)), None);
    assert_eq!(Calc::eval_binary_op(BinaryOp::Eq, Literal::Char('a'), Literal::Char('a')), None);
}

#[test]
fn unary_operators() {
    assert_eq!(Calc::eval_unary_op(UnaryOp::Neg, Literal::Int32(5)), Some(Literal::Int32(-5)));
    assert_eq!(Calc::eval_unary_op(UnaryOp::Neg, Literal::Int8(i8::MIN)), None);
    assert_eq!(Calc::eval_unary_op(UnaryOp::Neg, Literal::UInt32(5)), None);
    assert_eq!(Calc::eval_unary_op(UnaryOp::Not, Literal::Bool(false)), Some(Literal::Bool(true)));
    assert_eq!(Calc::eval_unary_op(UnaryOp::Not, Literal::Int32(0)), None);
}

#[test]
fn negation_is_an_involution() {
    let once = Calc::eval_unary_op(UnaryOp::Neg, Literal::Int64(123)).unwrap();
    assert_eq!(Calc::eval_unary_op(UnaryOp::Neg, once), Some(Literal::Int64(123)));
}

#[test]
fn addition_and_multiplication_commute() {
    assert_eq!(
        Calc::eval_binary_op(BinaryOp::Add, Literal::UInt16(7), Literal::UInt16(9)),
        Calc::eval_binary_op(BinaryOp::Add, Literal::UInt16(9), Literal::UInt16(7))
    );
    assert_eq!(
        Calc::eval_binary_op(BinaryOp::Mul, Literal::Int32(-6), Literal::Int32(7)),
        Calc::eval_binary_op(BinaryOp::Mul, Literal::Int32(7), Literal::Int32(-6))
    );
}
