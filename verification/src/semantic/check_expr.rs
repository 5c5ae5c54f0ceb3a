//! Type rules of binary operators.
use vstd::prelude::*;
use vstd::string::*;
use crate::ast::{BinaryOp, Expr, ExprKind, Literal, Type, TypeModel};
use crate::semantic::check_program::{TypeChecker, is_numeric_model};
use crate::semantic::privacy::{apply_tag, join_labels, labels_join_ok, strip};

verus! {

/// An `i32` literal, the type every unsuffixed integer literal is given; it
/// may meet an operand of another numeric type.
pub open spec fn is_int_literal(e: Expr) -> bool {
    e.kind matches ExprKind::Literal(Literal::Int32(_))
}

/// The type of `left op right` before privacy labels are attached, or
/// `None` when the operands do not fit the operator. Labels on the operands
/// are looked through; two numeric operands of different types fit where
/// one of them is an integer literal, which then takes the other's type.
pub open spec fn binop_type(op: BinaryOp, left: TypeModel, right: TypeModel, left_lit: bool, right_lit: bool) -> Option<TypeModel> {
    let li = strip(left);
    let ri = strip(right);
    let both_numeric = is_numeric_model(li) && is_numeric_model(ri);
    let compatible = li == ri || (both_numeric && (left_lit || right_lit));
    let result = if li == ri {
        li
    } else if left_lit {
        ri
    } else {
        li
    };
    match op {
        BinaryOp::Add | BinaryOp::Sub | BinaryOp::Mul | BinaryOp::Div | BinaryOp::Mod => {
            if (both_numeric && compatible) || (li is Tensor && ri is Tensor && li == ri) {
                Some(result)
            } else {
                None
            }
        },
        BinaryOp::Eq | BinaryOp::Neq | BinaryOp::Lt | BinaryOp::Gt | BinaryOp::Le | BinaryOp::Ge => {
            if compatible {
                Some(TypeModel::Bool)
            } else {
                None
            }
        },
        BinaryOp::And | BinaryOp::Or => if li == TypeModel::Bool && ri == TypeModel::Bool {
            Some(TypeModel::Bool)
        } else {
            None
        },
    }
}

/// The text of a type in error messages.
pub open spec fn type_debug(t: TypeModel) -> Seq<char> {
    crate::show::type_text(t)
}

pub(crate) fn debug_type(t: &Type) -> (r: String)
    ensures
        r@ == type_debug(t@),
{
    crate::show::type_string(t)
}

/// The error for operands that do not fit `op`.
pub open spec fn binop_error(op: BinaryOp, left: TypeModel, right: TypeModel) -> Seq<char> {
    match op {
        BinaryOp::Add | BinaryOp::Sub | BinaryOp::Mul | BinaryOp::Div | BinaryOp::Mod => "invalid operands for arithmetic: "@
            + type_debug(left) + " and "@ + type_debug(right),
        BinaryOp::And | BinaryOp::Or => "logical operators require bool operands"@,
        _ => "comparison between different types: "@ + type_debug(left) + " and "@ + type_debug(right),
    }
}

/// A labelled operand keeps the result labelled: the label of
/// `left op right` is the join of the operands' labels, so it is present
/// whenever either operand carries one, and equals the only label when just
/// one does.
pub proof fn law_binop_keeps_labels(op: BinaryOp, left: TypeModel, right: TypeModel, ll: bool, rl: bool)
    requires
        binop_type(op, left, right, ll, rl) is Some,
    ensures
        (crate::semantic::privacy::extract_tag(left) is Some || crate::semantic::privacy::extract_tag(
            right,
        ) is Some) ==> apply_tag(binop_type(op, left, right, ll, rl).unwrap(), join_labels(left, right)) is Privacy,
        crate::semantic::privacy::extract_tag(right) is None ==> join_labels(left, right)
            == crate::semantic::privacy::extract_tag(left),
        crate::semantic::privacy::extract_tag(left) is None ==> join_labels(left, right)
            == crate::semantic::privacy::extract_tag(right),
{
}

/// Comparisons and logical operators give `bool`.
pub proof fn law_comparisons_give_bool(op: BinaryOp, left: TypeModel, right: TypeModel, ll: bool, rl: bool)
    requires
        binop_type(op, left, right, ll, rl) is Some,
        !(op == BinaryOp::Add || op == BinaryOp::Sub || op == BinaryOp::Mul || op == BinaryOp::Div
            || op == BinaryOp::Mod),
    ensures
        binop_type(op, left, right, ll, rl) == Some(TypeModel::Bool),
{
}

/// An arithmetic operator.
pub open spec fn is_arith(op: BinaryOp) -> bool {
    op == BinaryOp::Add || op == BinaryOp::Sub || op == BinaryOp::Mul || op == BinaryOp::Div || op == BinaryOp::Mod
}

/// A comparison operator.
pub open spec fn is_comparison(op: BinaryOp) -> bool {
    op == BinaryOp::Eq || op == BinaryOp::Neq || op == BinaryOp::Lt || op == BinaryOp::Gt || op == BinaryOp::Le
        || op == BinaryOp::Ge
}

/// Arithmetic accepts two operands of one numeric or tensor type (labels
/// looked through) and gives that type; it refuses operands of any other
/// one type, such as `bool`, strings or structs.
pub proof fn law_arith_same_type(op: BinaryOp, left: TypeModel, right: TypeModel, ll: bool, rl: bool)
    requires
        is_arith(op),
        strip(left) == strip(right),
    ensures
        (is_numeric_model(strip(left)) || strip(left) is Tensor) ==> binop_type(op, left, right, ll, rl) == Some(
            strip(left),
        ),
        !(is_numeric_model(strip(left)) || strip(left) is Tensor) ==> binop_type(op, left, right, ll, rl) is None,
{
}

/// Arithmetic on two tensors of different types, or on a tensor and a
/// number, is refused.
pub proof fn law_arith_tensor_mismatch(op: BinaryOp, left: TypeModel, right: TypeModel, ll: bool, rl: bool)
    requires
        is_arith(op),
        strip(left) is Tensor || strip(right) is Tensor,
        strip(left) != strip(right),
    ensures
        binop_type(op, left, right, ll, rl) is None,
{
}

/// Two numeric operands of different types fit an arithmetic operator or a
/// comparison only when one side is a bare integer literal; arithmetic
/// then gives the other side's type, a comparison `bool`.
pub proof fn law_literal_gives_way(op: BinaryOp, left: TypeModel, right: TypeModel, ll: bool, rl: bool)
    requires
        is_arith(op) || is_comparison(op),
        is_numeric_model(strip(left)),
        is_numeric_model(strip(right)),
        strip(left) != strip(right),
    ensures
        !ll && !rl ==> binop_type(op, left, right, ll, rl) is None,
        ll && is_arith(op) ==> binop_type(op, left, right, ll, rl) == Some(strip(right)),
        !ll && rl && is_arith(op) ==> binop_type(op, left, right, ll, rl) == Some(strip(left)),
        (ll || rl) && is_comparison(op) ==> binop_type(op, left, right, ll, rl) == Some(TypeModel::Bool),
{
}

/// Comparisons accept two operands of any one type and give `bool`; they
/// refuse operands of different types unless both are numeric and one is
/// a bare literal.
pub proof fn law_comparison_types(op: BinaryOp, left: TypeModel, right: TypeModel, ll: bool, rl: bool)
    requires
        is_comparison(op),
    ensures
        strip(left) == strip(right) ==> binop_type(op, left, right, ll, rl) == Some(TypeModel::Bool),
        strip(left) != strip(right) && !(is_numeric_model(strip(left)) && is_numeric_model(strip(right))) ==> binop_type(
            op,
            left,
            right,
            ll,
            rl,
        ) is None,
{
}

/// `&&` and `||` accept exactly two `bool` operands (labels looked
/// through) and give `bool`.
pub proof fn law_logical_needs_bools(op: BinaryOp, left: TypeModel, right: TypeModel, ll: bool, rl: bool)
    requires
        op == BinaryOp::And || op == BinaryOp::Or,
    ensures
        binop_type(op, left, right, ll, rl) is Some <==> strip(left) == TypeModel::Bool && strip(right)
            == TypeModel::Bool,
        binop_type(op, left, right, ll, rl) is Some ==> binop_type(op, left, right, ll, rl) == Some(TypeModel::Bool),
{
}

impl TypeChecker {
    /// The type of `left op right`: the operands' type (or `bool` for a
    /// comparison or a logical operator), labelled with the join of the
    /// operands' privacy labels.
    pub fn check_binary_op(
        &self,
        op: &BinaryOp,
        left: &Type,
        right: &Type,
        left_expr: &Expr,
        right_expr: &Expr,
    ) -> (r: Result<Type, String>)
        requires
            binop_type(*op, left@, right@, is_int_literal(*left_expr), is_int_literal(*right_expr))
                is Some ==> labels_join_ok(left@, right@),
        ensures
            match binop_type(*op, left@, right@, is_int_literal(*left_expr), is_int_literal(*right_expr)) {
                Some(base) => r matches Ok(t) && t@ == apply_tag(base, join_labels(left@, right@)),
                None => r matches Err(m) && m@ == binop_error(*op, left@, right@),
            },
    {
        let left_inner = self.strip_privacy(left);
        let right_inner = self.strip_privacy(right);
        let left_is_literal = match &left_expr.kind {
            ExprKind::Literal(Literal::Int32(_)) => true,
            _ => false,
        };
        let right_is_literal = match &right_expr.kind {
            ExprKind::Literal(Literal::Int32(_)) => true,
            _ => false,
        };
        let both_numeric = self.is_numeric_type(&left_inner) && self.is_numeric_type(&right_inner);
        let same = self.types_equal(&left_inner, &right_inner);
        let types_compatible = same || (both_numeric && (left_is_literal || right_is_literal));
        let result_ty = if same {
            left_inner.duplicate()
        } else if left_is_literal {
            right_inner.duplicate()
        } else {
            left_inner.duplicate()
        };
        match op {
            BinaryOp::Add | BinaryOp::Sub | BinaryOp::Mul | BinaryOp::Div | BinaryOp::Mod => {
                let is_scalar = both_numeric && types_compatible;
                let is_tensor = match (&left_inner, &right_inner) {
                    (Type::Tensor { .. }, Type::Tensor { .. }) => same,
                    _ => false,
                };
                if is_scalar || is_tensor {
                    let tag = self.join_privacy_labels(left, right);
                    Ok(self.apply_privacy_tag(result_ty, tag))
                } else {
                    let mut m = String::from_str("invalid operands for arithmetic: ");
                    m.append(debug_type(left).as_str());
                    m.append(" and ");
                    m.append(debug_type(right).as_str());
                    Err(m)
                }
            },
            BinaryOp::Eq | BinaryOp::Neq | BinaryOp::Lt | BinaryOp::Gt | BinaryOp::Le | BinaryOp::Ge => {
                if types_compatible {
                    let tag = self.join_privacy_labels(left, right);
                    Ok(self.apply_privacy_tag(Type::Bool, tag))
                } else {
                    let mut m = String::from_str("comparison between different types: ");
                    m.append(debug_type(left).as_str());
                    m.append(" and ");
                    m.append(debug_type(right).as_str());
                    Err(m)
                }
            },
            BinaryOp::And | BinaryOp::Or => {
                let both_bool = match (&left_inner, &right_inner) {
                    (Type::Bool, Type::Bool) => true,
                    _ => false,
                };
                if both_bool {
                    let tag = self.join_privacy_labels(left, right);
                    Ok(self.apply_privacy_tag(Type::Bool, tag))
                } else {
                    Err(String::from_str("logical operators require bool operands"))
                }
            },
        }
    }
}

} // verus!
