//! The mid-level intermediate representation: functions as basic blocks of
//! three-address statements over locals in SSA form.
use vstd::prelude::*;
use crate::ast::{BinaryOp, Literal, Type, UnaryOp};
use crate::hir::{EffectSet, HirGenericParam};
use crate::intrinsic::IntrinsicFn;

verus! {

#[derive(Debug)]
pub struct MirProgram {
    pub structs: Vec<MirStruct>,
    pub enums: Vec<MirEnum>,
    pub fns: Vec<MirFn>,
    /// The built-in functions that the program calls, sorted, each once.
    pub intrinsics_used: Vec<IntrinsicFn>,
}

#[derive(Debug)]
pub struct MirStruct {
    pub name: String,
    pub generic_params: Vec<HirGenericParam>,
    pub fields: Vec<(String, Type)>,
}

#[derive(Debug)]
pub struct MirEnum {
    pub name: String,
    pub generic_params: Vec<HirGenericParam>,
    pub variants: Vec<(String, Option<Type>)>,
}

#[derive(Debug)]
pub struct MirFn {
    pub name: String,
    pub generic_params: Vec<HirGenericParam>,
    pub params: Vec<(String, Type)>,
    pub return_type: Option<Type>,
    pub body: MirBody,
    pub effect_set: EffectSet,
}

/// The locals and the basic blocks of a function.
#[derive(Debug)]
pub struct MirBody {
    pub locals: Vec<MirLocal>,
    pub blocks: Vec<MirBlock>,
}

#[derive(Debug)]
pub struct MirLocal {
    pub id: usize,
    /// `None` for a temporary of the compiler's.
    pub name: Option<String>,
    pub ty: Type,
    pub mutable: bool,
    /// Kept across calls of a model's `forward`.
    pub persist: bool,
    /// A parameter of the function, bound by its signature.
    pub is_param: bool,
}

#[derive(Debug)]
pub struct MirBlock {
    pub id: usize,
    pub stmts: Vec<MirStmt>,
    pub terminator: MirTerminator,
}

#[derive(Debug)]
#[allow(inconsistent_fields)]
pub enum MirStmt {
    Assign { dest: MirPlace, value: MirRvalue },
    /// A call made for its effects only.
    ExprStmt(MirRvalue),
    Drop { place: MirPlace },
    SetMetadata { place: MirPlace, key: String, value: String },
    EffectCheck { effect: String },
}

/// A version of a local.
#[derive(Debug, Clone, Copy, PartialEq, Eq, Structural, Hash)]
pub struct SsaLocal {
    pub base_id: usize,
    pub version: u32,
}

#[derive(Debug)]
pub enum MirPlace {
    Ssa(SsaLocal),
    Field { base: Box<MirPlace>, field: String },
    Static(String),
    Index { base: Box<MirPlace>, index: Box<MirOperand> },
    Deref(Box<MirPlace>),
    EnumPayload { base: Box<MirPlace>, enum_name: String, variant_name: String },
}

#[derive(Debug)]
pub enum MirOperand {
    Copy(MirPlace),
    Move(MirPlace),
    Constant(Literal),
}

#[derive(Debug)]
pub enum MirRvalue {
    Use(MirOperand),
    BinaryOp(BinaryOp, MirOperand, MirOperand),
    UnaryOp(UnaryOp, MirOperand),
    Cast(MirOperand, Type),
    Call {
        func: String,
        args: Vec<MirOperand>,
        is_intrinsic: bool,
        intrinsic_name: Option<IntrinsicFn>,
        generic_args: Vec<Type>,
    },
    MethodCall { receiver: MirOperand, method: String, args: Vec<MirOperand>, generic_args: Vec<Type> },
    StructInit { struct_name: String, generic_args: Vec<Type>, fields: Vec<(String, MirOperand)> },
    EnumVariantConstruction {
        enum_name: String,
        generic_args: Vec<Type>,
        variant_name: String,
        args: Vec<MirOperand>,
    },
    Ref { mutable: bool, place: MirPlace },
    ArrayLiteral(Vec<MirOperand>),
    Discriminant { value: MirOperand, enum_name: String },
    Phi { values: Vec<(usize, MirOperand)> },
}

/// How a basic block ends. `Unreachable` is also the placeholder of a block
/// whose end is not known yet.
#[derive(Debug)]
pub enum MirTerminator {
    Goto(usize),
    If { cond: MirOperand, then_block: usize, else_block: usize },
    Return(Option<MirOperand>),
    Unreachable,
    Switch { discr: MirOperand, discr_ty: Type, targets: Vec<(Literal, usize)>, default: usize },
}


// ===== references that a function body makes =====

pub open spec fn nat_max(a: nat, b: nat) -> nat {
    if a >= b { a } else { b }
}

/// One past the highest local that a place names, 0 when it names none.
pub open spec fn place_need(p: MirPlace) -> nat
    decreases p,
{
    match p {
        MirPlace::Ssa(s) => s.base_id as nat + 1,
        MirPlace::Field { base, .. } => place_need(*base),
        MirPlace::Static(_) => 0,
        MirPlace::Index { base, index } => nat_max(place_need(*base), operand_need(*index)),
        MirPlace::Deref(base) => place_need(*base),
        MirPlace::EnumPayload { base, .. } => place_need(*base),
    }
}

/// One past the highest local that an operand reads, 0 when it reads none.
pub open spec fn operand_need(o: MirOperand) -> nat
    decreases o,
{
    match o {
        MirOperand::Copy(p) => place_need(p),
        MirOperand::Move(p) => place_need(p),
        MirOperand::Constant(_) => 0,
    }
}

/// Every operand reads only locals below `nl`.
pub open spec fn operands_ok(s: Seq<MirOperand>, nl: nat) -> bool {
    forall|k: int| 0 <= k < s.len() ==> #[trigger] operand_need(s[k]) <= nl
}

/// A right-hand side that reads only locals below `nl` and joins only
/// blocks below `nb`.
pub open spec fn rvalue_ok(v: MirRvalue, nl: nat, nb: nat) -> bool {
    match v {
        MirRvalue::Use(o) => operand_need(o) <= nl,
        MirRvalue::BinaryOp(_, a, b) => operand_need(a) <= nl && operand_need(b) <= nl,
        MirRvalue::UnaryOp(_, a) => operand_need(a) <= nl,
        MirRvalue::Cast(a, _) => operand_need(a) <= nl,
        MirRvalue::Call { args, .. } => operands_ok(args@, nl),
        MirRvalue::MethodCall { receiver, args, .. } => operand_need(receiver) <= nl && operands_ok(
            args@,
            nl,
        ),
        MirRvalue::StructInit { fields, .. } => forall|k: int|
            0 <= k < fields@.len() ==> #[trigger] operand_need(fields@[k].1) <= nl,
        MirRvalue::EnumVariantConstruction { args, .. } => operands_ok(args@, nl),
        MirRvalue::Ref { place, .. } => place_need(place) <= nl,
        MirRvalue::ArrayLiteral(v) => operands_ok(v@, nl),
        MirRvalue::Discriminant { value, .. } => operand_need(value) <= nl,
        MirRvalue::Phi { values } => forall|k: int|
            0 <= k < values@.len() ==> #[trigger] values@[k].0 < nb && operand_need(values@[k].1) <= nl,
    }
}

pub open spec fn stmt_ok(s: MirStmt, nl: nat, nb: nat) -> bool {
    match s {
        MirStmt::Assign { dest, value } => place_need(dest) <= nl && rvalue_ok(value, nl, nb),
        MirStmt::ExprStmt(value) => rvalue_ok(value, nl, nb),
        MirStmt::Drop { place } => place_need(place) <= nl,
        MirStmt::SetMetadata { place, .. } => place_need(place) <= nl,
        MirStmt::EffectCheck { .. } => true,
    }
}

pub open spec fn term_ok(t: MirTerminator, nl: nat, nb: nat) -> bool {
    match t {
        MirTerminator::Goto(b) => b < nb,
        MirTerminator::If { cond, then_block, else_block } => operand_need(cond) <= nl && then_block
            < nb && else_block < nb,
        MirTerminator::Return(o) => match o {
            Some(x) => operand_need(x) <= nl,
            None => true,
        },
        MirTerminator::Unreachable => true,
        MirTerminator::Switch { discr, targets, default, .. } => operand_need(discr) <= nl && default
            < nb && forall|k: int| 0 <= k < targets@.len() ==> #[trigger] targets@[k].1 < nb,
    }
}

/// A block whose statements and terminator name only locals below `nl` and
/// blocks below `nb`.
pub open spec fn block_ok(b: MirBlock, nl: nat, nb: nat) -> bool {
    &&& forall|k: int| 0 <= k < b.stmts@.len() ==> #[trigger] stmt_ok(b.stmts@[k], nl, nb)
    &&& term_ok(b.terminator, nl, nb)
}

/// The blocks are numbered by position and name only locals below `nl` and
/// blocks among themselves.
pub open spec fn blocks_ok(bs: Seq<MirBlock>, nl: nat) -> bool {
    forall|i: int| 0 <= i < bs.len() ==> (#[trigger] bs[i]).id == i && block_ok(bs[i], nl, bs.len())
}

/// The locals are numbered by position.
pub open spec fn locals_numbered(ls: Seq<MirLocal>) -> bool {
    forall|i: int| 0 <= i < ls.len() ==> (#[trigger] ls[i]).id == i
}

/// A well-formed function body: an entry block, locals and blocks numbered
/// by position, and every reference to a local or a block to one that
/// exists.
pub open spec fn body_wf(b: MirBody) -> bool {
    &&& b.blocks@.len() >= 1
    &&& locals_numbered(b.locals@)
    &&& blocks_ok(b.blocks@, b.locals@.len())
}

pub proof fn lemma_rvalue_ok_grow(v: MirRvalue, nl: nat, nb: nat, nl2: nat, nb2: nat)
    requires
        rvalue_ok(v, nl, nb),
        nl <= nl2,
        nb <= nb2,
    ensures
        rvalue_ok(v, nl2, nb2),
{
    match v {
        MirRvalue::Call { args, .. } => {
            assert forall|k: int| 0 <= k < args@.len() implies #[trigger] operand_need(args@[k]) <= nl2 by {
                assert(operand_need(args@[k]) <= nl);
            }
        },
        MirRvalue::MethodCall { args, .. } => {
            assert forall|k: int| 0 <= k < args@.len() implies #[trigger] operand_need(args@[k]) <= nl2 by {
                assert(operand_need(args@[k]) <= nl);
            }
        },
        MirRvalue::StructInit { fields, .. } => {
            assert forall|k: int| 0 <= k < fields@.len() implies #[trigger] operand_need(fields@[k].1)
                <= nl2 by {
                assert(operand_need(fields@[k].1) <= nl);
            }
        },
        MirRvalue::EnumVariantConstruction { args, .. } => {
            assert forall|k: int| 0 <= k < args@.len() implies #[trigger] operand_need(args@[k]) <= nl2 by {
                assert(operand_need(args@[k]) <= nl);
            }
        },
        MirRvalue::ArrayLiteral(a) => {
            assert forall|k: int| 0 <= k < a@.len() implies #[trigger] operand_need(a@[k]) <= nl2 by {
                assert(operand_need(a@[k]) <= nl);
            }
        },
        MirRvalue::Phi { values } => {
            assert forall|k: int| 0 <= k < values@.len() implies #[trigger] values@[k].0 < nb2
                && operand_need(values@[k].1) <= nl2 by {
                assert(values@[k].0 < nb && operand_need(values@[k].1) <= nl);
            }
        },
        _ => {},
    }
}

pub proof fn lemma_stmt_ok_grow(s: MirStmt, nl: nat, nb: nat, nl2: nat, nb2: nat)
    requires
        stmt_ok(s, nl, nb),
        nl <= nl2,
        nb <= nb2,
    ensures
        stmt_ok(s, nl2, nb2),
{
    match s {
        MirStmt::Assign { value, .. } => lemma_rvalue_ok_grow(value, nl, nb, nl2, nb2),
        MirStmt::ExprStmt(value) => lemma_rvalue_ok_grow(value, nl, nb, nl2, nb2),
        _ => {},
    }
}

pub proof fn lemma_block_ok_grow(b: MirBlock, nl: nat, nb: nat, nl2: nat, nb2: nat)
    requires
        block_ok(b, nl, nb),
        nl <= nl2,
        nb <= nb2,
    ensures
        block_ok(b, nl2, nb2),
{
    assert forall|k: int| 0 <= k < b.stmts@.len() implies #[trigger] stmt_ok(b.stmts@[k], nl2, nb2) by {
        lemma_stmt_ok_grow(b.stmts@[k], nl, nb, nl2, nb2);
    }
    match b.terminator {
        MirTerminator::Switch { targets, .. } => {
            assert forall|k: int| 0 <= k < targets@.len() implies #[trigger] targets@[k].1 < nb2 by {
                assert(targets@[k].1 < nb);
            }
        },
        _ => {},
    }
}


/// The version that a statement assigns, if it assigns one.
pub open spec fn ssa_dest(s: MirStmt) -> Option<SsaLocal> {
    match s {
        MirStmt::Assign { dest: MirPlace::Ssa(x), .. } => Some(x),
        _ => None,
    }
}

/// Static single assignment: no two statements of the blocks assign the
/// same version of a local, and none assigns version 0, the value a local
/// has on entry.
pub open spec fn single_assignment(bs: Seq<MirBlock>) -> bool {
    &&& forall|b1: int, k1: int, b2: int, k2: int|
        0 <= b1 < bs.len() && 0 <= k1 < bs[b1].stmts@.len() && 0 <= b2 < bs.len() && 0 <= k2
            < bs[b2].stmts@.len() && ssa_dest(bs[b1].stmts@[k1]) is Some && #[trigger] ssa_dest(
            bs[b1].stmts@[k1],
        ) == #[trigger] ssa_dest(bs[b2].stmts@[k2]) ==> b1 == b2 && k1 == k2
    &&& forall|b: int, k: int|
        0 <= b < bs.len() && 0 <= k < bs[b].stmts@.len() ==> match ssa_dest(#[trigger] bs[b].stmts@[k]) {
            Some(x) => x.version >= 1,
            None => true,
        }
}

} // verus!
