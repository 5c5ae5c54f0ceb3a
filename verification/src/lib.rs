//! Front and middle end of the xiyi compiler: syntax tree, type-level
//! helpers of the type checker, the HIR and its elaboration, and MIR lowering.
pub mod ast;
pub mod text;
pub mod show;
pub mod semantic;
pub mod intrinsic;
pub mod calc;
pub mod hir;
pub mod elaborate;
pub mod hir_builder;
pub mod mir;
pub mod mir_builder;
pub mod driver;
