//! The type checker's helpers: name resolution, privacy labels, rational
//! budgets, generic instantiation and constant evaluation.
pub mod check_program;
pub mod rational;
pub mod privacy;
pub mod check_generic;
pub mod hunt;
pub mod helpers;
pub mod check_expr;
pub mod walk_spec;
pub mod walk_tables;
pub mod walk;
pub mod walk_tensor;
pub mod walk_laws;
