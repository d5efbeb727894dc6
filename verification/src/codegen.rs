//! Declaration builders and the interface assembler: one module per
//! declaration kind, plus the final source-unit composition.

pub mod function;
pub mod interface;
pub mod record;
pub mod variant;
