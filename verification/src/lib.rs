//! Generation of Scala.js source text from a WIT-style interface schema.
//!
//! The schema is a graph of type definitions (records, variants, and
//! anonymous lists, options and result unions) together with named
//! interfaces that own functions. The crate resolves every type
//! definition to a Scala type name, renders each record and variant as a
//! tagged-union-friendly declaration, and assembles one compilable source
//! unit per interface. Every rendering function carries a contract that
//! pins its output to a specification-level text, so that generation is
//! provably deterministic.

pub mod casing;
pub mod codegen;
pub mod errors;
pub mod generator;
pub mod strutil;
pub mod types;
pub mod wit;
