//! The in-memory schema: a plain-value model of a parsed WIT package.
//!
//! The external parser delivers a graph of type definitions and named
//! interfaces. This module holds that graph as plain data: type
//! definitions live in one vector and are referred to by their index,
//! which plays the role of the parser's stable type-definition id.

use vstd::prelude::*;

verus! {

/// A value type as written in the schema: a primitive kind, or a
/// reference to a type definition by its id.
#[derive(Debug, Clone, Copy, PartialEq, Eq, Structural)]
pub enum WitType {
    Bool,
    U8,
    U16,
    U32,
    U64,
    S8,
    S16,
    S32,
    S64,
    Float32,
    Float64,
    Char,
    String,
    Id(usize),
}

/// One named, typed field of a record.
#[derive(Debug, PartialEq, Eq)]
pub struct WitField {
    pub name: String,
    pub ty: WitType,
}

/// A record: an ordered sequence of fields.
#[derive(Debug, PartialEq, Eq)]
pub struct WitRecord {
    pub fields: Vec<WitField>,
}

/// One case of a variant, optionally carrying a payload type.
#[derive(Debug, PartialEq, Eq)]
pub struct WitCase {
    pub name: String,
    pub ty: Option<WitType>,
}

/// A variant: an ordered sequence of cases.
#[derive(Debug, PartialEq, Eq)]
pub struct WitVariant {
    pub cases: Vec<WitCase>,
}

/// A result-like union: an optional ok branch and an optional err branch.
#[derive(Debug, Clone, Copy, PartialEq, Eq, Structural)]
pub struct WitResultType {
    pub ok: Option<WitType>,
    pub err: Option<WitType>,
}

/// What a type definition defines. Kinds outside this set that the
/// parser knows (tuples, enums, flags, resources, …) are all
/// [`WitTypeDefKind::Unsupported`]: named definitions of such kinds
/// still receive a name entry, anonymous ones are a fatal error.
#[derive(Debug, PartialEq, Eq)]
pub enum WitTypeDefKind {
    Record(WitRecord),
    Variant(WitVariant),
    List(WitType),
    Option(WitType),
    Result(WitResultType),
    Unsupported,
}

/// Who owns a type definition.
#[derive(Debug, Clone, Copy, PartialEq, Eq, Structural)]
pub enum WitOwner {
    Interface(usize),
    World(usize),
    Unowned,
}

/// One type definition node of the schema graph.
#[derive(Debug, PartialEq, Eq)]
pub struct WitTypeDef {
    /// The declared name; anonymous composite types have none.
    pub name: Option<String>,
    pub kind: WitTypeDefKind,
    pub owner: WitOwner,
}

/// The results of a function: named results (names are positional only
/// and discarded on rendering), or a single anonymous result.
#[derive(Debug, PartialEq, Eq)]
pub enum WitResults {
    Named(Vec<(String, WitType)>),
    Anon(WitType),
}

/// A function signature owned by an interface.
#[derive(Debug, PartialEq, Eq)]
pub struct WitFunction {
    pub name: String,
    pub params: Vec<(String, WitType)>,
    pub results: WitResults,
}

/// A named grouping of functions; the unit code is generated for.
#[derive(Debug, PartialEq, Eq)]
pub struct WitInterface {
    pub name: Option<String>,
    pub functions: Vec<WitFunction>,
}

/// A whole parsed package: every type definition (indexed by id) and
/// every interface (indexed likewise).
#[derive(Debug, PartialEq, Eq)]
pub struct WitPackage {
    pub types: Vec<WitTypeDef>,
    pub interfaces: Vec<WitInterface>,
}

} // verus!
