//! Scala types: primitives, type names, the resolver map, and the
//! renderable value type.

pub mod primitive;
pub mod type_map;
pub mod names;
pub mod value;
