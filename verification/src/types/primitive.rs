//! The fixed table from schema primitive kinds to Scala primitive types.

use vstd::prelude::*;

verus! {

/// A Scala primitive type, one per schema primitive kind class.
#[derive(Debug, Clone, Copy, PartialEq, Eq, Structural)]
pub enum Primitive {
    Boolean,
    Byte,
    Short,
    Integer,
    Long,
    Float,
    Double,
    Char,
    String,
}

impl Primitive {
    /// The rendered Scala name: the fixed, exhaustive table.
    pub open spec fn spec_name(self) -> Seq<char> {
        match self {
            Primitive::Boolean => "Boolean"@,
            Primitive::Byte => "Byte"@,
            Primitive::Short => "Short"@,
            Primitive::Integer => "Integer"@,
            Primitive::Long => "Long"@,
            Primitive::Float => "Float"@,
            Primitive::Double => "Double"@,
            Primitive::Char => "Char"@,
            Primitive::String => "String"@,
        }
    }

    /// Renders the Scala name of this primitive type.
    pub fn render(&self) -> (r: String)
        ensures
            r@ == self.spec_name(),
    {
        match self {
            Primitive::Boolean => "Boolean".to_owned(),
            Primitive::Byte => "Byte".to_owned(),
            Primitive::Short => "Short".to_owned(),
            Primitive::Integer => "Integer".to_owned(),
            Primitive::Long => "Long".to_owned(),
            Primitive::Float => "Float".to_owned(),
            Primitive::Double => "Double".to_owned(),
            Primitive::Char => "Char".to_owned(),
            Primitive::String => "String".to_owned(),
        }
    }
}

} // verus!
