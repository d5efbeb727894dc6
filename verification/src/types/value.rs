//! The renderable form of a value type: a primitive, or a resolved
//! custom type name.

use vstd::prelude::*;
use crate::errors::Error;
use crate::types::names::TypeName;
use crate::types::primitive::Primitive;
use crate::types::type_map::{entry_matches, resolve_model, spec_prim_of, prim_of, TypeMap};
use crate::wit::{WitPackage, WitType};

verus! {

/// The rendered text a schema value type resolves to through a map: the
/// primitive table for primitive kinds, the mapped entry for an id.
pub open spec fn type_text_in(m: TypeMap, t: WitType) -> Option<Seq<char>> {
    match t {
        WitType::Id(j) => m.text_at(j as int),
        _ => Some(spec_prim_of(t).spec_name()),
    }
}

/// The rendered text a schema value type resolves to in the resolution
/// model of the schema itself, with no map in between.
pub open spec fn model_text(pkg: WitPackage, t: WitType) -> Option<Seq<char>> {
    match t {
        WitType::Id(j) => resolve_model(pkg, j as int),
        _ => Some(spec_prim_of(t).spec_name()),
    }
}

/// Every resolver map of a schema carries exactly the model texts: the
/// map adds nothing and loses nothing against the schema's own
/// resolution.
pub proof fn lemma_type_text_model(m: TypeMap, pkg: WitPackage, t: WitType)
    requires
        m.resolves(pkg),
    ensures
        type_text_in(m, t) == model_text(pkg, t),
{
    match t {
        WitType::Id(j) => {
            if 0 <= j < pkg.types@.len() {
                assert(entry_matches(
                    pkg,
                    j as int,
                    m.spec_get(j as int),
                    pkg.types@.len() as nat,
                ));
            } else {
                assert(m.spec_get(j as int) is None);
            }
        },
        _ => {},
    }
}

/// A Scala value type: a primitive, or a custom (named or synthesized)
/// type.
#[derive(Debug)]
pub enum Type {
    Primitive(Primitive),
    Custom(TypeName),
}

impl Type {
    /// The rendered text of the type.
    pub open spec fn spec_text(self) -> Seq<char> {
        match self {
            Type::Primitive(primitive) => primitive.spec_name(),
            Type::Custom(tname) => tname.spec_text(),
        }
    }

    /// Resolves a schema value type against the type map. Succeeds for
    /// every primitive kind and for every id the map holds; an id
    /// without an entry is a fatal lookup error naming that id.
    pub fn from_wit(ty: WitType, type_map: &TypeMap) -> (r: Result<Type, Error>)
        ensures
            (r is Ok <==> type_text_in(*type_map, ty) is Some),
            r matches Ok(t) ==> Some(t.spec_text()) == type_text_in(*type_map, ty),
            r matches Ok(t) ==> (t is Primitive <==> !(ty is Id)),
            !(ty is Id) ==> r == Ok::<Type, Error>(Type::Primitive(spec_prim_of(ty))),
            r matches Err(e) ==> ty matches WitType::Id(j) && e == (Error::Lookup { id: j })
                && type_map.spec_get(j as int) is None,
    {
        match ty {
            WitType::Id(id) => match type_map.get(id) {
                Some(tn) => Ok(Type::Custom(tn.clone())),
                None => Err(Error::Lookup { id }),
            },
            _ => Ok(Type::Primitive(prim_of(&ty))),
        }
    }

    /// Renders the type.
    pub fn render(&self) -> (r: String)
        ensures
            r@ == self.spec_text(),
    {
        match self {
            Type::Primitive(primitive) => primitive.render(),
            Type::Custom(tname) => tname.render(),
        }
    }
}

impl Clone for Type {
    fn clone(&self) -> (res: Self)
        ensures
            res.spec_text() == self.spec_text(),
    {
        match self {
            Type::Primitive(primitive) => Type::Primitive(*primitive),
            Type::Custom(tname) => Type::Custom(tname.clone()),
        }
    }
}

} // verus!
