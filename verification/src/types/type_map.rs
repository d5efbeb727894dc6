//! The resolver: a total mapping from type-definition ids to Scala type
//! names, built in one pass over the whole schema before any rendering.
//!
//! Named definitions map to the upper-camel conversion of their name.
//! Anonymous definitions — lists, options and result unions — map to a
//! generic wrapper instantiation whose parameters are resolved
//! recursively, so nested anonymous types need no name of their own.
//! An anonymous definition of any other kind is a fatal error.

use vstd::prelude::*;
use crate::casing;
use crate::errors::Error;
use crate::strutil;
use crate::types::names::{ConcreteName, Constructor, TypeName};
use crate::types::primitive::Primitive;
use crate::wit::{WitPackage, WitType, WitTypeDefKind};

verus! {

/// The Scala primitive for a non-id schema value type.
pub open spec fn spec_prim_of(t: WitType) -> Primitive {
    match t {
        WitType::Bool => Primitive::Boolean,
        WitType::U8 => Primitive::Byte,
        WitType::S8 => Primitive::Byte,
        WitType::U16 => Primitive::Short,
        WitType::S16 => Primitive::Short,
        WitType::U32 => Primitive::Integer,
        WitType::S32 => Primitive::Integer,
        WitType::U64 => Primitive::Long,
        WitType::S64 => Primitive::Long,
        WitType::Float32 => Primitive::Float,
        WitType::Float64 => Primitive::Double,
        WitType::Char => Primitive::Char,
        WitType::String => Primitive::String,
        WitType::Id(_) => arbitrary(),
    }
}

/// Maps a non-id schema value type to its Scala primitive.
pub fn prim_of(t: &WitType) -> (r: Primitive)
    requires
        !(t is Id),
    ensures
        r == spec_prim_of(*t),
{
    match t {
        WitType::Bool => Primitive::Boolean,
        WitType::U8 => Primitive::Byte,
        WitType::S8 => Primitive::Byte,
        WitType::U16 => Primitive::Short,
        WitType::S16 => Primitive::Short,
        WitType::U32 => Primitive::Integer,
        WitType::S32 => Primitive::Integer,
        WitType::U64 => Primitive::Long,
        WitType::S64 => Primitive::Long,
        WitType::Float32 => Primitive::Float,
        WitType::Float64 => Primitive::Double,
        WitType::Char => Primitive::Char,
        WitType::String => Primitive::String,
        WitType::Id(_) => Primitive::Boolean,
    }
}

/// Whether an anonymous definition of this kind has a generic wrapper.
pub open spec fn supported_anon_kind(k: WitTypeDefKind) -> bool {
    match k {
        WitTypeDefKind::List(_) => true,
        WitTypeDefKind::Option(_) => true,
        WitTypeDefKind::Result(_) => true,
        _ => false,
    }
}

/// The fixed runtime wrapper name for each supported anonymous kind.
pub open spec fn ctor_name_of(k: WitTypeDefKind) -> Seq<char> {
    match k {
        WitTypeDefKind::List(_) => "WitList"@,
        WitTypeDefKind::Option(_) => "WitOption"@,
        WitTypeDefKind::Result(_) => "WitResult"@,
        _ => Seq::empty(),
    }
}

/// The rendered text of a generic wrapper instantiation.
pub open spec fn wrapped_text(ctor: Seq<char>, ps: Seq<Seq<char>>) -> Seq<char> {
    ctor + "["@ + strutil::join_texts(ps, ", "@) + "]"@
}

/// The rendered text that a definition id resolves to: the upper-camel
/// name for named definitions, a wrapper instantiation for supported
/// anonymous ones, and nothing otherwise. `fuel` bounds the recursion
/// through nested anonymous definitions; the schema graph is acyclic,
/// so one unit per definition suffices.
pub open spec fn resolve_text(pkg: WitPackage, id: int, fuel: nat) -> Option<Seq<char>>
    decreases fuel, 0nat,
{
    if 0 <= id < pkg.types@.len() {
        match pkg.types@[id].name {
            Some(nm) => Some(casing::upper_camel_of(nm@)),
            None => {
                if fuel == 0 {
                    None
                } else {
                    match anon_param_texts(pkg, id, (fuel - 1) as nat) {
                        Some(ps) => Some(wrapped_text(ctor_name_of(pkg.types@[id].kind), ps)),
                        None => None,
                    }
                }
            },
        }
    } else {
        None
    }
}

/// The rendered wrapper parameters of an anonymous definition: one
/// element for a list or an option, the ok and err branches for a
/// result union.
pub open spec fn anon_param_texts(pkg: WitPackage, id: int, fuel: nat) -> Option<Seq<Seq<char>>>
    decreases fuel, 3nat,
{
    match pkg.types@[id].kind {
        WitTypeDefKind::List(t) => match elem_text(pkg, t, fuel) {
            Some(e) => Some(seq![e]),
            None => None,
        },
        WitTypeDefKind::Option(t) => match elem_text(pkg, t, fuel) {
            Some(e) => Some(seq![e]),
            None => None,
        },
        WitTypeDefKind::Result(rt) => match (
            opt_elem_text(pkg, rt.ok, fuel),
            opt_elem_text(pkg, rt.err, fuel),
        ) {
            (Some(a), Some(b)) => Some(seq![a, b]),
            _ => None,
        },
        _ => None,
    }
}

/// The rendered text of an optional wrapper element; an absent branch
/// renders as the no-value sentinel `Unit`.
pub open spec fn opt_elem_text(pkg: WitPackage, t: Option<WitType>, fuel: nat) -> Option<
    Seq<char>,
>
    decreases fuel, 2nat,
{
    match t {
        Some(ty) => elem_text(pkg, ty, fuel),
        None => Some("Unit"@),
    }
}

/// The rendered text of one wrapper element: a primitive name, or the
/// resolved text of the referenced definition.
pub open spec fn elem_text(pkg: WitPackage, t: WitType, fuel: nat) -> Option<Seq<char>>
    decreases fuel, 1nat,
{
    match t {
        WitType::Id(j) => resolve_text(pkg, j as int, fuel),
        _ => Some(spec_prim_of(t).spec_name()),
    }
}

/// The resolution model of a whole package: recursion depth bounded by
/// the number of definitions, which covers every acyclic chain.
pub open spec fn resolve_model(pkg: WitPackage, id: int) -> Option<Seq<char>> {
    resolve_text(pkg, id, pkg.types@.len() as nat)
}

/// Whether the schema holds an anonymous definition of an unsupported
/// kind, anywhere.
pub open spec fn has_unsupported_anon(pkg: WitPackage) -> bool {
    exists|id: int|
        0 <= id < pkg.types@.len() && (#[trigger] pkg.types@[id]).name is None
            && !supported_anon_kind(pkg.types@[id].kind)
}

/// The first id at or after `i` of an anonymous definition of an
/// unsupported kind, or the definition count if there is none.
pub open spec fn first_unsupported_from(pkg: WitPackage, i: int) -> int
    decreases pkg.types@.len() - i,
{
    if i < 0 || i >= pkg.types@.len() {
        pkg.types@.len() as int
    } else if pkg.types@[i].name is None && !supported_anon_kind(pkg.types@[i].kind) {
        i
    } else {
        first_unsupported_from(pkg, i + 1)
    }
}

/// What one map entry must hold for a definition id: present exactly
/// when the id resolves, with the resolved text; a concrete upper-camel
/// name for a named definition, a wrapper constructor with the fixed
/// name and the recursively resolved parameters for an anonymous one.
pub open spec fn entry_matches(pkg: WitPackage, id: int, e: Option<TypeName>, fuel: nat) -> bool {
    &&& (e is Some <==> resolve_text(pkg, id, fuel) is Some)
    &&& (e matches Some(tn) ==> Some(tn.spec_text()) == resolve_text(pkg, id, fuel))
    &&& (e matches Some(tn) ==> match pkg.types@[id].name {
        Some(nm) => tn matches TypeName::Concrete(c) && c.spec_text() == casing::upper_camel_of(
            nm@,
        ),
        None => tn matches TypeName::Constructor(c) && c.spec_name() == ctor_name_of(
            pkg.types@[id].kind,
        ) && Some(c.param_texts()) == anon_param_texts(pkg, id, (fuel - 1) as nat),
    })
}

/// An anonymous list of a primitive element resolves to the list
/// wrapper instantiated with that primitive — the definition needs no
/// name of its own.
pub proof fn lemma_anonymous_list_of_primitive(pkg: WitPackage, id: int)
    requires
        0 <= id < pkg.types@.len(),
        pkg.types@[id].name is None,
        pkg.types@[id].kind matches WitTypeDefKind::List(t) && !(t is Id),
    ensures
        pkg.types@[id].kind matches WitTypeDefKind::List(t) ==> resolve_model(pkg, id) == Some(
            wrapped_text("WitList"@, seq![spec_prim_of(t).spec_name()]),
        ),
{
}

/// Nested anonymous definitions resolve recursively: a list of an
/// anonymous option of a primitive becomes the list wrapper around the
/// option wrapper, with no name required for the inner definition.
pub proof fn lemma_nested_anonymous_synthesis(pkg: WitPackage, outer: int, inner: usize)
    requires
        0 <= outer < pkg.types@.len(),
        0 <= inner < pkg.types@.len(),
        inner as int != outer,
        pkg.types@[outer].name is None,
        pkg.types@[outer].kind matches WitTypeDefKind::List(t) && t == WitType::Id(inner),
        pkg.types@[inner as int].name is None,
        pkg.types@[inner as int].kind matches WitTypeDefKind::Option(u) && !(u is Id),
    ensures
        pkg.types@[inner as int].kind matches WitTypeDefKind::Option(u) ==> resolve_model(
            pkg,
            outer,
        ) == Some(
            wrapped_text(
                "WitList"@,
                seq![wrapped_text("WitOption"@, seq![spec_prim_of(u).spec_name()])],
            ),
        ),
{
    let n = pkg.types@.len() as nat;
    if let WitTypeDefKind::Option(u) = pkg.types@[inner as int].kind {
        assert(n >= 2);
        assert(resolve_text(pkg, inner as int, (n - 1) as nat) == Some(
            wrapped_text("WitOption"@, seq![spec_prim_of(u).spec_name()]),
        ));
    }
}

/// Contains the mapping from type-definition ids to Scala type names.
#[derive(Debug)]
pub struct TypeMap {
    /// One slot per type definition of the schema, in id order.
    pub entries: Vec<Option<TypeName>>,
}

impl TypeMap {
    /// The entry for a definition id, if any.
    pub open spec fn spec_get(self, id: int) -> Option<TypeName> {
        if 0 <= id < self.entries@.len() {
            self.entries@[id]
        } else {
            None
        }
    }

    /// The rendered text of the entry for a definition id, if any.
    pub open spec fn text_at(self, id: int) -> Option<Seq<char>> {
        match self.spec_get(id) {
            Some(tn) => Some(tn.spec_text()),
            None => None,
        }
    }

    /// The map is the resolution of the package: total over every id
    /// that resolves, and nothing else.
    pub open spec fn resolves(self, pkg: WitPackage) -> bool {
        &&& self.entries@.len() == pkg.types@.len()
        &&& forall|id: int|
            0 <= id < pkg.types@.len() ==> entry_matches(
                pkg,
                id,
                #[trigger] self.spec_get(id),
                pkg.types@.len() as nat,
            )
    }

    /// Looks up the Scala type name for a definition id.
    pub fn get(&self, k: usize) -> (r: Option<&TypeName>)
        ensures
            (r is Some <==> self.spec_get(k as int) is Some),
            r matches Some(tn) ==> self.spec_get(k as int) == Some(*tn),
    {
        if k < self.entries.len() {
            self.entries[k].as_ref()
        } else {
            None
        }
    }

    /// Builds the resolver mapping for a whole schema: named
    /// definitions first in spirit, anonymous ones resolved recursively
    /// through the same model. Fails exactly when some anonymous
    /// definition has a kind without a generic wrapper, naming the
    /// first such id.
    pub fn from_schema(pkg: &WitPackage) -> (r: Result<TypeMap, Error>)
        ensures
            (r is Ok <==> !has_unsupported_anon(*pkg)),
            r matches Ok(m) ==> m.resolves(*pkg),
            r matches Err(e) ==> e == (Error::UnsupportedKind {
                id: first_unsupported_from(*pkg, 0) as usize,
            }),
    {
        let n = pkg.types.len();
        let mut i: usize = 0;
        while i < n
            invariant
                0 <= i <= n,
                n == pkg.types@.len(),
                forall|k: int|
                    0 <= k < i ==> !((#[trigger] pkg.types@[k]).name is None
                        && !supported_anon_kind(pkg.types@[k].kind)),
                first_unsupported_from(*pkg, 0) == first_unsupported_from(*pkg, i as int),
            decreases n - i,
        {
            let d = &pkg.types[i];
            if d.name.is_none() {
                let supported = match &d.kind {
                    WitTypeDefKind::List(_) => true,
                    WitTypeDefKind::Option(_) => true,
                    WitTypeDefKind::Result(_) => true,
                    _ => false,
                };
                if !supported {
                    return Err(Error::UnsupportedKind { id: i });
                }
            }
            i = i + 1;
        }
        assert(!has_unsupported_anon(*pkg));
        let mut entries: Vec<Option<TypeName>> = Vec::new();
        let mut id: usize = 0;
        while id < n
            invariant
                0 <= id <= n,
                n == pkg.types@.len(),
                entries@.len() == id,
                forall|k: int|
                    0 <= k < id ==> entry_matches(*pkg, k, #[trigger] entries@[k], n as nat),
            decreases n - id,
        {
            let e = resolve_id(pkg, id, n);
            entries.push(e);
            id = id + 1;
        }
        let m = TypeMap { entries };
        assert forall|k: int| 0 <= k < pkg.types@.len() implies entry_matches(
            *pkg,
            k,
            #[trigger] m.spec_get(k),
            pkg.types@.len() as nat,
        ) by {
            assert(m.spec_get(k) == m.entries@[k]);
        }
        Ok(m)
    }
}

/// Resolves one definition id to its Scala type name, recursing through
/// nested anonymous definitions with bounded fuel.
fn resolve_id(pkg: &WitPackage, id: usize, fuel: usize) -> (r: Option<TypeName>)
    ensures
        entry_matches(*pkg, id as int, r, fuel as nat),
    decreases fuel, 0int,
{
    if id >= pkg.types.len() {
        return None;
    }
    let d = &pkg.types[id];
    match &d.name {
        Some(nm) => Some(TypeName::Concrete(ConcreteName::from(nm.as_str()))),
        None => {
            if fuel == 0 {
                return None;
            }
            let ghost pfuel = (fuel - 1) as nat;
            match &d.kind {
                WitTypeDefKind::List(t) => {
                    match resolve_elem(pkg, t, fuel - 1) {
                        Some(e) => {
                            let ghost etext = e@;
                            let c = Constructor { name: "WitList".to_owned(), params: vec![e] };
                            proof {
                                assert(c.param_texts() =~= seq![etext]);
                                assert(Some(c.param_texts()) == anon_param_texts(
                                    *pkg,
                                    id as int,
                                    pfuel,
                                ));
                            }
                            Some(TypeName::Constructor(c))
                        },
                        None => None,
                    }
                },
                WitTypeDefKind::Option(t) => {
                    match resolve_elem(pkg, t, fuel - 1) {
                        Some(e) => {
                            let ghost etext = e@;
                            let c = Constructor { name: "WitOption".to_owned(), params: vec![e] };
                            proof {
                                assert(c.param_texts() =~= seq![etext]);
                                assert(Some(c.param_texts()) == anon_param_texts(
                                    *pkg,
                                    id as int,
                                    pfuel,
                                ));
                            }
                            Some(TypeName::Constructor(c))
                        },
                        None => None,
                    }
                },
                WitTypeDefKind::Result(rt) => {
                    match resolve_opt_elem(pkg, &rt.ok, fuel - 1) {
                        Some(a) => {
                            match resolve_opt_elem(pkg, &rt.err, fuel - 1) {
                                Some(b) => {
                                    let ghost atext = a@;
                                    let ghost btext = b@;
                                    let c = Constructor {
                                        name: "WitResult".to_owned(),
                                        params: vec![a, b],
                                    };
                                    proof {
                                        assert(c.param_texts() =~= seq![atext, btext]);
                                        assert(Some(c.param_texts()) == anon_param_texts(
                                            *pkg,
                                            id as int,
                                            pfuel,
                                        ));
                                    }
                                    Some(TypeName::Constructor(c))
                                },
                                None => None,
                            }
                        },
                        None => None,
                    }
                },
                _ => None,
            }
        },
    }
}

/// Resolves one wrapper element to its rendered text.
fn resolve_elem(pkg: &WitPackage, t: &WitType, fuel: usize) -> (r: Option<String>)
    ensures
        (r is Some <==> elem_text(*pkg, *t, fuel as nat) is Some),
        r matches Some(s) ==> Some(s@) == elem_text(*pkg, *t, fuel as nat),
    decreases fuel, 1int,
{
    match t {
        WitType::Id(j) => {
            match resolve_id(pkg, *j, fuel) {
                Some(tn) => Some(tn.render()),
                None => None,
            }
        },
        _ => Some(prim_of(t).render()),
    }
}

/// Resolves an optional wrapper element, rendering an absent branch as
/// the no-value sentinel `Unit`.
fn resolve_opt_elem(pkg: &WitPackage, t: &Option<WitType>, fuel: usize) -> (r: Option<String>)
    ensures
        (r is Some <==> opt_elem_text(*pkg, *t, fuel as nat) is Some),
        r matches Some(s) ==> Some(s@) == opt_elem_text(*pkg, *t, fuel as nat),
    decreases fuel, 2int,
{
    match t {
        Some(ty) => resolve_elem(pkg, ty, fuel),
        None => Some("Unit".to_owned()),
    }
}

} // verus!
