//! Scala type names: concrete names and generic type-constructor
//! instantiations.

use vstd::prelude::*;
use crate::casing;
use crate::errors::Error;
use crate::strutil;
use crate::types::type_map::TypeMap;
use crate::types::value::{type_text_in, Type};
use crate::wit::WitType;

verus! {

/// The name of a concrete Scala type: the upper-camel conversion of a
/// schema type name.
#[derive(Debug)]
pub struct ConcreteName(pub String);

impl ConcreteName {
    /// The rendered text of the name.
    pub open spec fn spec_text(self) -> Seq<char> {
        self.0@
    }

    /// Builds a concrete Scala type name from a schema type name by
    /// upper-camel case conversion. Converting a text that is already
    /// in upper camel shape leaves it unchanged.
    pub fn from(name: &str) -> (r: ConcreteName)
        ensures
            r.spec_text() == casing::upper_camel_of(name@),
            casing::is_wit_ident(name@) ==> r.spec_text() == casing::upper_camel_spec(name@),
            casing::is_upper_camel_text(name@) ==> r.spec_text() == name@,
    {
        ConcreteName(casing::to_upper_camel(name))
    }

    /// Renders the name.
    pub fn render(&self) -> (r: String)
        ensures
            r@ == self.spec_text(),
    {
        self.0.clone()
    }
}

impl Clone for ConcreteName {
    fn clone(&self) -> (res: Self)
        ensures
            res.spec_text() == self.spec_text(),
    {
        ConcreteName(self.0.clone())
    }
}

/// The name of a generic Scala type-constructor instantiation, such as
/// `WitList[Integer]`: a constructor name applied to already-rendered
/// type parameters.
#[derive(Debug)]
pub struct Constructor {
    /// The name of the type-constructor.
    pub name: String,
    /// The rendered texts of the type parameters.
    pub params: Vec<String>,
}

impl Constructor {
    /// The rendered texts of the parameters, in order.
    pub open spec fn param_texts(self) -> Seq<Seq<char>> {
        self.params@.map_values(|p: String| p@)
    }

    /// The name the constructor is rendered with.
    pub open spec fn spec_name(self) -> Seq<char> {
        self.name@
    }

    /// The rendered text: `Name[T1, T2, …]`.
    pub open spec fn spec_text(self) -> Seq<char> {
        self.name@ + "["@ + strutil::join_texts(self.param_texts(), ", "@) + "]"@
    }

    /// Renders the constructor application.
    pub fn render(&self) -> (r: String)
        ensures
            r@ == self.spec_text(),
    {
        let mut r = self.name.clone();
        r.append("[");
        let mut i: usize = 0;
        let ghost texts = self.param_texts();
        while i < self.params.len()
            invariant
                0 <= i <= self.params.len(),
                texts == self.param_texts(),
                texts.len() == self.params@.len(),
                r@ == self.name@ + "["@ + strutil::join_texts(texts.subrange(0, i as int), ", "@),
            decreases self.params.len() - i,
        {
            if i > 0 {
                r.append(", ");
            }
            r.append(self.params[i].as_str());
            proof {
                let pre = texts.subrange(0, i as int);
                strutil::lemma_join_push(pre, ", "@, texts[i as int]);
                assert(pre.push(texts[i as int]) =~= texts.subrange(0, i as int + 1));
            }
            i = i + 1;
        }
        r.append("]");
        proof {
            assert(texts.subrange(0, texts.len() as int) =~= texts);
        }
        r
    }
}

/// The first index at or after `i` of an optional element whose type
/// does not resolve through the map, or the element count if all
/// resolve.
pub open spec fn first_unresolved_param(
    params: Seq<Option<WitType>>,
    m: TypeMap,
    i: int,
) -> int
    decreases params.len() - i,
{
    if i < 0 || i >= params.len() {
        params.len() as int
    } else if opt_param_text(m, params[i]) is None {
        i
    } else {
        first_unresolved_param(params, m, i + 1)
    }
}

/// The rendered text of one optional constructor parameter: the
/// resolved type, or the no-value sentinel `Unit` when absent.
pub open spec fn opt_param_text(
    m: TypeMap,
    p: Option<WitType>,
) -> Option<Seq<char>> {
    match p {
        Some(t) => type_text_in(m, t),
        None => Some("Unit"@),
    }
}

impl Constructor {
    /// Builds a constructor instantiation by resolving each optional
    /// element through the map — an absent element renders as the
    /// no-value sentinel `Unit`. The first unresolvable element is a
    /// fatal lookup error naming its id.
    pub fn new(
        name: &str,
        params: Vec<Option<WitType>>,
        type_map: &TypeMap,
    ) -> (r: Result<Constructor, Error>)
        ensures
            (r is Ok <==> forall|i: int|
                0 <= i < params@.len() ==> opt_param_text(*type_map, #[trigger] params@[i])
                    is Some),
            r matches Ok(c) ==> {
                &&& c.spec_name() == name@
                &&& c.param_texts().len() == params@.len()
                &&& forall|i: int|
                    0 <= i < params@.len() ==> Some(c.param_texts()[i]) == opt_param_text(
                        *type_map,
                        params@[i],
                    )
            },
            r matches Err(e) ==> {
                let k = first_unresolved_param(params@, *type_map, 0);
                &&& 0 <= k < params@.len()
                &&& params@[k] matches Some(t) && t matches WitType::Id(j) && e == (Error::Lookup {
                    id: j,
                })
            },
    {
        let mut texts: Vec<String> = Vec::new();
        let n = params.len();
        let mut i: usize = 0;
        while i < n
            invariant
                0 <= i <= n,
                n == params@.len(),
                texts@.len() == i,
                forall|k: int|
                    0 <= k < i ==> opt_param_text(*type_map, #[trigger] params@[k]) is Some,
                forall|k: int|
                    0 <= k < i ==> Some((#[trigger] texts@[k])@) == opt_param_text(
                        *type_map,
                        params@[k],
                    ),
                first_unresolved_param(params@, *type_map, 0) == first_unresolved_param(
                    params@,
                    *type_map,
                    i as int,
                ),
            decreases n - i,
        {
            match &params[i] {
                Some(t) => {
                    match Type::from_wit(*t, type_map) {
                        Ok(ty) => {
                            texts.push(ty.render());
                        },
                        Err(e) => {
                            return Err(e);
                        },
                    }
                },
                None => {
                    texts.push("Unit".to_owned());
                },
            }
            i = i + 1;
        }
        let c = Constructor { name: name.to_owned(), params: texts };
        proof {
            assert(forall|k: int|
                0 <= k < n ==> c.param_texts()[k] == (#[trigger] c.params@[k])@);
        }
        Ok(c)
    }
}

impl Clone for Constructor {
    fn clone(&self) -> (res: Self)
        ensures
            res.spec_name() == self.spec_name(),
            res.param_texts() == self.param_texts(),
            res.spec_text() == self.spec_text(),
    {
        let res = Constructor { name: self.name.clone(), params: self.params.clone() };
        proof {
            assert(res.param_texts() =~= self.param_texts());
        }
        res
    }
}

/// The rendered identity of a Scala type: a concrete name, or a generic
/// constructor instantiation.
#[derive(Debug)]
pub enum TypeName {
    Concrete(ConcreteName),
    Constructor(Constructor),
}

impl TypeName {
    /// The rendered text of the name.
    pub open spec fn spec_text(self) -> Seq<char> {
        match self {
            TypeName::Concrete(name) => name.spec_text(),
            TypeName::Constructor(constructor) => constructor.spec_text(),
        }
    }

    /// Renders the name.
    pub fn render(&self) -> (r: String)
        ensures
            r@ == self.spec_text(),
    {
        match self {
            TypeName::Concrete(name) => name.render(),
            TypeName::Constructor(constructor) => constructor.render(),
        }
    }
}

impl Clone for TypeName {
    fn clone(&self) -> (res: Self)
        ensures
            res.spec_text() == self.spec_text(),
            res is Concrete <==> self is Concrete,
            res matches TypeName::Constructor(c) ==> (self matches TypeName::Constructor(
                s,
            ) && c.spec_name() == s.spec_name() && c.param_texts() == s.param_texts()),
    {
        match self {
            TypeName::Concrete(name) => TypeName::Concrete(name.clone()),
            TypeName::Constructor(constructor) => TypeName::Constructor(constructor.clone()),
        }
    }
}

} // verus!
