//! Variants: one discriminant-bearing base trait plus one constructor
//! per case — a function for a payload-bearing case, a singleton value
//! for a payload-free one.

use vstd::prelude::*;
use crate::casing;
use crate::errors::Error;
use crate::strutil;
use crate::types::names::{ConcreteName, TypeName};
use crate::types::type_map::TypeMap;
use crate::types::value::{lemma_type_text_model, model_text, type_text_in, Type};
use crate::wit::{WitCase, WitPackage, WitType, WitVariant};

verus! {

/// The name of a variant case in Scala: the lower-camel conversion of
/// the schema case name. The discriminant string is exactly this name.
#[derive(Debug)]
pub struct CaseName(pub String);

impl CaseName {
    /// The rendered text of the name.
    pub open spec fn spec_text(self) -> Seq<char> {
        self.0@
    }

    /// Builds a Scala case name by lower-camel case conversion.
    /// Converting a text already in lower camel shape leaves it
    /// unchanged.
    pub fn from(name: &str) -> (r: CaseName)
        ensures
            r.spec_text() == casing::camel_of(name@),
            casing::is_wit_ident(name@) ==> r.spec_text() == casing::camel_spec(name@),
            casing::is_camel_text(name@) ==> r.spec_text() == name@,
    {
        CaseName(casing::to_camel(name))
    }
}

/// A variant case in Scala: a name and an optional payload type.
#[derive(Debug)]
pub struct VariantCase {
    pub name: CaseName,
    pub ty: Option<Type>,
}

impl VariantCase {
    /// The rendered constructor of this case inside the companion
    /// object of the variant `vname`: a one-argument `def` when the
    /// case carries a payload, a singleton `val` when it does not; the
    /// `tag` discriminant is the case name in both shapes.
    pub open spec fn case_text(self, vname: Seq<char>) -> Seq<char> {
        match self.ty {
            Some(t) => "\n                            def "@ + self.name.spec_text()
                + "(value: "@ + t.spec_text() + ") = new "@ + vname
                + " {\n                                type Type = "@ + t.spec_text()
                + "\n                                \n                                val tag: String = \""@
                + self.name.spec_text()
                + "\"\n                                override val `val`: js.UndefOr[Type] = value\n                            }\n                        "@,
            None => "\n                            val "@ + self.name.spec_text() + " = new "@
                + vname + " {\n                                type Type = Nothing"@
                + "\n                                \n                                val tag: String = \""@
                + self.name.spec_text()
                + "\"\n                                \n                            }\n                        "@,
        }
    }

    /// What a built case holds for a schema case: the camel-cased name
    /// and the resolved payload type, if any.
    pub open spec fn built_from(self, wc: WitCase, m: TypeMap) -> bool {
        &&& self.name.spec_text() == casing::camel_of(wc.name@)
        &&& casing::is_wit_ident(wc.name@) ==> self.name.spec_text() == casing::camel_spec(
            wc.name@,
        )
        &&& match wc.ty {
            Some(t) => self.ty matches Some(ct) && Some(ct.spec_text()) == type_text_in(m, t),
            None => self.ty is None,
        }
    }

    /// Builds a `VariantCase` from a schema case, resolving its
    /// payload type against the map; an unresolvable type id is a
    /// fatal lookup error naming that id.
    pub fn from_wit(case: &WitCase, type_map: &TypeMap) -> (r: Result<VariantCase, Error>)
        ensures
            (r is Ok <==> case_resolvable(*case, *type_map)),
            r matches Ok(c) ==> c.built_from(*case, *type_map),
            r matches Err(e) ==> case.ty matches Some(t) && t matches WitType::Id(j) && e
                == (Error::Lookup { id: j }),
    {
        let ty = match &case.ty {
            Some(t) => match Type::from_wit(*t, type_map) {
                Ok(ct) => Some(ct),
                Err(e) => { return Err(e) },
            },
            None => None,
        };
        Ok(VariantCase { name: CaseName::from(case.name.as_str()), ty })
    }
}

/// Whether the payload type of a schema case, if any, resolves.
pub open spec fn case_resolvable(wc: WitCase, m: TypeMap) -> bool {
    match wc.ty {
        Some(t) => type_text_in(m, t) is Some,
        None => true,
    }
}

/// Whether the payload type of a schema case, if any, resolves in the
/// model of the schema itself.
pub open spec fn model_case_resolvable(pkg: WitPackage, wc: WitCase) -> bool {
    match wc.ty {
        Some(t) => model_text(pkg, t) is Some,
        None => true,
    }
}

/// The first index at or after `i` of a schema case whose payload type
/// does not resolve, or the case count if all resolve.
pub open spec fn first_unresolved_case(cases: Seq<WitCase>, m: TypeMap, i: int) -> int
    decreases cases.len() - i,
{
    if i < 0 || i >= cases.len() {
        cases.len() as int
    } else if !case_resolvable(cases[i], m) {
        i
    } else {
        first_unresolved_case(cases, m, i + 1)
    }
}

/// The constructors of all cases, in declared order — no reordering,
/// no deduplication.
pub open spec fn cases_block(cases: Seq<VariantCase>, vname: Seq<char>) -> Seq<char> {
    strutil::join_texts(cases.map_values(|c: VariantCase| c.case_text(vname)), "\n"@)
}

/// A variant in Scala: a concrete name and its cases in declaration
/// order.
#[derive(Debug)]
pub struct Variant {
    pub name: TypeName,
    pub cases: Vec<VariantCase>,
}

/// A variant with a payload-free case followed by a payload-bearing
/// case renders the zero-argument singleton first and the one-argument
/// constructor second — declared order, no reordering — and each
/// constructor carries its own case name as the discriminant string,
/// as [`VariantCase::case_text`] spells out per shape.
pub proof fn lemma_variant_two_cases(c1: VariantCase, c2: VariantCase, vname: Seq<char>)
    requires
        c1.ty is None,
        c2.ty is Some,
    ensures
        cases_block(seq![c1, c2], vname) == c1.case_text(vname) + "\n"@ + c2.case_text(vname),
{
    let s = seq![c1, c2];
    assert(s.map_values(|c: VariantCase| c.case_text(vname)) =~= seq![
        c1.case_text(vname),
        c2.case_text(vname),
    ]);
    strutil::lemma_join_two(c1.case_text(vname), c2.case_text(vname), "\n"@);
}

/// Two variants built from the same named schema variant, through any
/// two resolver maps of the schema, render identically: the rendered
/// declaration is a function of the schema alone.
pub proof fn lemma_variant_render_unique(
    pkg: WitPackage,
    a: Variant,
    b: Variant,
    name: Seq<char>,
    wv: WitVariant,
    m1: TypeMap,
    m2: TypeMap,
)
    requires
        m1.resolves(pkg),
        m2.resolves(pkg),
        a.built_from(name, wv, m1),
        b.built_from(name, wv, m2),
    ensures
        a.spec_render() == b.spec_render(),
{
    assert(a.name.spec_text() == b.name.spec_text());
    let vn = a.name.spec_text();
    assert forall|i: int| 0 <= i < a.cases@.len() implies (#[trigger] a.cases@[i]).case_text(vn)
        == b.cases@[i].case_text(vn) by {
        assert(a.cases@[i].built_from(wv.cases@[i], m1));
        assert(b.cases@[i].built_from(wv.cases@[i], m2));
        if let Some(t) = wv.cases@[i].ty {
            lemma_type_text_model(m1, pkg, t);
            lemma_type_text_model(m2, pkg, t);
        }
    }
    assert(a.cases@.map_values(|c: VariantCase| c.case_text(vn)) =~= b.cases@.map_values(
        |c: VariantCase| c.case_text(vn),
    ));
}

impl Variant {
    /// What a built variant holds for a named schema variant: the
    /// upper-camel concrete name, and one case per schema case, in
    /// order.
    pub open spec fn built_from(self, name: Seq<char>, wv: WitVariant, m: TypeMap) -> bool {
        &&& self.name matches TypeName::Concrete(c) && c.spec_text() == casing::upper_camel_of(
            name,
        )
        &&& casing::is_wit_ident(name) ==> self.name.spec_text() == casing::upper_camel_spec(name)
        &&& self.cases@.len() == wv.cases@.len()
        &&& forall|i: int|
            0 <= i < wv.cases@.len() ==> (#[trigger] self.cases@[i]).built_from(wv.cases@[i], m)
    }

    /// Builds a `Variant` from a named schema variant: every payload
    /// type is resolved against the map; the first unresolvable one is
    /// a fatal lookup error naming its id.
    pub fn from_wit(name: &str, variant: &WitVariant, type_map: &TypeMap) -> (r: Result<
        Variant,
        Error,
    >)
        ensures
            (r is Ok <==> forall|i: int|
                0 <= i < variant.cases@.len() ==> case_resolvable(
                    #[trigger] variant.cases@[i],
                    *type_map,
                )),
            r matches Ok(v) ==> v.built_from(name@, *variant, *type_map),
            r matches Err(e) ==> {
                let k = first_unresolved_case(variant.cases@, *type_map, 0);
                &&& 0 <= k < variant.cases@.len()
                &&& !case_resolvable(variant.cases@[k], *type_map)
                &&& variant.cases@[k].ty matches Some(t) && t matches WitType::Id(j) && e
                    == (Error::Lookup { id: j })
            },
    {
        let mut cases: Vec<VariantCase> = Vec::new();
        let n = variant.cases.len();
        let mut i: usize = 0;
        while i < n
            invariant
                0 <= i <= n,
                n == variant.cases@.len(),
                cases@.len() == i,
                forall|k: int|
                    0 <= k < i ==> case_resolvable(#[trigger] variant.cases@[k], *type_map),
                forall|k: int|
                    0 <= k < i ==> (#[trigger] cases@[k]).built_from(
                        variant.cases@[k],
                        *type_map,
                    ),
                first_unresolved_case(variant.cases@, *type_map, 0) == first_unresolved_case(
                    variant.cases@,
                    *type_map,
                    i as int,
                ),
            decreases n - i,
        {
            match VariantCase::from_wit(&variant.cases[i], type_map) {
                Ok(c) => {
                    cases.push(c);
                },
                Err(e) => {
                    return Err(e);
                },
            }
            i = i + 1;
        }
        Ok(Variant { name: TypeName::Concrete(ConcreteName::from(name)), cases })
    }

    /// The full rendered declaration: the base trait with the `tag`
    /// discriminant and the single payload slot, then the companion
    /// object holding one constructor per case in declared order.
    pub open spec fn spec_render(self) -> Seq<char> {
        "\n                sealed trait "@ + self.name.spec_text()
            + " extends js.Object { self =>\n                    type Type\n\n                    val tag: String\n                    val `val`: js.UndefOr[Type]\n                }\n\n                object "@
            + self.name.spec_text() + " {\n                    "@ + cases_block(
            self.cases@,
            self.name.spec_text(),
        ) + "\n                }\n            "@
    }

    /// Renders the variant declaration.
    pub fn render(&self) -> (r: String)
        ensures
            r@ == self.spec_render(),
    {
        let name = self.name.render();
        let ghost vname = name@;
        let ghost cseq = self.cases@;
        let mut ctors = String::new();
        let n = self.cases.len();
        let mut i: usize = 0;
        while i < n
            invariant
                0 <= i <= n,
                cseq == self.cases@,
                n == cseq.len(),
                vname == self.name.spec_text(),
                name@ == vname,
                ctors@ == cases_block(cseq.subrange(0, i as int), vname),
            decreases n - i,
        {
            let c = &self.cases[i];
            if i > 0 {
                ctors.append("\n");
            }
            match &c.ty {
                Some(t) => {
                    let tys = t.render();
                    ctors.append("\n                            def ");
                    ctors.append(c.name.0.as_str());
                    ctors.append("(value: ");
                    ctors.append(tys.as_str());
                    ctors.append(") = new ");
                    ctors.append(name.as_str());
                    ctors.append(" {\n                                type Type = ");
                    ctors.append(tys.as_str());
                    ctors.append(
                        "\n                                \n                                val tag: String = \"",
                    );
                    ctors.append(c.name.0.as_str());
                    ctors.append(
                        "\"\n                                override val `val`: js.UndefOr[Type] = value\n                            }\n                        ",
                    );
                },
                None => {
                    ctors.append("\n                            val ");
                    ctors.append(c.name.0.as_str());
                    ctors.append(" = new ");
                    ctors.append(name.as_str());
                    ctors.append(" {\n                                type Type = Nothing");
                    ctors.append(
                        "\n                                \n                                val tag: String = \"",
                    );
                    ctors.append(c.name.0.as_str());
                    ctors.append(
                        "\"\n                                \n                            }\n                        ",
                    );
                },
            }
            proof {
                let pre = cseq.subrange(0, i as int);
                let now = cseq.subrange(0, i as int + 1);
                let ci = cseq[i as int];
                assert(now =~= pre.push(ci));
                assert(now.map_values(|c: VariantCase| c.case_text(vname)) =~= pre.map_values(
                    |c: VariantCase| c.case_text(vname),
                ).push(ci.case_text(vname)));
                strutil::lemma_join_push(
                    pre.map_values(|c: VariantCase| c.case_text(vname)),
                    "\n"@,
                    ci.case_text(vname),
                );
                assert(ctors@ =~= cases_block(now, vname));
            }
            i = i + 1;
        }
        proof {
            assert(cseq.subrange(0, cseq.len() as int) =~= cseq);
        }
        let mut r = String::new();
        r.append("\n                sealed trait ");
        r.append(name.as_str());
        r.append(
            " extends js.Object { self =>\n                    type Type\n\n                    val tag: String\n                    val `val`: js.UndefOr[Type]\n                }\n\n                object ",
        );
        r.append(name.as_str());
        r.append(" {\n                    ");
        r.append(ctors.as_str());
        r.append("\n                }\n            ");
        proof {
            assert(r@ =~= self.spec_render());
        }
        r
    }
}

} // verus!
