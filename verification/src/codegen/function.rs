//! Functions: one abstract signature per schema function, with
//! positional results — the no-value sentinel for zero results, the
//! type itself for one, a tuple-like grouping for several.

use vstd::prelude::*;
use crate::casing;
use crate::errors::Error;
use crate::strutil;
use crate::types::type_map::TypeMap;
use crate::types::value::{lemma_type_text_model, model_text, type_text_in, Type};
use crate::wit::{WitFunction, WitPackage, WitResults, WitType};

verus! {

/// The name of a function parameter in Scala: the lower-camel
/// conversion of the schema parameter name.
#[derive(Debug)]
pub struct ParamName(pub String);

impl ParamName {
    /// The rendered text of the name.
    pub open spec fn spec_text(self) -> Seq<char> {
        self.0@
    }

    /// Builds a Scala parameter name by lower-camel case conversion.
    /// Converting a text already in lower camel shape leaves it
    /// unchanged.
    pub fn from(name: &str) -> (r: ParamName)
        ensures
            r.spec_text() == casing::camel_of(name@),
            casing::is_wit_ident(name@) ==> r.spec_text() == casing::camel_spec(name@),
            casing::is_camel_text(name@) ==> r.spec_text() == name@,
    {
        ParamName(casing::to_camel(name))
    }
}

/// A function parameter in Scala: a name and its resolved type.
#[derive(Debug)]
pub struct Param {
    pub name: ParamName,
    pub ty: Type,
}

impl Param {
    /// `name: Type`
    pub open spec fn typed_text(self) -> Seq<char> {
        self.name.spec_text() + ": "@ + self.ty.spec_text()
    }

    /// What a built parameter holds for a schema parameter: the
    /// camel-cased name and the resolved type text.
    pub open spec fn built_from(self, name: Seq<char>, ty: WitType, m: TypeMap) -> bool {
        &&& self.name.spec_text() == casing::camel_of(name)
        &&& casing::is_wit_ident(name) ==> self.name.spec_text() == casing::camel_spec(name)
        &&& Some(self.ty.spec_text()) == type_text_in(m, ty)
    }

    /// Builds a `Param` from a schema parameter, resolving its type
    /// against the map; an unresolvable type id is a fatal lookup
    /// error naming that id.
    pub fn from_wit(name: &str, ty: WitType, type_map: &TypeMap) -> (r: Result<Param, Error>)
        ensures
            (r is Ok <==> type_text_in(*type_map, ty) is Some),
            r matches Ok(p) ==> p.built_from(name@, ty, *type_map),
            r matches Err(e) ==> ty matches WitType::Id(j) && e == (Error::Lookup { id: j }),
    {
        let t = match Type::from_wit(ty, type_map) {
            Ok(t) => t,
            Err(e) => { return Err(e) },
        };
        Ok(Param { name: ParamName::from(name), ty: t })
    }
}

/// The name of a function in Scala: the lower-camel conversion of the
/// schema function name.
#[derive(Debug)]
pub struct FunctionName(pub String);

impl FunctionName {
    /// The rendered text of the name.
    pub open spec fn spec_text(self) -> Seq<char> {
        self.0@
    }

    /// Builds a Scala function name by lower-camel case conversion.
    /// Converting a text already in lower camel shape leaves it
    /// unchanged.
    pub fn from(name: &str) -> (r: FunctionName)
        ensures
            r.spec_text() == casing::camel_of(name@),
            casing::is_wit_ident(name@) ==> r.spec_text() == casing::camel_spec(name@),
            casing::is_camel_text(name@) ==> r.spec_text() == name@,
    {
        FunctionName(casing::to_camel(name))
    }
}

/// The first index at or after `i` of a named schema parameter or
/// result whose type does not resolve, or the item count if all
/// resolve.
pub open spec fn first_unresolved_item(
    items: Seq<(String, WitType)>,
    m: TypeMap,
    i: int,
) -> int
    decreases items.len() - i,
{
    if i < 0 || i >= items.len() {
        items.len() as int
    } else if type_text_in(m, items[i].1) is None {
        i
    } else {
        first_unresolved_item(items, m, i + 1)
    }
}

/// Whether every type in a list of named items resolves.
pub open spec fn all_items_resolve(items: Seq<(String, WitType)>, m: TypeMap) -> bool {
    forall|i: int| 0 <= i < items.len() ==> type_text_in(m, (#[trigger] items[i]).1) is Some
}

/// Whether every result type of a schema function resolves.
pub open spec fn results_resolve(results: WitResults, m: TypeMap) -> bool {
    match results {
        WitResults::Named(items) => all_items_resolve(items@, m),
        WitResults::Anon(t) => type_text_in(m, t) is Some,
    }
}

/// Whether every type in a list of named items resolves in the model
/// of the schema itself.
pub open spec fn model_items_resolve(pkg: WitPackage, items: Seq<(String, WitType)>) -> bool {
    forall|i: int| 0 <= i < items.len() ==> model_text(pkg, (#[trigger] items[i]).1) is Some
}

/// Whether every result type of a schema function resolves in the
/// model of the schema itself.
pub open spec fn model_results_resolve(pkg: WitPackage, results: WitResults) -> bool {
    match results {
        WitResults::Named(items) => model_items_resolve(pkg, items@),
        WitResults::Anon(t) => model_text(pkg, t) is Some,
    }
}

/// For a resolver map of the schema, map-level and model-level
/// resolvability agree on a function's parameters and results.
pub proof fn lemma_function_resolve_model(m: TypeMap, pkg: WitPackage, wf: WitFunction)
    requires
        m.resolves(pkg),
    ensures
        all_items_resolve(wf.params@, m) <==> model_items_resolve(pkg, wf.params@),
        results_resolve(wf.results, m) <==> model_results_resolve(pkg, wf.results),
{
    assert forall|i: int| 0 <= i < wf.params@.len() implies type_text_in(
        m,
        (#[trigger] wf.params@[i]).1,
    ) == model_text(pkg, wf.params@[i].1) by {
        lemma_type_text_model(m, pkg, wf.params@[i].1);
    }
    match wf.results {
        WitResults::Named(items) => {
            assert forall|i: int| 0 <= i < items@.len() implies type_text_in(
                m,
                (#[trigger] items@[i]).1,
            ) == model_text(pkg, items@[i].1) by {
                lemma_type_text_model(m, pkg, items@[i].1);
            }
        },
        WitResults::Anon(t) => {
            lemma_type_text_model(m, pkg, t);
        },
    }
}

/// The parameter list of a signature, mirroring schema order.
pub open spec fn params_text(params: Seq<Param>) -> Seq<char> {
    strutil::join_texts(params.map_values(|p: Param| p.typed_text()), ", "@)
}

/// The rendered result type: the no-value sentinel `Unit` for zero
/// results, the type itself for exactly one, and a tuple-like
/// positional grouping for more.
pub open spec fn outs_text(outs: Seq<Type>) -> Seq<char> {
    if outs.len() == 0 {
        "Unit"@
    } else if outs.len() == 1 {
        outs[0].spec_text()
    } else {
        "("@ + strutil::join_texts(outs.map_values(|t: Type| t.spec_text()), ", "@) + ")"@
    }
}

/// Zero results render the sentinel, one result renders itself, and
/// two results render as the pair of their types.
pub proof fn lemma_result_arity(outs: Seq<Type>)
    ensures
        outs.len() == 0 ==> outs_text(outs) == "Unit"@,
        outs.len() == 1 ==> outs_text(outs) == outs[0].spec_text(),
        outs.len() == 2 ==> outs_text(outs) == "("@ + outs[0].spec_text() + ", "@
            + outs[1].spec_text() + ")"@,
{
    if outs.len() == 2 {
        let texts = outs.map_values(|t: Type| t.spec_text());
        strutil::lemma_join_two(outs[0].spec_text(), outs[1].spec_text(), ", "@);
        assert(texts =~= seq![outs[0].spec_text(), outs[1].spec_text()]);
    }
}

/// Two signatures built from the same schema function, through any two
/// resolver maps of the schema, render identically: the rendered
/// signature is a function of the schema alone.
pub proof fn lemma_function_render_unique(
    pkg: WitPackage,
    a: Function,
    b: Function,
    wf: WitFunction,
    m1: TypeMap,
    m2: TypeMap,
)
    requires
        m1.resolves(pkg),
        m2.resolves(pkg),
        a.built_from(wf, m1),
        b.built_from(wf, m2),
    ensures
        a.spec_render() == b.spec_render(),
{
    assert(a.name.spec_text() == b.name.spec_text());
    assert forall|i: int| 0 <= i < a.params@.len() implies (#[trigger] a.params@[i]).typed_text()
        == b.params@[i].typed_text() by {
        assert(a.params@[i].built_from(wf.params@[i].0@, wf.params@[i].1, m1));
        assert(b.params@[i].built_from(wf.params@[i].0@, wf.params@[i].1, m2));
        lemma_type_text_model(m1, pkg, wf.params@[i].1);
        lemma_type_text_model(m2, pkg, wf.params@[i].1);
    }
    assert(a.params@.map_values(|p: Param| p.typed_text()) =~= b.params@.map_values(
        |p: Param| p.typed_text(),
    ));
    assert forall|i: int| 0 <= i < a.outs@.len() implies (#[trigger] a.outs@[i]).spec_text()
        == b.outs@[i].spec_text() by {
        match wf.results {
            WitResults::Named(items) => {
                lemma_type_text_model(m1, pkg, items@[i].1);
                lemma_type_text_model(m2, pkg, items@[i].1);
            },
            WitResults::Anon(t) => {
                lemma_type_text_model(m1, pkg, t);
                lemma_type_text_model(m2, pkg, t);
            },
        }
    }
    assert(a.outs@.map_values(|t: Type| t.spec_text()) =~= b.outs@.map_values(
        |t: Type| t.spec_text(),
    ));
    if a.outs@.len() == 1 {
        assert(outs_text(a.outs@) == outs_text(b.outs@));
    }
}

/// A function signature in Scala: a name, parameters in order, and
/// positional result types.
#[derive(Debug)]
pub struct Function {
    pub name: FunctionName,
    pub params: Vec<Param>,
    pub outs: Vec<Type>,
}

impl Function {
    /// What a built function holds for a schema function: the
    /// camel-cased name, one parameter per schema parameter in order,
    /// and one result type per schema result in order — result names
    /// are discarded, zero results stay distinct from one.
    pub open spec fn built_from(self, wf: WitFunction, m: TypeMap) -> bool {
        &&& self.name.spec_text() == casing::camel_of(wf.name@)
        &&& casing::is_wit_ident(wf.name@) ==> self.name.spec_text() == casing::camel_spec(
            wf.name@,
        )
        &&& self.params@.len() == wf.params@.len()
        &&& forall|i: int|
            0 <= i < wf.params@.len() ==> (#[trigger] self.params@[i]).built_from(
                wf.params@[i].0@,
                wf.params@[i].1,
                m,
            )
        &&& match wf.results {
            WitResults::Named(items) => self.outs@.len() == items@.len() && forall|i: int|
                0 <= i < items@.len() ==> Some((#[trigger] self.outs@[i]).spec_text())
                    == type_text_in(m, items@[i].1),
            WitResults::Anon(t) => self.outs@.len() == 1 && Some(self.outs@[0].spec_text())
                == type_text_in(m, t),
        }
    }

    /// Builds a `Function` from a schema function: every parameter and
    /// result type is resolved against the map. The first unresolvable
    /// parameter type, then the first unresolvable result type, is a
    /// fatal lookup error naming its id.
    pub fn from_wit(function: &WitFunction, type_map: &TypeMap) -> (r: Result<Function, Error>)
        ensures
            (r is Ok <==> all_items_resolve(function.params@, *type_map) && results_resolve(
                function.results,
                *type_map,
            )),
            r matches Ok(f) ==> f.built_from(*function, *type_map),
            r matches Err(e) ==> e matches Error::Lookup { id } && type_text_in(
                *type_map,
                WitType::Id(id),
            ) is None,
            r matches Err(e) ==> !all_items_resolve(function.params@, *type_map) ==> {
                let k = first_unresolved_item(function.params@, *type_map, 0);
                &&& 0 <= k < function.params@.len()
                &&& type_text_in(*type_map, function.params@[k].1) is None
                &&& function.params@[k].1 matches WitType::Id(j) && e == (Error::Lookup { id: j })
            },
            r matches Err(e) ==> all_items_resolve(function.params@, *type_map)
                ==> match function.results {
                WitResults::Named(items) => {
                    let k = first_unresolved_item(items@, *type_map, 0);
                    &&& 0 <= k < items@.len()
                    &&& type_text_in(*type_map, items@[k].1) is None
                    &&& items@[k].1 matches WitType::Id(j) && e == (Error::Lookup { id: j })
                },
                WitResults::Anon(t) => t matches WitType::Id(j) && e == (Error::Lookup { id: j }),
            },
    {
        let mut params: Vec<Param> = Vec::new();
        let np = function.params.len();
        let mut i: usize = 0;
        while i < np
            invariant
                0 <= i <= np,
                np == function.params@.len(),
                params@.len() == i,
                forall|k: int|
                    0 <= k < i ==> type_text_in(*type_map, (#[trigger] function.params@[k]).1)
                        is Some,
                forall|k: int|
                    0 <= k < i ==> (#[trigger] params@[k]).built_from(
                        function.params@[k].0@,
                        function.params@[k].1,
                        *type_map,
                    ),
                first_unresolved_item(function.params@, *type_map, 0) == first_unresolved_item(
                    function.params@,
                    *type_map,
                    i as int,
                ),
            decreases np - i,
        {
            let pair = &function.params[i];
            match Param::from_wit(pair.0.as_str(), pair.1, type_map) {
                Ok(p) => {
                    params.push(p);
                },
                Err(e) => {
                    return Err(e);
                },
            }
            i = i + 1;
        }
        let mut outs: Vec<Type> = Vec::new();
        match &function.results {
            WitResults::Named(items) => {
                let nr = items.len();
                let mut j: usize = 0;
                while j < nr
                    invariant
                        0 <= j <= nr,
                        nr == items@.len(),
                        function.results matches WitResults::Named(iv) && iv == *items,
                        all_items_resolve(function.params@, *type_map),
                        outs@.len() == j,
                        forall|k: int|
                            0 <= k < j ==> type_text_in(*type_map, (#[trigger] items@[k]).1)
                                is Some,
                        forall|k: int|
                            0 <= k < j ==> Some((#[trigger] outs@[k]).spec_text())
                                == type_text_in(*type_map, items@[k].1),
                        first_unresolved_item(items@, *type_map, 0) == first_unresolved_item(
                            items@,
                            *type_map,
                            j as int,
                        ),
                    decreases nr - j,
                {
                    match Type::from_wit(items[j].1, type_map) {
                        Ok(t) => {
                            outs.push(t);
                        },
                        Err(e) => {
                            proof {
                                assert(function.results matches WitResults::Named(iv) && iv@
                                    == items@);
                                assert(type_text_in(*type_map, items@[j as int].1) is None);
                                assert(!all_items_resolve(items@, *type_map));
                                assert(first_unresolved_item(items@, *type_map, j as int)
                                    == j as int);
                            }
                            return Err(e);
                        },
                    }
                    j = j + 1;
                }
            },
            WitResults::Anon(t) => {
                match Type::from_wit(*t, type_map) {
                    Ok(ty) => {
                        outs.push(ty);
                    },
                    Err(e) => {
                        return Err(e);
                    },
                }
            },
        }
        Ok(Function { name: FunctionName::from(function.name.as_str()), params, outs })
    }

    /// The full rendered abstract signature:
    /// `def name(p1: T1, …): R`.
    pub open spec fn spec_render(self) -> Seq<char> {
        "def "@ + self.name.spec_text() + "("@ + params_text(self.params@) + "): "@ + outs_text(
            self.outs@,
        )
    }

    /// Renders the signature. No body is emitted: the function is left
    /// abstract for a downstream implementer.
    pub fn render(&self) -> (r: String)
        ensures
            r@ == self.spec_render(),
    {
        let ghost pseq = self.params@;
        let mut r = String::new();
        r.append("def ");
        r.append(self.name.0.as_str());
        r.append("(");
        let np = self.params.len();
        let mut i: usize = 0;
        let ghost base = "def "@ + self.name.spec_text() + "("@;
        while i < np
            invariant
                0 <= i <= np,
                pseq == self.params@,
                np == pseq.len(),
                base == "def "@ + self.name.spec_text() + "("@,
                r@ == base + params_text(pseq.subrange(0, i as int)),
            decreases np - i,
        {
            let p = &self.params[i];
            if i > 0 {
                r.append(", ");
            }
            r.append(p.name.0.as_str());
            r.append(": ");
            let tys = p.ty.render();
            r.append(tys.as_str());
            proof {
                let pre = pseq.subrange(0, i as int);
                let now = pseq.subrange(0, i as int + 1);
                let pi = pseq[i as int];
                assert(now =~= pre.push(pi));
                assert(now.map_values(|p: Param| p.typed_text()) =~= pre.map_values(
                    |p: Param| p.typed_text(),
                ).push(pi.typed_text()));
                strutil::lemma_join_push(
                    pre.map_values(|p: Param| p.typed_text()),
                    ", "@,
                    pi.typed_text(),
                );
                assert(r@ =~= base + params_text(now));
            }
            i = i + 1;
        }
        proof {
            assert(pseq.subrange(0, pseq.len() as int) =~= pseq);
        }
        r.append("): ");
        let ghost mid = base + params_text(pseq) + "): "@;
        proof {
            assert(r@ =~= mid);
        }
        if self.outs.len() == 0 {
            r.append("Unit");
        } else if self.outs.len() == 1 {
            let tys = self.outs[0].render();
            r.append(tys.as_str());
        } else {
            let ghost oseq = self.outs@;
            r.append("(");
            let no = self.outs.len();
            let mut j: usize = 0;
            while j < no
                invariant
                    0 <= j <= no,
                    oseq == self.outs@,
                    no == oseq.len(),
                    mid == base + params_text(pseq) + "): "@,
                    r@ == mid + "("@ + strutil::join_texts(
                        oseq.subrange(0, j as int).map_values(|t: Type| t.spec_text()),
                        ", "@,
                    ),
                decreases no - j,
            {
                if j > 0 {
                    r.append(", ");
                }
                let tys = self.outs[j].render();
                r.append(tys.as_str());
                proof {
                    let pre = oseq.subrange(0, j as int);
                    let now = oseq.subrange(0, j as int + 1);
                    let oj = oseq[j as int];
                    assert(now =~= pre.push(oj));
                    assert(now.map_values(|t: Type| t.spec_text()) =~= pre.map_values(
                        |t: Type| t.spec_text(),
                    ).push(oj.spec_text()));
                    strutil::lemma_join_push(
                        pre.map_values(|t: Type| t.spec_text()),
                        ", "@,
                        oj.spec_text(),
                    );
                    assert(r@ =~= mid + "("@ + strutil::join_texts(
                        now.map_values(|t: Type| t.spec_text()),
                        ", "@,
                    ));
                }
                j = j + 1;
            }
            proof {
                assert(oseq.subrange(0, oseq.len() as int) =~= oseq);
            }
            r.append(")");
        }
        proof {
            assert(r@ =~= self.spec_render());
        }
        r
    }
}

} // verus!
