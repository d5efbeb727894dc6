//! The interface assembler: selects the declarations owned by one
//! interface, builds records, variants and functions, and composes the
//! final source unit — header, fixed runtime prelude, records, then
//! variants, then the trait of function signatures, never interleaved
//! and never sorted.

use vstd::prelude::*;
use crate::casing;
use crate::errors::Error;
use crate::strutil;
use crate::types::type_map::{has_unsupported_anon, first_unsupported_from, TypeMap};
use crate::types::value::{model_text, lemma_type_text_model, type_text_in};
use crate::codegen::function::{Function, model_items_resolve, model_results_resolve};
use crate::codegen::record::Record;
use crate::codegen::variant::{model_case_resolvable, Variant};
use crate::wit::{WitOwner, WitPackage, WitType, WitTypeDefKind};

verus! {

/// The name of an interface (trait) in Scala: the upper-camel
/// conversion of the schema interface name.
#[derive(Debug)]
pub struct InterfaceName(pub String);

impl InterfaceName {
    /// The rendered text of the name.
    pub open spec fn spec_text(self) -> Seq<char> {
        self.0@
    }

    /// Builds a Scala trait name by upper-camel case conversion.
    /// Converting a text already in upper camel shape leaves it
    /// unchanged.
    pub fn from(name: &str) -> (r: InterfaceName)
        ensures
            r.spec_text() == casing::upper_camel_of(name@),
            casing::is_wit_ident(name@) ==> r.spec_text() == casing::upper_camel_spec(name@),
            casing::is_upper_camel_text(name@) ==> r.spec_text() == name@,
    {
        InterfaceName(casing::to_upper_camel(name))
    }
}

/// Whether the interface at index `i` answers to `name`: its own name
/// matches, or it is unnamed and `name` is empty.
pub open spec fn iface_matches(pkg: WitPackage, i: int, name: Seq<char>) -> bool {
    match pkg.interfaces@[i].name {
        Some(nm) => nm@ == name,
        None => name.len() == 0,
    }
}

/// The first interface index at or after `i` that answers to `name`,
/// or the interface count if none does.
pub open spec fn first_iface_from(pkg: WitPackage, name: Seq<char>, i: int) -> int
    decreases pkg.interfaces@.len() - i,
{
    if i < 0 || i >= pkg.interfaces@.len() {
        pkg.interfaces@.len() as int
    } else if iface_matches(pkg, i, name) {
        i
    } else {
        first_iface_from(pkg, name, i + 1)
    }
}

/// Whether a schema interface named `name` exists.
pub open spec fn iface_found(pkg: WitPackage, name: Seq<char>) -> bool {
    first_iface_from(pkg, name, 0) < pkg.interfaces@.len()
}

/// Whether the definition at `id` is a named record owned by the
/// interface at index `iface`.
pub open spec fn is_owned_named_record(pkg: WitPackage, iface: int, id: int) -> bool {
    &&& 0 <= id < pkg.types@.len()
    &&& pkg.types@[id].owner matches WitOwner::Interface(k) && k as int == iface
    &&& pkg.types@[id].kind matches WitTypeDefKind::Record(_)
    &&& pkg.types@[id].name is Some
}

/// Whether the definition at `id` is a named variant owned by the
/// interface at index `iface`.
pub open spec fn is_owned_named_variant(pkg: WitPackage, iface: int, id: int) -> bool {
    &&& 0 <= id < pkg.types@.len()
    &&& pkg.types@[id].owner matches WitOwner::Interface(k) && k as int == iface
    &&& pkg.types@[id].kind matches WitTypeDefKind::Variant(_)
    &&& pkg.types@[id].name is Some
}

/// The ids, in arena order, of the named records owned by the
/// interface, starting at `i`.
pub open spec fn record_ids_from(pkg: WitPackage, iface: int, i: int) -> Seq<int>
    decreases pkg.types@.len() - i,
{
    if i < 0 || i >= pkg.types@.len() {
        Seq::empty()
    } else if is_owned_named_record(pkg, iface, i) {
        seq![i] + record_ids_from(pkg, iface, i + 1)
    } else {
        record_ids_from(pkg, iface, i + 1)
    }
}

/// The ids, in arena order, of the named variants owned by the
/// interface, starting at `i`.
pub open spec fn variant_ids_from(pkg: WitPackage, iface: int, i: int) -> Seq<int>
    decreases pkg.types@.len() - i,
{
    if i < 0 || i >= pkg.types@.len() {
        Seq::empty()
    } else if is_owned_named_variant(pkg, iface, i) {
        seq![i] + variant_ids_from(pkg, iface, i + 1)
    } else {
        variant_ids_from(pkg, iface, i + 1)
    }
}

/// Every field type of the record definition at `id` resolves in the
/// model.
pub open spec fn record_ok(pkg: WitPackage, id: int) -> bool {
    pkg.types@[id].kind matches WitTypeDefKind::Record(wr) ==> forall|f: int|
        0 <= f < wr.fields@.len() ==> model_text(pkg, (#[trigger] wr.fields@[f]).ty) is Some
}

/// Every payload type of the variant definition at `id` resolves in
/// the model.
pub open spec fn variant_ok(pkg: WitPackage, id: int) -> bool {
    pkg.types@[id].kind matches WitTypeDefKind::Variant(wv) ==> forall|c: int|
        0 <= c < wv.cases@.len() ==> model_case_resolvable(pkg, #[trigger] wv.cases@[c])
}

/// The built record standing for the definition at `id`: the
/// definition is a named record and the record was built from it.
pub open spec fn record_slot_ok(pkg: WitPackage, id: int, rec: Record, m: TypeMap) -> bool {
    &&& pkg.types@[id].name matches Some(rnm)
    &&& pkg.types@[id].kind matches WitTypeDefKind::Record(wr)
    &&& rec.built_from(rnm@, wr, m)
}

/// The built variant standing for the definition at `id`: the
/// definition is a named variant and the variant was built from it.
pub open spec fn variant_slot_ok(pkg: WitPackage, id: int, v: Variant, m: TypeMap) -> bool {
    &&& pkg.types@[id].name matches Some(vnm)
    &&& pkg.types@[id].kind matches WitTypeDefKind::Variant(wv)
    &&& v.built_from(vnm@, wv, m)
}

/// Every named record owned by the interface resolves in the model.
pub open spec fn all_records_ok(pkg: WitPackage, iface: int) -> bool {
    forall|id: int| #[trigger] is_owned_named_record(pkg, iface, id) ==> record_ok(pkg, id)
}

/// Every named variant owned by the interface resolves in the model.
pub open spec fn all_variants_ok(pkg: WitPackage, iface: int) -> bool {
    forall|id: int| #[trigger] is_owned_named_variant(pkg, iface, id) ==> variant_ok(pkg, id)
}

/// Every parameter and result type of every function of the interface
/// resolves in the model.
pub open spec fn all_functions_ok(pkg: WitPackage, iface: int) -> bool {
    forall|j: int|
        0 <= j < pkg.interfaces@[iface].functions@.len() ==> {
            let wf = #[trigger] pkg.interfaces@[iface].functions@[j];
            model_items_resolve(pkg, wf.params@) && model_results_resolve(pkg, wf.results)
        }
}

/// All the conditions under which generation for `name` succeeds: the
/// interface exists and is named, no anonymous definition has an
/// unsupported kind, and every type mentioned by its records, variants
/// and functions resolves.
pub open spec fn generation_ok(pkg: WitPackage, name: Seq<char>) -> bool {
    let iface = first_iface_from(pkg, name, 0);
    &&& iface_found(pkg, name)
    &&& !has_unsupported_anon(pkg)
    &&& pkg.interfaces@[iface].name is Some
    &&& all_records_ok(pkg, iface)
    &&& all_variants_ok(pkg, iface)
    &&& all_functions_ok(pkg, iface)
}

/// An interface (trait) in Scala: a name, and the records, variants
/// and function signatures it owns, each in schema order.
#[derive(Debug)]
pub struct Interface {
    pub name: InterfaceName,
    pub records: Vec<Record>,
    pub variants: Vec<Variant>,
    pub functions: Vec<Function>,
}

/// The record declarations, one per named owned record, in arena
/// order.
pub open spec fn records_block(records: Seq<Record>) -> Seq<char> {
    strutil::join_texts(records.map_values(|r: Record| r.spec_render()), "\n"@)
}

/// The variant declarations, one per named owned variant, in arena
/// order.
pub open spec fn variants_block(variants: Seq<Variant>) -> Seq<char> {
    strutil::join_texts(variants.map_values(|v: Variant| v.spec_render()), "\n"@)
}

/// The abstract signatures, one per function, in schema order.
pub open spec fn functions_block(functions: Seq<Function>) -> Seq<char> {
    strutil::join_texts(functions.map_values(|f: Function| f.spec_render()), "\n"@)
}

impl Interface {
    /// What a built interface holds for the schema and one resolver
    /// map: the upper-camel trait name, one record per named owned
    /// record in arena order, one variant likewise, and one signature
    /// per function in schema order.
    pub open spec fn built_with(self, pkg: WitPackage, name: Seq<char>, m: TypeMap) -> bool {
        let iface = first_iface_from(pkg, name, 0);
        let rids = record_ids_from(pkg, iface, 0);
        let vids = variant_ids_from(pkg, iface, 0);
        &&& m.resolves(pkg)
        &&& iface_found(pkg, name)
        &&& pkg.interfaces@[iface].name matches Some(nm) && self.name.spec_text()
            == casing::upper_camel_of(nm@) && (casing::is_wit_ident(nm@)
            ==> self.name.spec_text() == casing::upper_camel_spec(nm@))
        &&& self.records@.len() == rids.len()
        &&& forall|k: int|
            0 <= k < rids.len() ==> record_slot_ok(pkg, rids[k], #[trigger] self.records@[k], m)
        &&& self.variants@.len() == vids.len()
        &&& forall|k: int|
            0 <= k < vids.len() ==> variant_slot_ok(pkg, vids[k], #[trigger] self.variants@[k], m)
        &&& self.functions@.len() == pkg.interfaces@[iface].functions@.len()
        &&& forall|k: int|
            0 <= k < self.functions@.len() ==> (#[trigger] self.functions@[k]).built_from(
                pkg.interfaces@[iface].functions@[k],
                m,
            )
    }

    /// What a built interface holds for the schema alone: as
    /// [`Interface::built_with`], through some resolver map of the
    /// schema — and every such map carries the same rendered texts.
    pub open spec fn built_from(self, pkg: WitPackage, name: Seq<char>) -> bool {
        exists|m: TypeMap| self.built_with(pkg, name, m)
    }

    /// Builds the `Interface` for the schema interface answering to
    /// `name`: looks the interface up, builds the resolver mapping
    /// over the whole schema, then the records, the variants and the
    /// function signatures it owns. Fails, in this order of priority,
    /// when the interface is absent, when an anonymous definition has
    /// an unsupported kind, when the interface carries no name, or
    /// when a record field, variant payload, or function parameter or
    /// result type does not resolve.
    pub fn from_wit(pkg: &WitPackage, name: &str) -> (r: Result<Interface, Error>)
        ensures
            (r is Ok <==> generation_ok(*pkg, name@)),
            r matches Ok(itf) ==> itf.built_from(*pkg, name@),
            r matches Err(e) ==> !iface_found(*pkg, name@) ==> (e matches Error::MissingInterface {
                name: n,
            } && n@ == name@),
            r matches Err(e) ==> iface_found(*pkg, name@) && has_unsupported_anon(*pkg) ==> e
                == (Error::UnsupportedKind { id: first_unsupported_from(*pkg, 0) as usize }),
            r matches Err(e) ==> iface_found(*pkg, name@) && !has_unsupported_anon(*pkg)
                && pkg.interfaces@[first_iface_from(*pkg, name@, 0)].name is None ==> e
                == Error::UnnamedInterface,
            r matches Err(e) ==> iface_found(*pkg, name@) && !has_unsupported_anon(*pkg)
                && pkg.interfaces@[first_iface_from(*pkg, name@, 0)].name is Some ==> (e
                matches Error::Lookup { id } && model_text(*pkg, WitType::Id(id)) is None),
    {
        let idx = match get_interface(pkg, name) {
            Some(i) => i,
            None => { return Err(Error::MissingInterface { name: name.to_owned() }) },
        };
        let m = match TypeMap::from_schema(pkg) {
            Ok(m) => m,
            Err(e) => { return Err(e) },
        };
        let iname = match &pkg.interfaces[idx].name {
            Some(nm) => InterfaceName::from(nm.as_str()),
            None => { return Err(Error::UnnamedInterface) },
        };
        let ghost idxi = idx as int;
        let n = pkg.types.len();

        // The records owned by the interface, in arena order.
        let ghost rids = record_ids_from(*pkg, idxi, 0);
        let mut records: Vec<Record> = Vec::new();
        let mut i: usize = 0;
        while i < n
            invariant
                0 <= i <= n,
                n == pkg.types@.len(),
                m.resolves(*pkg),
                0 <= idxi < pkg.interfaces@.len(),
                idxi == idx as int,
                idxi == first_iface_from(*pkg, name@, 0),
                iface_found(*pkg, name@),
                !has_unsupported_anon(*pkg),
                pkg.interfaces@[idxi].name is Some,
                rids == record_ids_from(*pkg, idxi, 0),
                records@.len() <= rids.len(),
                record_ids_from(*pkg, idxi, i as int) =~= rids.skip(records@.len() as int),
                forall|k: int|
                    0 <= k < records@.len() ==> record_slot_ok(
                        *pkg,
                        rids[k],
                        #[trigger] records@[k],
                        m,
                    ),
                forall|id: int|
                    0 <= id < i && is_owned_named_record(*pkg, idxi, id) ==> record_ok(*pkg, id),
            decreases n - i,
        {
            let d = &pkg.types[i];
            let ghost cnt = records@.len() as int;
            let mut took = false;
            if let WitOwner::Interface(oid) = d.owner {
                if oid == idx {
                    if let WitTypeDefKind::Record(wr) = &d.kind {
                        if let Some(nm) = &d.name {
                            let rec = match Record::from_wit(nm.as_str(), wr, &m) {
                                Ok(rec) => rec,
                                Err(e) => {
                                    proof {
                                        assert(is_owned_named_record(*pkg, idxi, i as int));
                                        let k = crate::codegen::record::first_unresolved_field(
                                            wr.fields@,
                                            m,
                                            0,
                                        );
                                        lemma_type_text_model(m, *pkg, wr.fields@[k].ty);
                                        assert(!record_ok(*pkg, i as int));
                                        assert(!all_records_ok(*pkg, idxi));
                                    }
                                    return Err(e);
                                },
                            };
                            let ghost grec = rec;
                            records.push(rec);
                            took = true;
                            proof {
                                assert forall|f: int| 0 <= f < wr.fields@.len() implies model_text(
                                    *pkg,
                                    (#[trigger] wr.fields@[f]).ty,
                                ) is Some by {
                                    lemma_type_text_model(m, *pkg, wr.fields@[f].ty);
                                }
                                assert(record_ok(*pkg, i as int));
                                assert(is_owned_named_record(*pkg, idxi, i as int));
                                let rest = record_ids_from(*pkg, idxi, i as int + 1);
                                assert(record_ids_from(*pkg, idxi, i as int) == seq![i as int]
                                    + rest);
                                assert(rids.skip(cnt).len() >= 1);
                                assert(cnt < rids.len());
                                assert(rids.skip(cnt)[0] == rids[cnt]);
                                assert(rids[cnt] == i as int);
                                assert(pkg.types@[rids[cnt]].name == Some(*nm));
                                assert(pkg.types@[rids[cnt]].kind == WitTypeDefKind::Record(*wr));
                                assert(records@[cnt] == grec);
                                assert(grec.built_from(nm@, *wr, m));
                                assert(record_slot_ok(*pkg, i as int, grec, m));
                            }
                        }
                    }
                }
            }
            proof {
                let rest = record_ids_from(*pkg, idxi, i as int + 1);
                if is_owned_named_record(*pkg, idxi, i as int) {
                    assert(took);
                    assert(record_ids_from(*pkg, idxi, i as int) == seq![i as int] + rest);
                    assert(rest =~= rids.skip(records@.len() as int)) by {
                        assert forall|q: int| 0 <= q < rest.len() implies rest[q] == rids.skip(
                            cnt + 1,
                        )[q] by {
                            assert(rids.skip(cnt)[q + 1] == (seq![i as int] + rest)[q + 1]);
                        }
                    }
                } else {
                    assert(!took);
                    assert(record_ids_from(*pkg, idxi, i as int) == rest);
                }
            }
            i = i + 1;
        }
        proof {
            assert(records@.len() == rids.len()) by {
                assert(record_ids_from(*pkg, idxi, n as int) =~= Seq::<int>::empty());
            }
            assert(all_records_ok(*pkg, idxi));
        }

        // The variants owned by the interface, in arena order.
        let ghost vids = variant_ids_from(*pkg, idxi, 0);
        let mut variants: Vec<Variant> = Vec::new();
        let mut i: usize = 0;
        while i < n
            invariant
                0 <= i <= n,
                n == pkg.types@.len(),
                m.resolves(*pkg),
                0 <= idxi < pkg.interfaces@.len(),
                idxi == idx as int,
                idxi == first_iface_from(*pkg, name@, 0),
                iface_found(*pkg, name@),
                !has_unsupported_anon(*pkg),
                pkg.interfaces@[idxi].name is Some,
                all_records_ok(*pkg, idxi),
                vids == variant_ids_from(*pkg, idxi, 0),
                variants@.len() <= vids.len(),
                variant_ids_from(*pkg, idxi, i as int) =~= vids.skip(variants@.len() as int),
                forall|k: int|
                    0 <= k < variants@.len() ==> variant_slot_ok(
                        *pkg,
                        vids[k],
                        #[trigger] variants@[k],
                        m,
                    ),
                forall|id: int|
                    0 <= id < i && is_owned_named_variant(*pkg, idxi, id) ==> variant_ok(
                        *pkg,
                        id,
                    ),
            decreases n - i,
        {
            let d = &pkg.types[i];
            let ghost cnt = variants@.len() as int;
            let mut took = false;
            if let WitOwner::Interface(oid) = d.owner {
                if oid == idx {
                    if let WitTypeDefKind::Variant(wv) = &d.kind {
                        if let Some(nm) = &d.name {
                            let v = match Variant::from_wit(nm.as_str(), wv, &m) {
                                Ok(v) => v,
                                Err(e) => {
                                    proof {
                                        assert(is_owned_named_variant(*pkg, idxi, i as int));
                                        let k = crate::codegen::variant::first_unresolved_case(
                                            wv.cases@,
                                            m,
                                            0,
                                        );
                                        if let Some(pt) = wv.cases@[k].ty {
                                            lemma_type_text_model(m, *pkg, pt);
                                        }
                                        assert(!variant_ok(*pkg, i as int));
                                        assert(!all_variants_ok(*pkg, idxi));
                                    }
                                    return Err(e);
                                },
                            };
                            let ghost gv = v;
                            variants.push(v);
                            took = true;
                            proof {
                                assert forall|c: int| 0 <= c < wv.cases@.len() implies
                                model_case_resolvable(*pkg, #[trigger] wv.cases@[c]) by {
                                    if let Some(pt) = wv.cases@[c].ty {
                                        lemma_type_text_model(m, *pkg, pt);
                                    }
                                }
                                assert(variant_ok(*pkg, i as int));
                                assert(is_owned_named_variant(*pkg, idxi, i as int));
                                let rest = variant_ids_from(*pkg, idxi, i as int + 1);
                                assert(variant_ids_from(*pkg, idxi, i as int) == seq![i as int]
                                    + rest);
                                assert(vids.skip(cnt).len() >= 1);
                                assert(cnt < vids.len());
                                assert(vids.skip(cnt)[0] == vids[cnt]);
                                assert(vids[cnt] == i as int);
                                assert(pkg.types@[vids[cnt]].name == Some(*nm));
                                assert(pkg.types@[vids[cnt]].kind == WitTypeDefKind::Variant(
                                    *wv,
                                ));
                                assert(variants@[cnt] == gv);
                                assert(gv.built_from(nm@, *wv, m));
                                assert(variant_slot_ok(*pkg, i as int, gv, m));
                            }
                        }
                    }
                }
            }
            proof {
                let rest = variant_ids_from(*pkg, idxi, i as int + 1);
                if is_owned_named_variant(*pkg, idxi, i as int) {
                    assert(took);
                    assert(variant_ids_from(*pkg, idxi, i as int) == seq![i as int] + rest);
                    assert(rest =~= vids.skip(variants@.len() as int)) by {
                        assert forall|q: int| 0 <= q < rest.len() implies rest[q] == vids.skip(
                            cnt + 1,
                        )[q] by {
                            assert(vids.skip(cnt)[q + 1] == (seq![i as int] + rest)[q + 1]);
                        }
                    }
                } else {
                    assert(!took);
                    assert(variant_ids_from(*pkg, idxi, i as int) == rest);
                }
            }
            i = i + 1;
        }
        proof {
            assert(variants@.len() == vids.len()) by {
                assert(variant_ids_from(*pkg, idxi, n as int) =~= Seq::<int>::empty());
            }
            assert(all_variants_ok(*pkg, idxi));
        }

        // The function signatures of the interface, in schema order.
        let fns = &pkg.interfaces[idx].functions;
        let nf = fns.len();
        let mut functions: Vec<Function> = Vec::new();
        let mut j: usize = 0;
        while j < nf
            invariant
                0 <= j <= nf,
                m.resolves(*pkg),
                0 <= idxi < pkg.interfaces@.len(),
                idxi == idx as int,
                idxi == first_iface_from(*pkg, name@, 0),
                iface_found(*pkg, name@),
                !has_unsupported_anon(*pkg),
                pkg.interfaces@[idxi].name is Some,
                fns@ == pkg.interfaces@[idxi].functions@,
                nf == fns@.len(),
                all_records_ok(*pkg, idxi),
                all_variants_ok(*pkg, idxi),
                functions@.len() == j,
                forall|k: int|
                    0 <= k < j ==> (#[trigger] functions@[k]).built_from(fns@[k], m),
                forall|k: int|
                    0 <= k < j ==> model_items_resolve(*pkg, (#[trigger] fns@[k]).params@)
                        && model_results_resolve(*pkg, fns@[k].results),
            decreases nf - j,
        {
            let f = match Function::from_wit(&fns[j], &m) {
                Ok(f) => f,
                Err(e) => {
                    proof {
                        crate::codegen::function::lemma_function_resolve_model(
                            m,
                            *pkg,
                            fns@[j as int],
                        );
                        assert(!all_functions_ok(*pkg, idxi));
                    }
                    return Err(e);
                },
            };
            proof {
                crate::codegen::function::lemma_function_resolve_model(m, *pkg, fns@[j as int]);
            }
            functions.push(f);
            j = j + 1;
        }
        proof {
            assert(all_functions_ok(*pkg, idxi));
        }
        let itf = Interface { name: iname, records, variants, functions };
        proof {
            assert(itf.built_with(*pkg, name@, m));
        }
        Ok(itf)
    }

    /// The full rendered source unit: header and package line, the
    /// imports, all records, all variants, then the trait holding the
    /// fixed runtime prelude — the three generic wrappers the resolver
    /// synthesizes instantiations of — and the abstract signatures.
    pub open spec fn spec_render(self, package: Seq<char>) -> Seq<char> {
        "\n                // Generated by scalajs-wit-bindgen\n                package "@
            + package
            + "\n\n                import scala.scalajs.js\n                import scala.scalajs.js.JSConverters._\n\n                "@
            + records_block(self.records@) + "\n\n                "@ + variants_block(
            self.variants@,
        ) + "\n\n                trait "@ + self.name.spec_text() + prelude_text()
            + functions_block(self.functions@) + "\n                }\n            "@
    }

    /// Renders the source unit.
    pub fn render(&self, package: &str) -> (r: String)
        ensures
            r@ == self.spec_render(package@),
    {
        let ghost rseq = self.records@;
        let mut recs = String::new();
        let nr = self.records.len();
        let mut i: usize = 0;
        while i < nr
            invariant
                0 <= i <= nr,
                rseq == self.records@,
                nr == rseq.len(),
                recs@ == records_block(rseq.subrange(0, i as int)),
            decreases nr - i,
        {
            if i > 0 {
                recs.append("\n");
            }
            let one = self.records[i].render();
            recs.append(one.as_str());
            proof {
                let pre = rseq.subrange(0, i as int);
                let now = rseq.subrange(0, i as int + 1);
                let ri = rseq[i as int];
                assert(now =~= pre.push(ri));
                assert(now.map_values(|r: Record| r.spec_render()) =~= pre.map_values(
                    |r: Record| r.spec_render(),
                ).push(ri.spec_render()));
                strutil::lemma_join_push(
                    pre.map_values(|r: Record| r.spec_render()),
                    "\n"@,
                    ri.spec_render(),
                );
                assert(recs@ =~= records_block(now));
            }
            i = i + 1;
        }
        proof {
            assert(rseq.subrange(0, rseq.len() as int) =~= rseq);
        }
        let ghost vseq = self.variants@;
        let mut vars = String::new();
        let nv = self.variants.len();
        let mut i: usize = 0;
        while i < nv
            invariant
                0 <= i <= nv,
                vseq == self.variants@,
                nv == vseq.len(),
                vars@ == variants_block(vseq.subrange(0, i as int)),
            decreases nv - i,
        {
            if i > 0 {
                vars.append("\n");
            }
            let one = self.variants[i].render();
            vars.append(one.as_str());
            proof {
                let pre = vseq.subrange(0, i as int);
                let now = vseq.subrange(0, i as int + 1);
                let vi = vseq[i as int];
                assert(now =~= pre.push(vi));
                assert(now.map_values(|v: Variant| v.spec_render()) =~= pre.map_values(
                    |v: Variant| v.spec_render(),
                ).push(vi.spec_render()));
                strutil::lemma_join_push(
                    pre.map_values(|v: Variant| v.spec_render()),
                    "\n"@,
                    vi.spec_render(),
                );
                assert(vars@ =~= variants_block(now));
            }
            i = i + 1;
        }
        proof {
            assert(vseq.subrange(0, vseq.len() as int) =~= vseq);
        }
        let ghost fseq = self.functions@;
        let mut funs = String::new();
        let nf = self.functions.len();
        let mut i: usize = 0;
        while i < nf
            invariant
                0 <= i <= nf,
                fseq == self.functions@,
                nf == fseq.len(),
                funs@ == functions_block(fseq.subrange(0, i as int)),
            decreases nf - i,
        {
            if i > 0 {
                funs.append("\n");
            }
            let one = self.functions[i].render();
            funs.append(one.as_str());
            proof {
                let pre = fseq.subrange(0, i as int);
                let now = fseq.subrange(0, i as int + 1);
                let fi = fseq[i as int];
                assert(now =~= pre.push(fi));
                assert(now.map_values(|f: Function| f.spec_render()) =~= pre.map_values(
                    |f: Function| f.spec_render(),
                ).push(fi.spec_render()));
                strutil::lemma_join_push(
                    pre.map_values(|f: Function| f.spec_render()),
                    "\n"@,
                    fi.spec_render(),
                );
                assert(funs@ =~= functions_block(now));
            }
            i = i + 1;
        }
        proof {
            assert(fseq.subrange(0, fseq.len() as int) =~= fseq);
        }
        let mut r = String::new();
        r.append("\n                // Generated by scalajs-wit-bindgen\n                package ");
        r.append(package);
        r.append(
            "\n\n                import scala.scalajs.js\n                import scala.scalajs.js.JSConverters._\n\n                ",
        );
        r.append(recs.as_str());
        r.append("\n\n                ");
        r.append(vars.as_str());
        r.append("\n\n                trait ");
        r.append(self.name.0.as_str());
        r.append(
            " {\n                    type WitResult[+Ok, +Err] = Ok\n                    object WitResult {\n                        def ok[Ok](value: Ok): WitResult[Ok, Nothing] = value\n\n                        def err[Err](value: Err): WitResult[Nothing, Err] = throw js.JavaScriptException(value)\n\n                        val unit: WitResult[Unit, Nothing] = ()\n                    }\n\n                    type WitOption[+A] = js.UndefOr[A]\n                    object WitOption {\n                        def some[A](value: A): WitOption[A] = value\n\n                        val none: WitOption[Nothing] = js.undefined\n\n                        def fromOption[A](option: Option[A]) =\n                        option match {\n                            case Some(value) => value.asInstanceOf[js.UndefOr[A]]\n                            case None        => js.undefined\n                        }\n                    }\n\n                    type WitList[A] = js.Array[A]\n                    object WitList {\n                        def fromList[A](list: List[A]): WitList[A] = list.toJSArray\n                    }\n                    \n                    ",
        );
        r.append(funs.as_str());
        r.append("\n                }\n            ");
        proof {
            assert(r@ =~= self.spec_render(package@));
        }
        r
    }
}

/// Two interfaces built from the same schema for the same name,
/// through any two resolver maps, render identically: the whole source
/// unit is a function of the schema, the interface name and the
/// package name alone.
pub proof fn lemma_interface_render_unique(
    pkg: WitPackage,
    name: Seq<char>,
    a: Interface,
    b: Interface,
    package: Seq<char>,
)
    requires
        a.built_from(pkg, name),
        b.built_from(pkg, name),
    ensures
        a.spec_render(package) == b.spec_render(package),
{
    let m1 = choose|m: TypeMap| a.built_with(pkg, name, m);
    let m2 = choose|m: TypeMap| b.built_with(pkg, name, m);
    let iface = first_iface_from(pkg, name, 0);
    let rids = record_ids_from(pkg, iface, 0);
    let vids = variant_ids_from(pkg, iface, 0);
    assert(a.name.spec_text() == b.name.spec_text());
    assert forall|k: int| 0 <= k < rids.len() implies (#[trigger] a.records@[k]).spec_render()
        == b.records@[k].spec_render() by {
        assert(record_slot_ok(pkg, rids[k], a.records@[k], m1));
        assert(record_slot_ok(pkg, rids[k], b.records@[k], m2));
        if let Some(rnm) = pkg.types@[rids[k]].name {
            if let WitTypeDefKind::Record(wr) = pkg.types@[rids[k]].kind {
                crate::codegen::record::lemma_record_render_unique(
                    pkg,
                    a.records@[k],
                    b.records@[k],
                    rnm@,
                    wr,
                    m1,
                    m2,
                );
            }
        }
    }
    assert(a.records@.map_values(|r: Record| r.spec_render()) =~= b.records@.map_values(
        |r: Record| r.spec_render(),
    ));
    assert forall|k: int| 0 <= k < vids.len() implies (#[trigger] a.variants@[k]).spec_render()
        == b.variants@[k].spec_render() by {
        assert(variant_slot_ok(pkg, vids[k], a.variants@[k], m1));
        assert(variant_slot_ok(pkg, vids[k], b.variants@[k], m2));
        if let Some(vnm) = pkg.types@[vids[k]].name {
            if let WitTypeDefKind::Variant(wv) = pkg.types@[vids[k]].kind {
                crate::codegen::variant::lemma_variant_render_unique(
                    pkg,
                    a.variants@[k],
                    b.variants@[k],
                    vnm@,
                    wv,
                    m1,
                    m2,
                );
            }
        }
    }
    assert(a.variants@.map_values(|v: Variant| v.spec_render()) =~= b.variants@.map_values(
        |v: Variant| v.spec_render(),
    ));
    assert forall|k: int| 0 <= k < a.functions@.len() implies (
    #[trigger] a.functions@[k]).spec_render() == b.functions@[k].spec_render() by {
        crate::codegen::function::lemma_function_render_unique(
            pkg,
            a.functions@[k],
            b.functions@[k],
            pkg.interfaces@[iface].functions@[k],
            m1,
            m2,
        );
    }
    assert(a.functions@.map_values(|f: Function| f.spec_render()) =~= b.functions@.map_values(
        |f: Function| f.spec_render(),
    ));
}

/// The fixed runtime prelude that opens the trait: the three generic
/// wrapper types — result, option, list — whose names match exactly
/// what the resolver synthesizes for anonymous types.
pub open spec fn prelude_text() -> Seq<char> {
    " {\n                    type WitResult[+Ok, +Err] = Ok\n                    object WitResult {\n                        def ok[Ok](value: Ok): WitResult[Ok, Nothing] = value\n\n                        def err[Err](value: Err): WitResult[Nothing, Err] = throw js.JavaScriptException(value)\n\n                        val unit: WitResult[Unit, Nothing] = ()\n                    }\n\n                    type WitOption[+A] = js.UndefOr[A]\n                    object WitOption {\n                        def some[A](value: A): WitOption[A] = value\n\n                        val none: WitOption[Nothing] = js.undefined\n\n                        def fromOption[A](option: Option[A]) =\n                        option match {\n                            case Some(value) => value.asInstanceOf[js.UndefOr[A]]\n                            case None        => js.undefined\n                        }\n                    }\n\n                    type WitList[A] = js.Array[A]\n                    object WitList {\n                        def fromList[A](list: List[A]): WitList[A] = list.toJSArray\n                    }\n                    \n                    "@
}

/// Finds the first interface that answers to `name`, in arena order.
fn get_interface(pkg: &WitPackage, name: &str) -> (r: Option<usize>)
    ensures
        (r is Some <==> iface_found(*pkg, name@)),
        r matches Some(i) ==> i as int == first_iface_from(*pkg, name@, 0),
{
    let target: String = name.to_owned();
    let n = pkg.interfaces.len();
    let mut i: usize = 0;
    while i < n
        invariant
            0 <= i <= n,
            n == pkg.interfaces@.len(),
            target@ == name@,
            first_iface_from(*pkg, name@, 0) == first_iface_from(*pkg, name@, i as int),
        decreases n - i,
    {
        let matched = match &pkg.interfaces[i].name {
            Some(nm) => *nm == target,
            None => target.as_str().is_empty(),
        };
        if matched {
            return Some(i);
        }
        i = i + 1;
    }
    None
}

} // verus!
