//! Records: a trait of read-only accessors plus a factory `apply`
//! mirroring field order.

use vstd::prelude::*;
use crate::casing;
use crate::errors::Error;
use crate::strutil;
use crate::types::names::{ConcreteName, TypeName};
use crate::types::type_map::TypeMap;
use crate::types::value::{lemma_type_text_model, type_text_in, Type};
use crate::wit::{WitField, WitPackage, WitRecord, WitType};

verus! {

/// The name of a record field in Scala: the lower-camel conversion of
/// the schema field name.
#[derive(Debug)]
pub struct FieldName(pub String);

impl FieldName {
    /// The rendered text of the name.
    pub open spec fn spec_text(self) -> Seq<char> {
        self.0@
    }

    /// Builds a Scala field name by lower-camel case conversion.
    /// Converting a text already in lower camel shape leaves it
    /// unchanged.
    pub fn from(name: &str) -> (r: FieldName)
        ensures
            r.spec_text() == casing::camel_of(name@),
            casing::is_wit_ident(name@) ==> r.spec_text() == casing::camel_spec(name@),
            casing::is_camel_text(name@) ==> r.spec_text() == name@,
    {
        FieldName(casing::to_camel(name))
    }
}

/// A record field in Scala: a name and its resolved type.
#[derive(Debug)]
pub struct Field {
    pub name: FieldName,
    pub ty: Type,
}

impl Field {
    /// `name: Type`
    pub open spec fn typed_text(self) -> Seq<char> {
        self.name.spec_text() + ": "@ + self.ty.spec_text()
    }

    /// `val name: Type` — one read-only accessor declaration.
    pub open spec fn accessor_text(self) -> Seq<char> {
        "val "@ + self.name.spec_text() + ": "@ + self.ty.spec_text()
    }

    /// `val name0: Type = name` — the temporary the factory copies
    /// through.
    pub open spec fn temp_text(self) -> Seq<char> {
        "val "@ + self.name.spec_text() + "0: "@ + self.ty.spec_text() + " = "@
            + self.name.spec_text()
    }

    /// `val name: Type = name0` — the accessor assignment in the
    /// constructed object.
    pub open spec fn assign_text(self) -> Seq<char> {
        "val "@ + self.name.spec_text() + ": "@ + self.ty.spec_text() + " = "@
            + self.name.spec_text() + "0"@
    }

    /// What a built field holds for a schema field: the camel-cased
    /// name and the resolved type text.
    pub open spec fn built_from(self, wf: WitField, m: TypeMap) -> bool {
        &&& self.name.spec_text() == casing::camel_of(wf.name@)
        &&& casing::is_wit_ident(wf.name@) ==> self.name.spec_text() == casing::camel_spec(
            wf.name@,
        )
        &&& Some(self.ty.spec_text()) == type_text_in(m, wf.ty)
    }

    /// Builds a `Field` from a schema field, resolving its type
    /// against the map; an unresolvable type id is a fatal lookup
    /// error naming that id.
    pub fn from_wit(field: &WitField, type_map: &TypeMap) -> (r: Result<Field, Error>)
        ensures
            (r is Ok <==> type_text_in(*type_map, field.ty) is Some),
            r matches Ok(f) ==> f.built_from(*field, *type_map),
            r matches Err(e) ==> field.ty matches WitType::Id(j) && e == (Error::Lookup {
                id: j,
            }),
    {
        let ty = match Type::from_wit(field.ty, type_map) {
            Ok(t) => t,
            Err(e) => { return Err(e) },
        };
        Ok(Field { name: FieldName::from(field.name.as_str()), ty })
    }
}

/// The first index at or after `i` of a schema field whose type does
/// not resolve, or the field count if all resolve.
pub open spec fn first_unresolved_field(fields: Seq<WitField>, m: TypeMap, i: int) -> int
    decreases fields.len() - i,
{
    if i < 0 || i >= fields.len() {
        fields.len() as int
    } else if type_text_in(m, fields[i].ty) is None {
        i
    } else {
        first_unresolved_field(fields, m, i + 1)
    }
}

/// A record in Scala: a concrete name and its fields in declaration
/// order.
#[derive(Debug)]
pub struct Record {
    pub name: TypeName,
    pub fields: Vec<Field>,
}

/// The accessor declarations of all fields, one per line, in order.
pub open spec fn fields_block(fields: Seq<Field>) -> Seq<char> {
    strutil::join_texts(fields.map_values(|f: Field| f.accessor_text()), "\n"@)
}

/// The factory parameter list, mirroring field order.
pub open spec fn params_block(fields: Seq<Field>) -> Seq<char> {
    strutil::join_texts(fields.map_values(|f: Field| f.typed_text()), ", "@)
}

/// The temporaries of the factory body, one per line, in order.
pub open spec fn temps_block(fields: Seq<Field>) -> Seq<char> {
    strutil::join_texts(fields.map_values(|f: Field| f.temp_text()), "\n"@)
}

/// The accessor assignments of the factory body, one per line, in
/// order.
pub open spec fn assigns_block(fields: Seq<Field>) -> Seq<char> {
    strutil::join_texts(fields.map_values(|f: Field| f.assign_text()), "\n"@)
}

/// A record with exactly two fields renders exactly two accessor
/// declarations, in field order, and a two-parameter factory whose
/// parameter order matches — likewise for the temporaries and the
/// accessor assignments of the factory body.
pub proof fn lemma_record_two_fields(f1: Field, f2: Field)
    ensures
        fields_block(seq![f1, f2]) == f1.accessor_text() + "\n"@ + f2.accessor_text(),
        params_block(seq![f1, f2]) == f1.typed_text() + ", "@ + f2.typed_text(),
        temps_block(seq![f1, f2]) == f1.temp_text() + "\n"@ + f2.temp_text(),
        assigns_block(seq![f1, f2]) == f1.assign_text() + "\n"@ + f2.assign_text(),
{
    let s = seq![f1, f2];
    assert(s.map_values(|f: Field| f.accessor_text()) =~= seq![
        f1.accessor_text(),
        f2.accessor_text(),
    ]);
    strutil::lemma_join_two(f1.accessor_text(), f2.accessor_text(), "\n"@);
    assert(s.map_values(|f: Field| f.typed_text()) =~= seq![f1.typed_text(), f2.typed_text()]);
    strutil::lemma_join_two(f1.typed_text(), f2.typed_text(), ", "@);
    assert(s.map_values(|f: Field| f.temp_text()) =~= seq![f1.temp_text(), f2.temp_text()]);
    strutil::lemma_join_two(f1.temp_text(), f2.temp_text(), "\n"@);
    assert(s.map_values(|f: Field| f.assign_text()) =~= seq![f1.assign_text(), f2.assign_text()]);
    strutil::lemma_join_two(f1.assign_text(), f2.assign_text(), "\n"@);
}

/// Two records built from the same named schema record, through any
/// two resolver maps of the schema, render identically: the rendered
/// declaration is a function of the schema alone.
pub proof fn lemma_record_render_unique(
    pkg: WitPackage,
    a: Record,
    b: Record,
    name: Seq<char>,
    wr: WitRecord,
    m1: TypeMap,
    m2: TypeMap,
)
    requires
        m1.resolves(pkg),
        m2.resolves(pkg),
        a.built_from(name, wr, m1),
        b.built_from(name, wr, m2),
    ensures
        a.spec_render() == b.spec_render(),
{
    assert(a.name.spec_text() == b.name.spec_text());
    assert forall|i: int| 0 <= i < a.fields@.len() implies {
        &&& (#[trigger] a.fields@[i]).accessor_text() == b.fields@[i].accessor_text()
        &&& a.fields@[i].typed_text() == b.fields@[i].typed_text()
        &&& a.fields@[i].temp_text() == b.fields@[i].temp_text()
        &&& a.fields@[i].assign_text() == b.fields@[i].assign_text()
    } by {
        assert(a.fields@[i].built_from(wr.fields@[i], m1));
        assert(b.fields@[i].built_from(wr.fields@[i], m2));
        lemma_type_text_model(m1, pkg, wr.fields@[i].ty);
        lemma_type_text_model(m2, pkg, wr.fields@[i].ty);
    }
    assert(a.fields@.map_values(|f: Field| f.accessor_text()) =~= b.fields@.map_values(
        |f: Field| f.accessor_text(),
    ));
    assert(a.fields@.map_values(|f: Field| f.typed_text()) =~= b.fields@.map_values(
        |f: Field| f.typed_text(),
    ));
    assert(a.fields@.map_values(|f: Field| f.temp_text()) =~= b.fields@.map_values(
        |f: Field| f.temp_text(),
    ));
    assert(a.fields@.map_values(|f: Field| f.assign_text()) =~= b.fields@.map_values(
        |f: Field| f.assign_text(),
    ));
}

impl Record {
    /// What a built record holds for a named schema record: the
    /// upper-camel concrete name, and one field per schema field, in
    /// order.
    pub open spec fn built_from(self, name: Seq<char>, wr: WitRecord, m: TypeMap) -> bool {
        &&& self.name matches TypeName::Concrete(c) && c.spec_text() == casing::upper_camel_of(
            name,
        )
        &&& casing::is_wit_ident(name) ==> self.name.spec_text() == casing::upper_camel_spec(name)
        &&& self.fields@.len() == wr.fields@.len()
        &&& forall|i: int|
            0 <= i < wr.fields@.len() ==> (#[trigger] self.fields@[i]).built_from(
                wr.fields@[i],
                m,
            )
    }

    /// Builds a `Record` from a named schema record: every field type
    /// is resolved against the map; the first unresolvable field type
    /// is a fatal lookup error naming its id.
    pub fn from_wit(name: &str, record: &WitRecord, type_map: &TypeMap) -> (r: Result<
        Record,
        Error,
    >)
        ensures
            (r is Ok <==> forall|i: int|
                0 <= i < record.fields@.len() ==> type_text_in(
                    *type_map,
                    (#[trigger] record.fields@[i]).ty,
                ) is Some),
            r matches Ok(rec) ==> rec.built_from(name@, *record, *type_map),
            r matches Err(e) ==> {
                let k = first_unresolved_field(record.fields@, *type_map, 0);
                &&& 0 <= k < record.fields@.len()
                &&& type_text_in(*type_map, record.fields@[k].ty) is None
                &&& record.fields@[k].ty matches WitType::Id(j) && e == (Error::Lookup { id: j })
            },
    {
        let mut fields: Vec<Field> = Vec::new();
        let n = record.fields.len();
        let mut i: usize = 0;
        while i < n
            invariant
                0 <= i <= n,
                n == record.fields@.len(),
                fields@.len() == i,
                forall|k: int|
                    0 <= k < i ==> type_text_in(*type_map, (#[trigger] record.fields@[k]).ty)
                        is Some,
                forall|k: int|
                    0 <= k < i ==> (#[trigger] fields@[k]).built_from(
                        record.fields@[k],
                        *type_map,
                    ),
                first_unresolved_field(record.fields@, *type_map, 0) == first_unresolved_field(
                    record.fields@,
                    *type_map,
                    i as int,
                ),
            decreases n - i,
        {
            match Field::from_wit(&record.fields[i], type_map) {
                Ok(f) => {
                    fields.push(f);
                },
                Err(e) => {
                    return Err(e);
                },
            }
            i = i + 1;
        }
        Ok(Record { name: TypeName::Concrete(ConcreteName::from(name)), fields })
    }

    /// The full rendered declaration: the trait of accessors and the
    /// factory object.
    pub open spec fn spec_render(self) -> Seq<char> {
        "\n                sealed trait "@ + self.name.spec_text()
            + " extends js.Object {\n                    "@ + fields_block(self.fields@)
            + "\n                }\n                object "@ + self.name.spec_text()
            + " {\n                    def apply("@ + params_block(self.fields@) + "): "@
            + self.name.spec_text() + " = {\n                        "@ + temps_block(self.fields@)
            + "\n\n                        new "@ + self.name.spec_text()
            + " {\n                            "@ + assigns_block(self.fields@)
            + "\n                        }\n                    }\n                }\n            "@
    }

    /// Renders the record declaration.
    pub fn render(&self) -> (r: String)
        ensures
            r@ == self.spec_render(),
    {
        let ghost fseq = self.fields@;
        let mut accessors = String::new();
        let mut params = String::new();
        let mut temps = String::new();
        let mut assigns = String::new();
        let n = self.fields.len();
        let mut i: usize = 0;
        while i < n
            invariant
                0 <= i <= n,
                fseq == self.fields@,
                n == fseq.len(),
                accessors@ == fields_block(fseq.subrange(0, i as int)),
                params@ == params_block(fseq.subrange(0, i as int)),
                temps@ == temps_block(fseq.subrange(0, i as int)),
                assigns@ == assigns_block(fseq.subrange(0, i as int)),
            decreases n - i,
        {
            let f = &self.fields[i];
            let tys = f.ty.render();
            if i > 0 {
                accessors.append("\n");
                params.append(", ");
                temps.append("\n");
                assigns.append("\n");
            }
            accessors.append("val ");
            accessors.append(f.name.0.as_str());
            accessors.append(": ");
            accessors.append(tys.as_str());
            params.append(f.name.0.as_str());
            params.append(": ");
            params.append(tys.as_str());
            temps.append("val ");
            temps.append(f.name.0.as_str());
            temps.append("0: ");
            temps.append(tys.as_str());
            temps.append(" = ");
            temps.append(f.name.0.as_str());
            assigns.append("val ");
            assigns.append(f.name.0.as_str());
            assigns.append(": ");
            assigns.append(tys.as_str());
            assigns.append(" = ");
            assigns.append(f.name.0.as_str());
            assigns.append("0");
            proof {
                let pre = fseq.subrange(0, i as int);
                let now = fseq.subrange(0, i as int + 1);
                let fi = fseq[i as int];
                assert(now =~= pre.push(fi));
                assert(now.map_values(|f: Field| f.accessor_text()) =~= pre.map_values(
                    |f: Field| f.accessor_text(),
                ).push(fi.accessor_text()));
                assert(now.map_values(|f: Field| f.typed_text()) =~= pre.map_values(
                    |f: Field| f.typed_text(),
                ).push(fi.typed_text()));
                assert(now.map_values(|f: Field| f.temp_text()) =~= pre.map_values(
                    |f: Field| f.temp_text(),
                ).push(fi.temp_text()));
                assert(now.map_values(|f: Field| f.assign_text()) =~= pre.map_values(
                    |f: Field| f.assign_text(),
                ).push(fi.assign_text()));
                strutil::lemma_join_push(
                    pre.map_values(|f: Field| f.accessor_text()),
                    "\n"@,
                    fi.accessor_text(),
                );
                strutil::lemma_join_push(
                    pre.map_values(|f: Field| f.typed_text()),
                    ", "@,
                    fi.typed_text(),
                );
                strutil::lemma_join_push(
                    pre.map_values(|f: Field| f.temp_text()),
                    "\n"@,
                    fi.temp_text(),
                );
                strutil::lemma_join_push(
                    pre.map_values(|f: Field| f.assign_text()),
                    "\n"@,
                    fi.assign_text(),
                );
                assert(accessors@ =~= fields_block(now));
                assert(params@ =~= params_block(now));
                assert(temps@ =~= temps_block(now));
                assert(assigns@ =~= assigns_block(now));
            }
            i = i + 1;
        }
        proof {
            assert(fseq.subrange(0, fseq.len() as int) =~= fseq);
        }
        let name = self.name.render();
        let mut r = String::new();
        r.append("\n                sealed trait ");
        r.append(name.as_str());
        r.append(" extends js.Object {\n                    ");
        r.append(accessors.as_str());
        r.append("\n                }\n                object ");
        r.append(name.as_str());
        r.append(" {\n                    def apply(");
        r.append(params.as_str());
        r.append("): ");
        r.append(name.as_str());
        r.append(" = {\n                        ");
        r.append(temps.as_str());
        r.append("\n\n                        new ");
        r.append(name.as_str());
        r.append(" {\n                            ");
        r.append(assigns.as_str());
        r.append("\n                        }\n                    }\n                }\n            ");
        proof {
            assert(r@ =~= self.spec_render());
        }
        r
    }
}

} // verus!
