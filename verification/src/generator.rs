//! The top-level generation entry: one parsed schema in, one compilable
//! Scala source unit out, for the fixed interface name `api`.

use vstd::prelude::*;
use crate::codegen::interface::{first_iface_from, generation_ok, iface_found, Interface};
use crate::errors::Error;
use crate::types::type_map::{first_unsupported_from, has_unsupported_anon};
use crate::types::value::model_text;
use crate::wit::{WitPackage, WitType};

verus! {

/// What any successful generation run returns: the rendered text of an
/// interface built from the schema — a function of the schema and the
/// package name alone.
pub open spec fn generated_text_ok(pkg: WitPackage, package: Seq<char>, text: Seq<char>) -> bool {
    exists|itf: Interface|
        itf.built_from(pkg, "api"@) && text == itf.spec_render(package)
}

/// Generates the full source unit for the schema's `api` interface in
/// the given package. The whole unit is produced in memory: on failure
/// nothing is returned at all.
pub fn generate(pkg: &WitPackage, package: &str) -> (r: Result<String, Error>)
    ensures
        (r is Ok <==> generation_ok(*pkg, "api"@)),
        r matches Ok(s) ==> generated_text_ok(*pkg, package@, s@),
        r matches Err(e) ==> !iface_found(*pkg, "api"@) ==> (e
            matches Error::MissingInterface { name: n } && n@ == "api"@),
        r matches Err(e) ==> iface_found(*pkg, "api"@) && has_unsupported_anon(*pkg) ==> e == (
        Error::UnsupportedKind { id: first_unsupported_from(*pkg, 0) as usize }),
        r matches Err(e) ==> iface_found(*pkg, "api"@) && !has_unsupported_anon(*pkg)
            && pkg.interfaces@[first_iface_from(*pkg, "api"@, 0)].name is None ==> e
            == Error::UnnamedInterface,
        r matches Err(e) ==> iface_found(*pkg, "api"@) && !has_unsupported_anon(*pkg)
            && pkg.interfaces@[first_iface_from(*pkg, "api"@, 0)].name is Some ==> (e
            matches Error::Lookup { id } && model_text(*pkg, WitType::Id(id)) is None),
{
    let itf = match Interface::from_wit(pkg, "api") {
        Ok(itf) => itf,
        Err(e) => { return Err(e) },
    };
    Ok(itf.render(package))
}

/// Generation is deterministic: two runs over the same schema and
/// package name yield identical text.
pub proof fn lemma_generate_deterministic(
    pkg: WitPackage,
    package: Seq<char>,
    t1: Seq<char>,
    t2: Seq<char>,
)
    requires
        generated_text_ok(pkg, package, t1),
        generated_text_ok(pkg, package, t2),
    ensures
        t1 == t2,
{
    let i1 = choose|itf: Interface| itf.built_from(pkg, "api"@) && t1 == itf.spec_render(package);
    let i2 = choose|itf: Interface| itf.built_from(pkg, "api"@) && t2 == itf.spec_render(package);
    crate::codegen::interface::lemma_interface_render_unique(pkg, "api"@, i1, i2, package);
}

} // verus!
