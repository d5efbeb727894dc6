//! The resolver mapping: named and anonymous definitions, nesting, and
//! the error cases.

use scalajs_wit_bindgen::errors::Error;
use scalajs_wit_bindgen::types::names::Constructor;
use scalajs_wit_bindgen::types::type_map::TypeMap;
use scalajs_wit_bindgen::types::value::Type;
use scalajs_wit_bindgen::wit::{
    WitField, WitOwner, WitPackage, WitRecord, WitResultType, WitType, WitTypeDef, WitTypeDefKind,
    WitVariant,
};

fn named_record(name: &str, fields: Vec<WitField>) -> WitTypeDef {
    WitTypeDef {
        name: Some(name.to_owned()),
        kind: WitTypeDefKind::Record(WitRecord { fields }),
        owner: WitOwner::Interface(0),
    }
}

fn anon(kind: WitTypeDefKind) -> WitTypeDef {
    WitTypeDef { name: None, kind, owner: WitOwner::Unowned }
}

fn pkg_of(types: Vec<WitTypeDef>) -> WitPackage {
    WitPackage { types, interfaces: Vec::new() }
}

fn text_of(m: &TypeMap, id: usize) -> String {
    m.get(id).expect("entry missing").render()
}

#[test]
fn named_definitions_resolve_to_their_upper_camel_name() {
    let pkg = pkg_of(vec![named_record("user-info", Vec::new())]);
    let m = TypeMap::from_schema(&pkg).unwrap();
    assert_eq!(text_of(&m, 0), "UserInfo");
}

#[test]
fn anonymous_list_of_integer_resolves_to_the_list_wrapper() {
    let pkg = pkg_of(vec![anon(WitTypeDefKind::List(WitType::U32))]);
    let m = TypeMap::from_schema(&pkg).unwrap();
    assert_eq!(text_of(&m, 0), "WitList[Integer]");
}

#[test]
fn nested_anonymous_types_resolve_recursively() {
    // list<option<u32>>: the inner option needs no name of its own.
    let pkg = pkg_of(vec![
        anon(WitTypeDefKind::List(WitType::Id(1))),
        anon(WitTypeDefKind::Option(WitType::U32)),
    ]);
    let m = TypeMap::from_schema(&pkg).unwrap();
    assert_eq!(text_of(&m, 0), "WitList[WitOption[Integer]]");
    assert_eq!(text_of(&m, 1), "WitOption[Integer]");
}

#[test]
fn anonymous_result_renders_both_branches_with_unit_for_absent_ones() {
    let pkg = pkg_of(vec![
        anon(WitTypeDefKind::Result(WitResultType { ok: None, err: Some(WitType::String) })),
        anon(WitTypeDefKind::Result(WitResultType {
            ok: Some(WitType::U64),
            err: Some(WitType::Id(0)),
        })),
    ]);
    let m = TypeMap::from_schema(&pkg).unwrap();
    assert_eq!(text_of(&m, 0), "WitResult[Unit, String]");
    assert_eq!(text_of(&m, 1), "WitResult[Long, WitResult[Unit, String]]");
}

#[test]
fn anonymous_list_of_named_type_uses_the_named_entry() {
    let pkg = pkg_of(vec![
        named_record("user-info", Vec::new()),
        anon(WitTypeDefKind::List(WitType::Id(0))),
    ]);
    let m = TypeMap::from_schema(&pkg).unwrap();
    assert_eq!(text_of(&m, 1), "WitList[UserInfo]");
}

#[test]
fn unsupported_anonymous_kind_is_a_fatal_explicit_error() {
    let pkg = pkg_of(vec![
        named_record("ok-type", Vec::new()),
        anon(WitTypeDefKind::Unsupported),
    ]);
    let r = TypeMap::from_schema(&pkg);
    assert_eq!(r.unwrap_err(), Error::UnsupportedKind { id: 1 });
}

#[test]
fn named_definition_of_unsupported_kind_still_gets_a_name() {
    let pkg = pkg_of(vec![WitTypeDef {
        name: Some("some-enum".to_owned()),
        kind: WitTypeDefKind::Unsupported,
        owner: WitOwner::Unowned,
    }]);
    let m = TypeMap::from_schema(&pkg).unwrap();
    assert_eq!(text_of(&m, 0), "SomeEnum");
}

#[test]
fn dangling_id_leaves_the_entry_empty_and_fails_lookup_later() {
    let pkg = pkg_of(vec![anon(WitTypeDefKind::List(WitType::Id(7)))]);
    let m = TypeMap::from_schema(&pkg).unwrap();
    assert!(m.get(0).is_none());
    let r = Type::from_wit(WitType::Id(0), &m);
    assert_eq!(r.unwrap_err(), Error::Lookup { id: 0 });
}

#[test]
fn value_types_render_through_the_map() {
    let pkg = pkg_of(vec![named_record("user-info", Vec::new())]);
    let m = TypeMap::from_schema(&pkg).unwrap();
    assert_eq!(Type::from_wit(WitType::Bool, &m).unwrap().render(), "Boolean");
    assert_eq!(Type::from_wit(WitType::S8, &m).unwrap().render(), "Byte");
    assert_eq!(Type::from_wit(WitType::U16, &m).unwrap().render(), "Short");
    assert_eq!(Type::from_wit(WitType::S32, &m).unwrap().render(), "Integer");
    assert_eq!(Type::from_wit(WitType::U64, &m).unwrap().render(), "Long");
    assert_eq!(Type::from_wit(WitType::Float32, &m).unwrap().render(), "Float");
    assert_eq!(Type::from_wit(WitType::Float64, &m).unwrap().render(), "Double");
    assert_eq!(Type::from_wit(WitType::Char, &m).unwrap().render(), "Char");
    assert_eq!(Type::from_wit(WitType::String, &m).unwrap().render(), "String");
    assert_eq!(Type::from_wit(WitType::Id(0), &m).unwrap().render(), "UserInfo");
}

#[test]
fn lookup_outside_the_map_is_empty() {
    let pkg = pkg_of(Vec::new());
    let m = TypeMap::from_schema(&pkg).unwrap();
    assert!(m.get(0).is_none());
    assert!(m.get(17).is_none());
}

#[test]
fn constructors_render_their_parameters_in_order() {
    let pkg = pkg_of(vec![named_record("user-info", Vec::new())]);
    let m = TypeMap::from_schema(&pkg).unwrap();
    let c = Constructor::new(
        "WitResult",
        vec![Some(WitType::Id(0)), None],
        &m,
    )
    .unwrap();
    assert_eq!(c.render(), "WitResult[UserInfo, Unit]");
    let r = Constructor::new("WitList", vec![Some(WitType::Id(3))], &m);
    assert_eq!(r.unwrap_err(), Error::Lookup { id: 3 });
}

#[test]
fn errors_describe_themselves() {
    let e = Error::MissingInterface { name: "api".to_owned() };
    assert_eq!(e.describe(), "interface not found in the schema: api");
    assert_eq!(
        Error::UnnamedInterface.describe(),
        "the selected interface does not have a name"
    );
    assert!(Error::Lookup { id: 3 }.describe().len() > 0);
    assert!(Error::UnsupportedKind { id: 1 }.describe().len() > 0);
}

#[test]
fn variants_are_definitions_like_any_other() {
    let pkg = pkg_of(vec![WitTypeDef {
        name: Some("api-error".to_owned()),
        kind: WitTypeDefKind::Variant(WitVariant { cases: Vec::new() }),
        owner: WitOwner::Interface(0),
    }]);
    let m = TypeMap::from_schema(&pkg).unwrap();
    assert_eq!(text_of(&m, 0), "ApiError");
}
