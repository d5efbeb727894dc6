//! Declaration rendering and whole-unit assembly.

use scalajs_wit_bindgen::codegen::function::Function;
use scalajs_wit_bindgen::codegen::interface::Interface;
use scalajs_wit_bindgen::codegen::record::Record;
use scalajs_wit_bindgen::codegen::variant::Variant;
use scalajs_wit_bindgen::errors::Error;
use scalajs_wit_bindgen::generator::generate;
use scalajs_wit_bindgen::types::type_map::TypeMap;
use scalajs_wit_bindgen::wit::{
    WitCase, WitField, WitFunction, WitInterface, WitOwner, WitPackage, WitRecord, WitResults,
    WitType, WitTypeDef, WitTypeDefKind, WitVariant,
};

fn field(name: &str, ty: WitType) -> WitField {
    WitField { name: name.to_owned(), ty }
}

fn empty_map() -> TypeMap {
    TypeMap::from_schema(&WitPackage { types: Vec::new(), interfaces: Vec::new() }).unwrap()
}

fn user_record() -> WitRecord {
    WitRecord { fields: vec![field("first-name", WitType::String), field("age", WitType::U32)] }
}

#[test]
fn record_with_two_fields_renders_two_accessors_and_a_matching_factory() {
    let m = empty_map();
    let rec = Record::from_wit("user-info", &user_record(), &m).unwrap();
    let n = "UserInfo";
    let accessors = "val firstName: String\nval age: Integer";
    let params = "firstName: String, age: Integer";
    let temps = "val firstName0: String = firstName\nval age0: Integer = age";
    let assigns = "val firstName: String = firstName0\nval age: Integer = age0";
    let expected = format!(
        "\n                sealed trait {n} extends js.Object {{\n                    {accessors}\n                }}\n                object {n} {{\n                    def apply({params}): {n} = {{\n                        {temps}\n\n                        new {n} {{\n                            {assigns}\n                        }}\n                    }}\n                }}\n            "
    );
    assert_eq!(rec.render(), expected);
}

#[test]
fn record_with_no_fields_renders_empty_blocks() {
    let m = empty_map();
    let rec = Record::from_wit("unit-record", &WitRecord { fields: Vec::new() }, &m).unwrap();
    let text = rec.render();
    assert!(text.contains("sealed trait UnitRecord extends js.Object"));
    assert!(text.contains("def apply(): UnitRecord"));
}

#[test]
fn variant_cases_keep_declared_order_and_exact_discriminants() {
    let m = empty_map();
    let wv = WitVariant {
        cases: vec![
            WitCase { name: "err".to_owned(), ty: None },
            WitCase { name: "ok".to_owned(), ty: Some(WitType::U32) },
        ],
    };
    let v = Variant::from_wit("api-result", &wv, &m).unwrap();
    let text = v.render();
    // The payload-free case is a zero-argument singleton value.
    assert!(text.contains("val err = new ApiResult {"));
    // The payload-bearing case is a one-argument constructor.
    assert!(text.contains("def ok(value: Integer) = new ApiResult {"));
    assert!(text.contains("type Type = Integer"));
    // The discriminant strings are exactly the case names.
    assert!(text.contains("val tag: String = \"err\""));
    assert!(text.contains("val tag: String = \"ok\""));
    // Declared order is kept: err before ok.
    let err_at = text.find("val err = new").unwrap();
    let ok_at = text.find("def ok(value:").unwrap();
    assert!(err_at < ok_at);
}

#[test]
fn variant_case_bodies_match_the_tagged_union_encoding_exactly() {
    let m = empty_map();
    let wv = WitVariant { cases: vec![WitCase { name: "none-yet".to_owned(), ty: None }] };
    let v = Variant::from_wit("one-of", &wv, &m).unwrap();
    let n = "OneOf";
    let c = "noneYet";
    let ctor = format!(
        "\n                            val {c} = new {n} {{\n                                type Type = Nothing\n                                \n                                val tag: String = \"{c}\"\n                                \n                            }}\n                        "
    );
    let expected = format!(
        "\n                sealed trait {n} extends js.Object {{ self =>\n                    type Type\n\n                    val tag: String\n                    val `val`: js.UndefOr[Type]\n                }}\n\n                object {n} {{\n                    {ctor}\n                }}\n            "
    );
    assert_eq!(v.render(), expected);
}

#[test]
fn function_with_zero_results_renders_the_no_value_sentinel() {
    let m = empty_map();
    let wf = WitFunction {
        name: "ping".to_owned(),
        params: Vec::new(),
        results: WitResults::Named(Vec::new()),
    };
    let f = Function::from_wit(&wf, &m).unwrap();
    assert_eq!(f.render(), "def ping(): Unit");
}

#[test]
fn function_with_one_result_renders_the_type_directly() {
    let m = empty_map();
    let wf = WitFunction {
        name: "get-age".to_owned(),
        params: vec![("user-id".to_owned(), WitType::U64)],
        results: WitResults::Anon(WitType::U32),
    };
    let f = Function::from_wit(&wf, &m).unwrap();
    assert_eq!(f.render(), "def getAge(userId: Long): Integer");
}

#[test]
fn function_with_two_results_renders_a_tuple_and_drops_result_names() {
    let m = empty_map();
    let wf = WitFunction {
        name: "stats".to_owned(),
        params: Vec::new(),
        results: WitResults::Named(vec![
            ("count".to_owned(), WitType::U32),
            ("label".to_owned(), WitType::String),
        ]),
    };
    let f = Function::from_wit(&wf, &m).unwrap();
    assert_eq!(f.render(), "def stats(): (Integer, String)");
}

fn api_package() -> WitPackage {
    WitPackage {
        types: vec![
            WitTypeDef {
                name: Some("user-info".to_owned()),
                kind: WitTypeDefKind::Record(user_record()),
                owner: WitOwner::Interface(0),
            },
            WitTypeDef {
                name: Some("api-result".to_owned()),
                kind: WitTypeDefKind::Variant(WitVariant {
                    cases: vec![
                        WitCase { name: "err".to_owned(), ty: None },
                        WitCase { name: "ok".to_owned(), ty: Some(WitType::Id(0)) },
                    ],
                }),
                owner: WitOwner::Interface(0),
            },
        ],
        interfaces: vec![WitInterface {
            name: Some("api".to_owned()),
            functions: vec![WitFunction {
                name: "get-user".to_owned(),
                params: vec![("user-id".to_owned(), WitType::U64)],
                results: WitResults::Anon(WitType::Id(0)),
            }],
        }],
    }
}

#[test]
fn generation_is_deterministic() {
    let pkg = api_package();
    let once = generate(&pkg, "example.pkg").unwrap();
    let twice = generate(&pkg, "example.pkg").unwrap();
    assert_eq!(once, twice);
}

#[test]
fn generated_unit_has_fixed_section_order() {
    let pkg = api_package();
    let text = generate(&pkg, "example.pkg").unwrap();
    assert!(text.contains("package example.pkg"));
    let record_at = text.find("sealed trait UserInfo").unwrap();
    let variant_at = text.find("sealed trait ApiResult").unwrap();
    let trait_at = text.find("trait Api {").unwrap();
    let function_at = text.find("def getUser(userId: Long): UserInfo").unwrap();
    assert!(record_at < variant_at);
    assert!(variant_at < trait_at);
    assert!(trait_at < function_at);
    // The prelude defines exactly the wrappers the resolver synthesizes.
    assert!(text.contains("type WitResult[+Ok, +Err] = Ok"));
    assert!(text.contains("type WitOption[+A] = js.UndefOr[A]"));
    assert!(text.contains("type WitList[A] = js.Array[A]"));
}

#[test]
fn empty_interface_renders_the_full_unit_exactly() {
    let pkg = WitPackage {
        types: Vec::new(),
        interfaces: vec![WitInterface { name: Some("api".to_owned()), functions: Vec::new() }],
    };
    let text = generate(&pkg, "demo").unwrap();
    let prelude = " {\n                    type WitResult[+Ok, +Err] = Ok\n                    object WitResult {\n                        def ok[Ok](value: Ok): WitResult[Ok, Nothing] = value\n\n                        def err[Err](value: Err): WitResult[Nothing, Err] = throw js.JavaScriptException(value)\n\n                        val unit: WitResult[Unit, Nothing] = ()\n                    }\n\n                    type WitOption[+A] = js.UndefOr[A]\n                    object WitOption {\n                        def some[A](value: A): WitOption[A] = value\n\n                        val none: WitOption[Nothing] = js.undefined\n\n                        def fromOption[A](option: Option[A]) =\n                        option match {\n                            case Some(value) => value.asInstanceOf[js.UndefOr[A]]\n                            case None        => js.undefined\n                        }\n                    }\n\n                    type WitList[A] = js.Array[A]\n                    object WitList {\n                        def fromList[A](list: List[A]): WitList[A] = list.toJSArray\n                    }\n                    \n                    ";
    let expected = format!(
        "\n                // Generated by scalajs-wit-bindgen\n                package demo\n\n                import scala.scalajs.js\n                import scala.scalajs.js.JSConverters._\n\n                \n\n                \n\n                trait Api{prelude}\n                }}\n            "
    );
    assert_eq!(text, expected);
}

#[test]
fn missing_interface_is_a_fatal_lookup_error_with_no_output() {
    let pkg = WitPackage {
        types: Vec::new(),
        interfaces: vec![WitInterface { name: Some("other".to_owned()), functions: Vec::new() }],
    };
    let r = generate(&pkg, "demo");
    assert_eq!(r.unwrap_err(), Error::MissingInterface { name: "api".to_owned() });
}

#[test]
fn unnamed_interface_found_by_empty_name_is_an_error() {
    let pkg = WitPackage {
        types: Vec::new(),
        interfaces: vec![WitInterface { name: None, functions: Vec::new() }],
    };
    let r = Interface::from_wit(&pkg, "");
    assert_eq!(r.unwrap_err(), Error::UnnamedInterface);
}

#[test]
fn dangling_field_type_is_a_fatal_lookup_error_naming_the_id() {
    let pkg = WitPackage {
        types: vec![WitTypeDef {
            name: Some("broken".to_owned()),
            kind: WitTypeDefKind::Record(WitRecord {
                fields: vec![field("x", WitType::Id(9))],
            }),
            owner: WitOwner::Interface(0),
        }],
        interfaces: vec![WitInterface { name: Some("api".to_owned()), functions: Vec::new() }],
    };
    let r = generate(&pkg, "demo");
    assert_eq!(r.unwrap_err(), Error::Lookup { id: 9 });
}

#[test]
fn unsupported_anonymous_kind_takes_priority_over_later_lookups() {
    let pkg = WitPackage {
        types: vec![
            WitTypeDef {
                name: None,
                kind: WitTypeDefKind::Unsupported,
                owner: WitOwner::Unowned,
            },
            WitTypeDef {
                name: Some("broken".to_owned()),
                kind: WitTypeDefKind::Record(WitRecord {
                    fields: vec![field("x", WitType::Id(9))],
                }),
                owner: WitOwner::Interface(0),
            },
        ],
        interfaces: vec![WitInterface { name: Some("api".to_owned()), functions: Vec::new() }],
    };
    let r = generate(&pkg, "demo");
    assert_eq!(r.unwrap_err(), Error::UnsupportedKind { id: 0 });
}

#[test]
fn functions_using_anonymous_types_render_their_wrappers() {
    let pkg = WitPackage {
        types: vec![WitTypeDef {
            name: None,
            kind: WitTypeDefKind::List(WitType::U32),
            owner: WitOwner::Unowned,
        }],
        interfaces: vec![WitInterface {
            name: Some("api".to_owned()),
            functions: vec![WitFunction {
                name: "all-ages".to_owned(),
                params: Vec::new(),
                results: WitResults::Anon(WitType::Id(0)),
            }],
        }],
    };
    let text = generate(&pkg, "demo").unwrap();
    assert!(text.contains("def allAges(): WitList[Integer]"));
}
