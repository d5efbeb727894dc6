//! Case conversion and the fixed primitive table.

use scalajs_wit_bindgen::codegen::function::{FunctionName, ParamName};
use scalajs_wit_bindgen::codegen::record::FieldName;
use scalajs_wit_bindgen::codegen::variant::CaseName;
use scalajs_wit_bindgen::types::names::ConcreteName;
use scalajs_wit_bindgen::types::primitive::Primitive;

#[test]
fn primitive_table_is_exactly_the_fixed_table() {
    assert_eq!(Primitive::Boolean.render(), "Boolean");
    assert_eq!(Primitive::Byte.render(), "Byte");
    assert_eq!(Primitive::Short.render(), "Short");
    assert_eq!(Primitive::Integer.render(), "Integer");
    assert_eq!(Primitive::Long.render(), "Long");
    assert_eq!(Primitive::Float.render(), "Float");
    assert_eq!(Primitive::Double.render(), "Double");
    assert_eq!(Primitive::Char.render(), "Char");
    assert_eq!(Primitive::String.render(), "String");
}

#[test]
fn concrete_names_are_upper_camel() {
    assert_eq!(ConcreteName::from("user-info").render(), "UserInfo");
    assert_eq!(ConcreteName::from("api").render(), "Api");
    assert_eq!(ConcreteName::from("base64").render(), "Base64");
}

#[test]
fn concrete_name_conversion_changes_kebab_input() {
    // The conversion really converts: the result differs from the input.
    assert_ne!(ConcreteName::from("user-info").render(), "user-info");
}

#[test]
fn upper_camel_conversion_is_idempotent_on_converted_names() {
    let once = ConcreteName::from("user-info").render();
    let twice = ConcreteName::from(once.as_str()).render();
    assert_eq!(once, twice);
    assert_eq!(ConcreteName::from("UserInfo").render(), "UserInfo");
}

#[test]
fn member_names_are_lower_camel() {
    assert_eq!(FieldName::from("first-name").0, "firstName");
    assert_eq!(CaseName::from("not-found").0, "notFound");
    assert_eq!(ParamName::from("user-id").0, "userId");
    assert_eq!(FunctionName::from("get-user").0, "getUser");
}

#[test]
fn lower_camel_conversion_is_idempotent_on_converted_names() {
    let once = FieldName::from("first-name").0;
    let twice = FieldName::from(once.as_str()).0;
    assert_eq!(once, twice);
    assert_eq!(FunctionName::from("getUser").0, "getUser");
}
