use pilatus::params::{check_recursive, JsonValue, UntypedDeviceParamsWithVariables};

fn s(x: &str) -> String {
    x.to_string()
}

fn var(name: &str) -> JsonValue {
    JsonValue::Object(vec![(s("__var"), JsonValue::String(s(name)))])
}

#[test]
fn variables_are_listed_in_document_order() {
    let value = JsonValue::Object(vec![
        (s("a"), var("first")),
        (s("list"), JsonValue::Array(vec![JsonValue::Number(s("42")), var("second")])),
        (s("b"), JsonValue::Object(vec![(s("inner"), var("third"))])),
    ]);
    let params = UntypedDeviceParamsWithVariables::from_value(value).ok().unwrap();
    assert_eq!(vec![s("first"), s("second"), s("third")], params.variables_names());
}

#[test]
fn plain_values_have_no_variables() {
    let value = JsonValue::Object(vec![(s("text"), JsonValue::String(s("value"))), (s("number"), JsonValue::Number(s("42")))]);
    let params = UntypedDeviceParamsWithVariables::from_value(value).ok().unwrap();
    assert!(params.variables_names().is_empty());
    assert!(matches!(params.into_value(), JsonValue::Object(entries) if entries.len() == 2));
}

#[test]
fn variable_with_other_key_is_refused() {
    let bad = JsonValue::Object(vec![(s("__var"), JsonValue::String(s("x"))), (s("other"), JsonValue::Null)]);
    let value = JsonValue::Array(vec![JsonValue::Bool(true), bad]);
    assert!(check_recursive(&value).is_err());
    assert!(UntypedDeviceParamsWithVariables::from_value(value).is_err());
}

#[test]
fn variable_with_non_text_is_refused() {
    let bad = JsonValue::Object(vec![(s("__var"), JsonValue::Number(s("1")))]);
    match check_recursive(&bad) {
        Err(JsonValue::Object(entries)) => assert_eq!(1, entries.len()),
        other => panic!("unexpected {other:?}"),
    }
}

#[test]
fn refused_value_is_given_back() {
    let bad = JsonValue::Object(vec![(s("__var"), JsonValue::Null)]);
    match UntypedDeviceParamsWithVariables::from_value(bad) {
        Err(JsonValue::Object(entries)) => assert_eq!("__var", entries[0].0),
        other => panic!("unexpected {other:?}"),
    }
}

#[test]
fn empty_variable_name_is_refused() {
    let bad = JsonValue::Object(vec![(s("__var"), JsonValue::String(s("")))]);
    assert!(check_recursive(&bad).is_err());
    assert!(UntypedDeviceParamsWithVariables::from_value(bad).is_err());
}
