use rdf_translator::mapper::json::{get_one, is_unsupported_path, try_get_one, JsonValue};

fn json(text: &str) -> JsonValue {
    JsonValue { text: text.to_string() }
}

#[test]
fn get_one_single_value() {
    let document = json(r#"{"a": 1, "b": {"c": "x"}}"#);
    let one = get_one(&document, "$.a").unwrap();
    assert_eq!(one.text, "1");
    let one = get_one(&document, "$.b.c").unwrap();
    assert_eq!(one.text, "\"x\"");
    let one = get_one(&document, "$.b").unwrap();
    assert_eq!(one.text, r#"{"c":"x"}"#);
}

#[test]
fn get_one_refuses_none_many_and_null() {
    let document = json(r#"{"a": null, "list": [1, 2]}"#);
    assert!(get_one(&document, "$.a").is_none());
    assert!(get_one(&document, "$.missing").is_none());
    assert!(get_one(&document, "$.list.*").is_none());
}

#[test]
fn try_get_one_checks_the_path() {
    let document = json(r#"{"a": 1}"#);
    assert!(try_get_one(&document, "a").is_none());
    assert!(try_get_one(&document, "$.x[?($.a > 1)]").is_none());
    let found = try_get_one(&document, "$.a").unwrap().unwrap();
    assert_eq!(found.text, "1");
}

#[test]
fn unsupported_paths() {
    assert!(is_unsupported_path("$.a[?($.b < 2)]"));
    assert!(is_unsupported_path("$.a[?($.b > 2)]"));
    assert!(is_unsupported_path("$[?($.a > 1.5)]"));
    assert!(is_unsupported_path("$.a[?(@.b > 12345678901234567890)]"));
    assert!(is_unsupported_path("$.a[?(@.b == 9223372036854775808)]"));
    assert!(is_unsupported_path("$[?(@.x[?($.y > 1)] == 'a')]"));
    assert!(!is_unsupported_path("$.a[?(@.b > 1234567890123456789)]"));
    assert!(!is_unsupported_path("$.a[?(@.b == 9223372036854775807)]"));
    assert!(!is_unsupported_path("$[?(@.a == 1000000000000000000)]"));
    assert!(!is_unsupported_path("$.a[?(@.b > 2)]"));
    assert!(!is_unsupported_path("$.a[?($.b == 'x')]"));
    assert!(!is_unsupported_path("$[?($.a > 'x')]"));
    assert!(!is_unsupported_path("$[?($.a == 'x')][?(@.b > 2)]"));
    assert!(!is_unsupported_path("$[?($.x[?(@.y > 1)] == 'a')]"));
    assert!(!is_unsupported_path("$.a[12345678901234567890123]"));
    assert!(!is_unsupported_path("$.a.b"));
}

#[test]
fn valid_filters_are_evaluated() {
    let document = json("{}");
    assert_eq!(
        try_get_one(&document, "$[?(@.a == 1000000000000000000)]").map(|o| o.is_none()),
        Some(true)
    );
    let document = json(r#"{"a": [{"b": 1}, {"b": 5}]}"#);
    let found = try_get_one(&document, "$.a[?(@.b > 3)]").unwrap().unwrap();
    assert_eq!(found.text, r#"{"b":5}"#);
}

#[test]
fn null_texts() {
    let document = json(r#"{"a": null, "b": 0}"#);
    assert!(get_one(&document, "$.a").is_none());
    assert_eq!(get_one(&document, "$.b").unwrap().text, "0");
}
