use rdf_translator::mapper::json::{is_null_value, label_text, JsonValue};

fn json(text: &str) -> JsonValue {
    JsonValue { text: text.to_string() }
}

#[test]
fn label_text_of_each_kind() {
    assert_eq!(label_text(&json("\"abc\"")), Some("abc".to_string()));
    assert_eq!(label_text(&json("42")), Some("42".to_string()));
    assert_eq!(label_text(&json("2.5")), Some("2.5".to_string()));
    assert_eq!(label_text(&json("null")), None);
    assert_eq!(label_text(&json("true")), None);
    assert_eq!(label_text(&json("[1]")), None);
    assert_eq!(label_text(&json("{\"a\": 1}")), None);
    assert_eq!(label_text(&json("not json")), None);
}

#[test]
fn null_values() {
    assert!(is_null_value(&json("null")));
    assert!(is_null_value(&json(" \n null\t")));
    assert!(!is_null_value(&json("nul")));
    assert!(!is_null_value(&json("[null]")));
    assert!(!is_null_value(&json("\"null\"")));
}
