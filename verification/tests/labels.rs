use rdf_translator::mapper::json::JsonValue;
use rdf_translator::mapper::loader::{parse_label, try_parse_label};

fn json(text: &str) -> JsonValue {
    JsonValue { text: text.to_string() }
}

#[test]
fn plain_label_stands_for_itself() {
    let document = json(r#"{"id": 1}"#);
    assert_eq!(
        parse_label("http://example.org/video#x", &document),
        vec!["http://example.org/video#x".to_string()]
    );
}

#[test]
fn string_values_fill_placeholders() {
    let document = json(r#"{"title": "Hello", "id": "v1"}"#);
    assert_eq!(
        parse_label("http://example.org/{{$.id}}", &document),
        vec!["http://example.org/v1".to_string()]
    );
    assert_eq!(parse_label("{{$.title}}", &document), vec!["Hello".to_string()]);
}

#[test]
fn float_numbers_are_written_as_floats() {
    let document = json(r#"{"duration": 12.5, "count": 3}"#);
    assert_eq!(parse_label("{{$.duration}}", &document), vec!["12.5".to_string()]);
    assert_eq!(parse_label("n{{$.count}}", &document), vec!["n3".to_string()]);
}

#[test]
fn other_values_are_left_out() {
    let document = json(r#"{"items": ["a", true, null, {"k": 1}, 2]}"#);
    assert_eq!(
        parse_label("x{{$.items.*}}", &document),
        vec!["xa".to_string(), "x2".to_string()]
    );
}

#[test]
fn missing_value_gives_no_label() {
    let document = json(r#"{"id": 1}"#);
    assert!(parse_label("prefix{{$.missing}}suffix", &document).is_empty());
}

#[test]
fn three_placeholders_combine() {
    let document = json(r#"{"a": ["1", "2"], "b": ["x"], "c": ["p", "q"]}"#);
    assert_eq!(
        parse_label("{{$.a.*}}-{{$.b.*}}-{{$.c.*}}", &document),
        vec![
            "1-x-p".to_string(),
            "1-x-q".to_string(),
            "2-x-p".to_string(),
            "2-x-q".to_string(),
        ]
    );
}

#[test]
fn invalid_path_cannot_expand() {
    let document = json(r#"{"id": 1}"#);
    assert_eq!(try_parse_label("{{}}", &document), None);
    assert_eq!(try_parse_label("{{id}}", &document), None);
}

#[test]
fn invalid_document_cannot_expand() {
    let document = json("{not json");
    assert_eq!(try_parse_label("{{$.id}}", &document), None);
    assert_eq!(
        try_parse_label("plain", &document),
        Some(vec!["plain".to_string()])
    );
}

#[test]
fn try_parse_label_agrees_with_parse_label() {
    let document = json(r#"{"books": [{"id": 666}, {"id": 999}]}"#);
    assert_eq!(
        try_parse_label("b{{$.books.*.id}}", &document),
        Some(vec!["b666".to_string(), "b999".to_string()])
    );
}

#[test]
fn only_strings_and_numbers_give_label_text() {
    let document = json(r#"{"v": ["a", null, true, {"k": 1}, 1]}"#);
    assert_eq!(
        parse_label("{{$.v.*}}", &document),
        vec!["a".to_string(), "1".to_string()]
    );
    let document = json(r#"{"v": [[1, 2], false, 0.1, -7]}"#);
    assert_eq!(
        parse_label("{{$.v.*}}", &document),
        vec!["0.1".to_string(), "-7".to_string()]
    );
}
