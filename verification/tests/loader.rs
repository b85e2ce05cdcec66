use rdf_translator::mapper::json::JsonValue;
use rdf_translator::mapper::loader::parse_label;

fn json(text: &str) -> JsonValue {
    JsonValue { text: text.to_string() }
}

#[test]
fn test_parse_label_null() {
    let label = "{{$.id}}";
    let document = json("null");
    let result = parse_label(label, &document);
    assert_eq!(result.is_empty(), true);

    let label = "{{$.id}}";
    let document = json(r#"{ "id": 666 }"#);
    let result = parse_label(label, &document);
    assert_eq!(result, vec!["666".to_string()]);

    let label = "prefix{{$.id}}suffix";
    let document = json(r#"{"id": 666 }"#);
    let result = parse_label(label, &document);
    assert_eq!(result, vec!["prefix666suffix".to_string()]);

    let label = "prefix{{$.books.*.id}}suffix";
    let document = json(r#"{"books": [{"id": 666}, {"id": 999}]}"#);
    let result = parse_label(label, &document);
    assert_eq!(
        result,
        vec!["prefix666suffix".to_string(), "prefix999suffix".to_string()]
    );

    let label = "prefix{{$.books.*.id}}_{{$.books.*.key}}suffix";
    let document =
        json(r#"{"books": [{"id": 666, "key": "aaa"}, {"id": 999, "key": "bbb"}]}"#);
    let result = parse_label(label, &document);
    assert_eq!(
        result,
        vec![
            "prefix666_aaasuffix".to_string(),
            "prefix666_bbbsuffix".to_string(),
            "prefix999_aaasuffix".to_string(),
            "prefix999_bbbsuffix".to_string(),
        ]
    );
}
