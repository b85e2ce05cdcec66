use rdf_translator::mapper::json::JsonValue;
use rdf_translator::mapper::loader::{Item, Mapper, Object, Predicate};
use rdf_translator::Converter;

const EBU: &str = "http://www.ebu.ch/metadata/ontologies/ebucore/ebucore#";
const RDFS_LABEL: &str = "http://www.w3.org/2000/01/rdf-schema#label";

fn json(text: &str) -> JsonValue {
    JsonValue { text: text.to_string() }
}

fn predicate(namespace: Option<&str>, label: &str) -> Predicate {
    Predicate {
        namespace: namespace.map(|s| s.to_string()),
        label: label.to_string(),
        condition: None,
        identifier: None,
    }
}

fn item(namespace: Option<&str>, name: &str, label: &str) -> Item {
    Item {
        elements: None,
        predicate: predicate(namespace, name),
        label: Some(label.to_string()),
        language: String::new(),
        datatype: String::new(),
        as_uri: false,
        items: vec![],
    }
}

fn video() -> JsonValue {
    json(
        r#"{"id": "v1", "title": "Hello", "duration": 12.5, "empty": null,
            "tags": [{"name": "a"}, {"name": "b"}]}"#,
    )
}

fn video_mapper() -> Mapper {
    let mut language = item(Some("ebucore"), "alternativeTitle", "{{$.title}}");
    language.language = "fr".to_string();
    let mut datatype = item(Some("ebucore"), "duration", "{{$.duration}}");
    datatype.datatype = "http://www.w3.org/2001/XMLSchema#float".to_string();
    let mut uri = item(Some("owl"), "sameAs", "http://example.org/{{$.id}}");
    uri.as_uri = true;
    let missing = item(Some("ebucore"), "description", "{{$.missing}}");
    let mut unmet = item(Some("ebucore"), "originalTitle", "{{$.title}}");
    unmet.predicate.condition = Some("$.empty".to_string());
    let mut met = item(Some("ebucore"), "businessObjectId", "{{$.id}}");
    met.predicate.condition = Some("$.title".to_string());
    let mut both = item(Some("ebucore"), "title", "{{$.title}}");
    both.language = "en".to_string();
    both.datatype = "x".to_string();
    let mut tags = item(Some("ebucore"), "hasTag", "");
    tags.label = None;
    tags.elements = Some("$.tags.*".to_string());
    tags.items = vec![item(Some("rdfs"), "label", "{{$.name}}")];
    let mut part = item(Some("ebucore"), "hasPart", "");
    part.label = None;
    part.predicate.identifier = Some("id{{$.id}}".to_string());
    part.items = vec![item(None, "http://example.org/p", "{{$.title}}")];

    Mapper {
        objects: vec![
            Object {
                elements: None,
                label: "http://example.org/video/{{$.id}}".to_string(),
                items: vec![
                    item(Some("ebucore"), "title", "{{$.title}}"),
                    language,
                    datatype,
                    uri,
                    missing,
                    unmet,
                    met,
                    both,
                    tags,
                    part,
                ],
            },
            Object {
                elements: Some("$.tags.*".to_string()),
                label: "http://example.org/tag/{{$.name}}".to_string(),
                items: vec![item(Some("rdfs"), "label", "{{$.name}}")],
            },
        ],
    }
}

#[test]
fn process_builds_the_triples() {
    let mapper = video_mapper();
    let mut converter = Converter::new();
    mapper.process(&video(), &mut converter);
    let s = "<http://example.org/video/v1>";
    let expected = [
        format!("{} <{}title> \"Hello\" .", s, EBU),
        format!("{} <{}alternativeTitle> \"Hello\"@fr .", s, EBU),
        format!(
            "{} <{}duration> \"12.5\"^^<http://www.w3.org/2001/XMLSchema#float> .",
            s, EBU
        ),
        format!("{} <http://www.w3.org/2002/07/owl#sameAs> <http://example.org/v1> .", s),
        format!("{} <{}businessObjectId> \"v1\" .", s, EBU),
        format!("{} <{}hasTag> _:auto0 .", s, EBU),
        format!("_:auto0 <{}> \"a\" .", RDFS_LABEL),
        format!("{} <{}hasTag> _:auto1 .", s, EBU),
        format!("_:auto1 <{}> \"b\" .", RDFS_LABEL),
        format!("{} <{}hasPart> _:idv1 .", s, EBU),
        "_:idv1 <http://example.org/p> \"Hello\" .".to_string(),
        format!("<http://example.org/tag/a> <{}> \"a\" .", RDFS_LABEL),
        format!("<http://example.org/tag/b> <{}> \"b\" .", RDFS_LABEL),
    ];
    let mut text = String::new();
    for line in expected.iter() {
        text.push_str(line);
        text.push('\n');
    }
    assert_eq!(converter.to_ntriple_string(), text);
    assert_eq!(converter.blank_count(), 2);
}

#[test]
fn try_process_agrees_with_process() {
    let mapper = video_mapper();
    let mut first = Converter::new();
    mapper.process(&video(), &mut first);
    let mut second = Converter::new();
    assert!(mapper.try_process(&video(), &mut second));
    assert_eq!(first.to_ntriple_string(), second.to_ntriple_string());
}

#[test]
fn unknown_namespace_stops_the_run() {
    let mapper = Mapper {
        objects: vec![Object {
            elements: None,
            label: "http://example.org/video/{{$.id}}".to_string(),
            items: vec![
                item(Some("ebucore"), "title", "{{$.title}}"),
                item(Some("francetv"), "title", "{{$.title}}"),
            ],
        }],
    };
    let mut converter = Converter::new();
    assert!(!mapper.try_process(&video(), &mut converter));
    assert_eq!(converter.to_ntriple_string(), "");
}

#[test]
fn unknown_namespace_without_object_is_harmless() {
    let mut odd = item(Some("francetv"), "title", "{{$.title}}");
    odd.language = "en".to_string();
    odd.datatype = "x".to_string();
    let mapper = Mapper {
        objects: vec![Object {
            elements: None,
            label: "http://example.org/video/{{$.id}}".to_string(),
            items: vec![odd],
        }],
    };
    let mut converter = Converter::new();
    assert!(mapper.try_process(&video(), &mut converter));
    assert_eq!(converter.to_ntriple_string(), "");
}

#[test]
fn invalid_path_stops_the_run() {
    let mapper = Mapper {
        objects: vec![Object {
            elements: Some("tags".to_string()),
            label: "x".to_string(),
            items: vec![],
        }],
    };
    let mut converter = Converter::new();
    assert!(!mapper.try_process(&video(), &mut converter));
}

#[test]
fn empty_mapping_adds_nothing() {
    let mapper = Mapper { objects: vec![] };
    let mut converter = Converter::new();
    mapper.process(&video(), &mut converter);
    assert_eq!(converter.to_ntriple_string(), "");
}

#[test]
fn runs_append_to_what_is_there() {
    let mapper = Mapper {
        objects: vec![Object {
            elements: None,
            label: "http://example.org/video/{{$.id}}".to_string(),
            items: vec![item(Some("ebucore"), "title", "{{$.title}}")],
        }],
    };
    let mut converter = Converter::new();
    let subject = converter.create_subject("http://example.org/first");
    converter.add(&subject, &None, "p", "o");
    mapper.process(&video(), &mut converter);
    assert_eq!(
        converter.to_ntriple_string(),
        format!(
            "<http://example.org/first> <p> \"o\" .\n<http://example.org/video/v1> <{}title> \"Hello\" .\n",
            EBU
        )
    );
}
