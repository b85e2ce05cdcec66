use rdf_translator::converter::{namespace_is_known, predicate_uri};
use rdf_translator::graph::Node;
use rdf_translator::Converter;

const EBU: &str = "http://www.ebu.ch/metadata/ontologies/ebucore/ebucore#";

fn ebucore() -> Option<String> {
    Some("ebucore".to_string())
}

#[test]
fn new_converter_writes_nothing() {
    let converter = Converter::new();
    assert_eq!(converter.to_ntriple_string(), "");
    assert_eq!(converter.blank_count(), 0);
}

#[test]
fn add_writes_plain_literal() {
    let mut converter = Converter::new();
    let subject = converter.create_subject("http://example.org/s");
    converter.add(&subject, &ebucore(), "title", "Hello");
    assert_eq!(
        converter.to_ntriple_string(),
        format!("<http://example.org/s> <{}title> \"Hello\" .\n", EBU)
    );
}

#[test]
fn add_with_language_and_datatype_and_uri() {
    let mut converter = Converter::new();
    let subject = converter.create_subject("http://example.org/s");
    converter.add_with_language(&subject, &ebucore(), "title", "Bonjour", "fr");
    converter.add_with_datatype(
        &subject,
        &Some("xsi".to_string()),
        "type",
        "12",
        "http://www.w3.org/2001/XMLSchema#int",
    );
    converter.add_uri(&subject, &Some("owl".to_string()), "sameAs", "http://example.org/t");
    let expected = format!(
        "<http://example.org/s> <{}title> \"Bonjour\"@fr .\n\
         <http://example.org/s> <http://www.w3.org/2001/XMLSchema-instancetype> \"12\"^^<http://www.w3.org/2001/XMLSchema#int> .\n\
         <http://example.org/s> <http://www.w3.org/2002/07/owl#sameAs> <http://example.org/t> .\n",
        EBU
    );
    assert_eq!(converter.to_ntriple_string(), expected);
}

#[test]
fn no_namespace_uses_the_label_alone() {
    let mut converter = Converter::new();
    let subject = converter.create_subject("http://example.org/s");
    converter.add(&subject, &None, "http://example.org/p", "v");
    assert_eq!(
        converter.to_ntriple_string(),
        "<http://example.org/s> <http://example.org/p> \"v\" .\n"
    );
}

#[test]
fn rdf_and_rdfs_namespaces() {
    let mut converter = Converter::new();
    let subject = converter.create_subject("http://example.org/s");
    converter.add(&subject, &Some("rdf".to_string()), "type", "x");
    converter.add(&subject, &Some("rdfs".to_string()), "label", "y");
    assert_eq!(
        converter.to_ntriple_string(),
        "<http://example.org/s> <http://www.w3.org/1999/02/22-rdf-syntax-ns#type> \"x\" .\n\
         <http://example.org/s> <http://www.w3.org/2000/01/rdf-schema#label> \"y\" .\n"
    );
}

#[test]
fn blank_nodes_are_numbered() {
    let mut converter = Converter::new();
    let first = converter.create_blank_node();
    let second = converter.create_blank_node();
    assert!(matches!(first, Node::Blank(ref id) if id == "auto0"));
    assert!(matches!(second, Node::Blank(ref id) if id == "auto1"));
    assert_eq!(converter.blank_count(), 2);
    assert!(converter.blank_available());
    let named = converter.create_blank_node_with_id("mine");
    assert!(matches!(named, Node::Blank(ref id) if id == "mine"));
    assert_eq!(converter.blank_count(), 2);
}

#[test]
fn blank_objects_and_subjects() {
    let mut converter = Converter::new();
    let subject = converter.create_subject("http://example.org/s");
    let child = converter.create_blank_node();
    converter.add_blank(&subject, &ebucore(), "hasPart", child.duplicate());
    converter.add(&child, &ebucore(), "title", "part");
    assert_eq!(
        converter.to_ntriple_string(),
        format!(
            "<http://example.org/s> <{0}hasPart> _:auto0 .\n_:auto0 <{0}title> \"part\" .\n",
            EBU
        )
    );
}

#[test]
fn turtle_starts_with_the_prefixes() {
    let mut converter = Converter::new();
    let subject = converter.create_subject("http://example.org/s");
    converter.add(&subject, &ebucore(), "title", "Hello");
    let turtle = converter.to_turtle_string();
    let prefixes = [
        "@prefix rdf: <http://www.w3.org/1999/02/22-rdf-syntax-ns#> .\n",
        "@prefix rdfs: <http://www.w3.org/2000/01/rdf-schema#> .\n",
        "@prefix owl: <http://www.w3.org/2002/07/owl#> .\n",
        "@prefix ebucore: <http://www.ebu.ch/metadata/ontologies/ebucore/ebucore#> .\n",
        "@prefix xsi: <http://www.w3.org/2001/XMLSchema-instance> .\n",
        "@prefix default: <urn:ebu:metadata-schema:ebuCore_2012> .\n",
    ];
    let total: usize = prefixes.iter().map(|p| p.len()).sum();
    let head = &turtle[..total];
    for p in prefixes.iter() {
        assert!(head.contains(p), "missing {}", p);
    }
    assert!(turtle[total..].contains("\"Hello\""));
    assert!(turtle.ends_with(" ."));
    let empty = Converter::new().to_turtle_string();
    assert_eq!(empty.len(), total);
    for p in prefixes.iter() {
        assert!(empty.contains(p), "missing {}", p);
    }
}

#[test]
fn predicate_uris_by_namespace() {
    assert_eq!(predicate_uri(&ebucore(), "title"), format!("{}title", EBU));
    assert_eq!(predicate_uri(&None, "title"), "title");
    assert_eq!(
        predicate_uri(&Some("xsi".to_string()), "nil"),
        "http://www.w3.org/2001/XMLSchema-instancenil"
    );
}

#[test]
fn known_namespaces() {
    assert!(namespace_is_known(&None));
    for ns in ["ebucore", "owl", "rdf", "rdfs", "xsi"] {
        assert!(namespace_is_known(&Some(ns.to_string())));
    }
    assert!(!namespace_is_known(&Some("francetv".to_string())));
    assert!(!namespace_is_known(&Some("default".to_string())));
}

#[test]
fn create_subject_leaves_the_graph() {
    let mut converter = Converter::new();
    let subject = converter.create_subject("http://example.org/s");
    assert!(matches!(subject, Node::Uri(ref u) if u == "http://example.org/s"));
    assert_eq!(converter.to_ntriple_string(), "");
}

#[test]
fn turtle_statements_are_sorted_and_grouped() {
    let mut converter = Converter::new();
    let subject = converter.create_subject("http://example.org/s");
    converter.add(&subject, &ebucore(), "title", "World");
    converter.add(&subject, &ebucore(), "title", "Hello");
    converter.add(&subject, &ebucore(), "description", "D");
    let turtle = converter.to_turtle_string();
    let statements = format!(
        "<http://example.org/s> ebucore:description \"D\" ;\n{}ebucore:title \"Hello\" ,\n{}\"World\" .",
        " ".repeat(23),
        " ".repeat(37)
    );
    assert!(turtle.ends_with(&statements));
    let head = &turtle[..turtle.len() - statements.len()];
    assert_eq!(head.len(), Converter::new().to_turtle_string().len());
    assert_eq!(head.matches("@prefix ").count(), 6);
}

#[test]
fn writability_is_tracked() {
    let mut converter = Converter::new();
    assert!(converter.is_writable());
    let subject = converter.create_subject("http://example.org/s");
    converter.add(&subject, &ebucore(), "title", "Hello");
    assert!(converter.is_writable());
    let literal = Node::Literal { literal: "x".to_string(), data_type: None, language: None };
    converter.add(&literal, &ebucore(), "title", "y");
    assert!(!converter.is_writable());
}
