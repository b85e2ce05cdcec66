use rdf_translator::definition::ebucore::EbuCore;
use rdf_translator::definition::francetv::FranceTv;
use rdf_translator::definition::owl::Owl;
use rdf_translator::definition::rdf::Rdf;
use rdf_translator::definition::rdfs::Rdfs;
use rdf_translator::definition::undefined::Undefined;
use rdf_translator::definition::xsi::Xsi;
use rdf_translator::definition::Definition;

#[test]
fn ebucore_properties() {
    let ebucore = EbuCore {};
    for p in [
        "businessObjectId",
        "title",
        "alternativeTitle",
        "originalTitle",
        "description",
        "dateModified",
        "dateCreated",
    ] {
        assert!(ebucore.has_property(p));
    }
    assert!(!ebucore.has_property("duration"));
    assert!(!ebucore.has_property("Title"));
    assert!(!ebucore.has_property(""));
}

#[test]
fn other_vocabularies_define_no_property() {
    assert!(!FranceTv {}.has_property("title"));
    assert!(!Owl {}.has_property("sameAs"));
    assert!(!Rdf {}.has_property("type"));
    assert!(!Rdfs {}.has_property("label"));
    assert!(!Undefined {}.has_property("x"));
    assert!(!Xsi {}.has_property("nil"));
}

#[test]
fn namespaces() {
    assert_eq!(
        EbuCore {}.get_namespace(),
        "http://www.ebu.ch/metadata/ontologies/ebucore/ebucore#"
    );
    assert_eq!(FranceTv {}.get_namespace(), "http://ressources.idfrancetv.fr/ontologies#");
    assert_eq!(Owl {}.get_namespace(), "http://www.w3.org/2002/07/owl#");
    assert_eq!(Rdf {}.get_namespace(), "http://www.w3.org/1999/02/22-rdf-syntax-ns#");
    assert_eq!(Rdfs {}.get_namespace(), "http://www.w3.org/2000/01/rdf-schema#");
    assert_eq!(Undefined {}.get_namespace(), "");
    assert_eq!(Xsi {}.get_namespace(), "http://www.w3.org/2001/XMLSchema-instance");
}

#[test]
fn labels_are_namespace_then_name() {
    assert_eq!(
        EbuCore {}.get_label("title"),
        "http://www.ebu.ch/metadata/ontologies/ebucore/ebucore#title"
    );
    assert_eq!(Undefined {}.get_label("title"), "title");
    assert_eq!(Rdfs {}.get_label(""), "http://www.w3.org/2000/01/rdf-schema#");
}
