//! The converter: an RDF graph with the library's namespaces, to which the
//! mapping adds subjects and their properties, and which it writes out.

use vstd::prelude::*;

use crate::definition::Definition;
use crate::definition::ebucore::{EbuCore, EBUCORE_NAMESPACE};
use crate::definition::owl::{Owl, OWL_NAMESPACE};
use crate::definition::rdf::{Rdf, RDF_NAMESPACE};
use crate::definition::rdfs::{Rdfs, RDFS_NAMESPACE};
use crate::definition::undefined::{Undefined, UNDEFINED_NAMESPACE};
use crate::definition::xsi::{Xsi, XSI_NAMESPACE};
use crate::graph::{
    blank_label, graph_add_namespace, graph_add_triple, graph_base, graph_blank_counter,
    graph_create_blank_node, graph_namespaces, graph_new, graph_triples, graph_write_ntriples,
    graph_write_turtle, lemma_writable_push, lists_map, nt_document, opt_view, turtle_text, writable_triple, writable_triples, Node,
    NodeView, PrefixEntry, TripleView,
};
use crate::text::str_eq;

verus! {

/// The URI of the namespace that the graph of a new converter calls `default`.
pub const DEFAULT_NAMESPACE: &'static str = "urn:ebu:metadata-schema:ebuCore_2012";

/// The namespace URI of the vocabulary that a predicate's namespace name
/// selects: no name selects the empty vocabulary; `ebucore`, `owl`, `rdf`,
/// `rdfs` and `xsi` select theirs; any other name selects none.
pub open spec fn vocabulary_namespace(ns: Option<Seq<char>>) -> Option<Seq<char>> {
    match ns {
        None => Some(UNDEFINED_NAMESPACE@),
        Some(p) => if p == "ebucore"@ {
            Some(EBUCORE_NAMESPACE@)
        } else if p == "owl"@ {
            Some(OWL_NAMESPACE@)
        } else if p == "rdf"@ {
            Some(RDF_NAMESPACE@)
        } else if p == "rdfs"@ {
            Some(RDFS_NAMESPACE@)
        } else if p == "xsi"@ {
            Some(XSI_NAMESPACE@)
        } else {
            None
        },
    }
}

/// Whether a predicate's namespace name selects a vocabulary.
pub open spec fn known_namespace(ns: Option<Seq<char>>) -> bool {
    vocabulary_namespace(ns) is Some
}

/// The URI of the predicate `label` in the vocabulary that `ns` selects.
pub open spec fn property_uri(ns: Option<Seq<char>>, label: Seq<char>) -> Seq<char> {
    vocabulary_namespace(ns).unwrap() + label
}

/// The namespaces of the graph of a new converter.
pub open spec fn converter_namespaces() -> Map<Seq<char>, Seq<char>> {
    Map::<Seq<char>, Seq<char>>::empty().insert("rdf"@, RDF_NAMESPACE@).insert(
        "rdfs"@,
        RDFS_NAMESPACE@,
    ).insert("owl"@, OWL_NAMESPACE@).insert("ebucore"@, EBUCORE_NAMESPACE@).insert(
        "xsi"@,
        XSI_NAMESPACE@,
    ).insert("default"@, DEFAULT_NAMESPACE@)
}

/// Whether the namespace name `namespace` selects a vocabulary.
pub fn namespace_is_known(namespace: &Option<String>) -> (r: bool)
    ensures
        r == known_namespace(opt_view(*namespace)),
{
    match namespace {
        None => true,
        Some(p) => str_eq(p.as_str(), "ebucore") || str_eq(p.as_str(), "owl") || str_eq(
            p.as_str(),
            "rdf",
        ) || str_eq(p.as_str(), "rdfs") || str_eq(p.as_str(), "xsi"),
    }
}

/// The full URI of predicate `label` in the vocabulary that `namespace` names.
pub fn predicate_uri(namespace: &Option<String>, label: &str) -> (r: String)
    requires
        known_namespace(opt_view(*namespace)),
    ensures
        r@ == property_uri(opt_view(*namespace), label@),
{
    match namespace {
        None => Undefined {}.get_label(label),
        Some(p) => {
            if str_eq(p.as_str(), "ebucore") {
                EbuCore {}.get_label(label)
            } else if str_eq(p.as_str(), "owl") {
                Owl {}.get_label(label)
            } else if str_eq(p.as_str(), "rdf") {
                Rdf {}.get_label(label)
            } else if str_eq(p.as_str(), "rdfs") {
                Rdfs {}.get_label(label)
            } else {
                assert(p@ == "xsi"@);
                Xsi {}.get_label(label)
            }
        },
    }
}

/// Whether the writers accept the triple (`subject`, `predicate`, `object`).
pub fn triple_is_writable(subject: &Node, predicate: &Node, object: &Node) -> (r: bool)
    ensures
        r == writable_triple((subject@, predicate@, object@)),
{
    let subject_ok = match subject {
        Node::Literal { .. } => false,
        _ => true,
    };
    let predicate_ok = match predicate {
        Node::Uri(_) => true,
        _ => false,
    };
    let object_ok = match object {
        Node::Literal { data_type, language, .. } => !(data_type.is_some() && language.is_some()),
        _ => true,
    };
    subject_ok && predicate_ok && object_ok
}

/// An RDF graph that the mapping fills.
#[derive(Debug)]
pub struct Converter {
    pub graph: rdf::graph::Graph,
    /// The graph's blank node counter, which the graph does not show.
    blank_nodes: u64,
    /// Whether the writers accept every triple of the graph.
    writable: bool,
}

impl Converter {
    /// The triples of the graph, in the order they were added.
    pub closed spec fn triples(&self) -> Seq<TripleView> {
        graph_triples(self.graph)
    }

    /// The namespace prefixes of the graph with their URIs.
    pub closed spec fn namespaces(&self) -> Map<Seq<char>, Seq<char>> {
        graph_namespaces(self.graph)
    }

    /// The number after which the next fresh blank node is named.
    pub closed spec fn blank_counter(&self) -> u64 {
        graph_blank_counter(self.graph)
    }

    /// The base URI of the graph.
    pub closed spec fn base(&self) -> Option<Seq<char>> {
        graph_base(self.graph)
    }

    /// The converter knows the blank node counter of its graph, and whether
    /// the writers accept its triples.
    pub closed spec fn wf(&self) -> bool {
        &&& self.blank_nodes == graph_blank_counter(self.graph)
        &&& self.writable == writable_triples(graph_triples(self.graph))
    }

    /// `self` and `other` differ at most in their triples.
    pub open spec fn same_but_triples(&self, other: &Converter) -> bool {
        &&& self.namespaces() == other.namespaces()
        &&& self.blank_counter() == other.blank_counter()
        &&& self.base() == other.base()
        &&& other.wf() ==> self.wf()
    }

    /// The number after which the next fresh blank node is named.
    pub fn blank_count(&self) -> (r: u64)
        requires
            self.wf(),
        ensures
            r == self.blank_counter(),
    {
        self.blank_nodes
    }

    /// Whether the writers accept every triple of the graph, so that
    /// `to_ntriple_string` and `to_turtle_string` can be called.
    pub fn is_writable(&self) -> (r: bool)
        requires
            self.wf(),
        ensures
            r == writable_triples(self.triples()),
    {
        self.writable
    }

    /// Whether the graph can still create a fresh blank node.
    pub fn blank_available(&self) -> (r: bool)
        requires
            self.wf(),
        ensures
            r == (self.blank_counter() < u64::MAX),
    {
        self.blank_nodes < u64::MAX
    }

    /// A converter with an empty graph and the namespaces `rdf`, `rdfs`,
    /// `owl`, `ebucore`, `xsi` and `default`.
    pub fn new() -> (c: Converter)
        ensures
            c.triples() == Seq::<TripleView>::empty(),
            c.namespaces() == converter_namespaces(),
            c.blank_counter() == 0,
            c.base() is None,
            c.wf(),
    {
        let ebucore = EbuCore {};
        let owl = Owl {};
        let rdf = Rdf {};
        let rdfs = Rdfs {};
        let xsi = Xsi {};

        let mut graph = graph_new();
        graph_add_namespace(&mut graph, "rdf", rdf.get_namespace());
        graph_add_namespace(&mut graph, "rdfs", rdfs.get_namespace());
        graph_add_namespace(&mut graph, "owl", owl.get_namespace());
        graph_add_namespace(&mut graph, "ebucore", ebucore.get_namespace());
        graph_add_namespace(&mut graph, "xsi", xsi.get_namespace());
        graph_add_namespace(&mut graph, "default", DEFAULT_NAMESPACE);
        let c = Converter { graph: graph, blank_nodes: 0, writable: true };
        assert(c.namespaces() =~= converter_namespaces());
        c
    }

    /// The URI node for `value`; the graph is left as it is.
    pub fn create_subject(&mut self, value: &str) -> (subject: Node)
        ensures
            subject@ == NodeView::Uri(value@),
            *final(self) == *old(self),
    {
        Node::Uri(String::from_str(value))
    }

    /// A fresh blank node, named after the graph's counter, which goes up by one.
    pub fn create_blank_node(&mut self) -> (node: Node)
        requires
            old(self).wf(),
            old(self).blank_counter() < u64::MAX,
        ensures
            node@ == NodeView::Blank(blank_label(old(self).blank_counter() as nat)),
            final(self).blank_counter() == old(self).blank_counter() + 1,
            final(self).triples() == old(self).triples(),
            final(self).namespaces() == old(self).namespaces(),
            final(self).base() == old(self).base(),
            final(self).wf(),
    {
        let node = graph_create_blank_node(&mut self.graph);
        self.blank_nodes = self.blank_nodes + 1;
        node
    }

    /// The blank node with identifier `id`.
    pub fn create_blank_node_with_id(&self, id: &str) -> (node: Node)
        ensures
            node@ == NodeView::Blank(id@),
    {
        Node::Blank(String::from_str(id))
    }

    /// Adds the triple (`subject`, the predicate `label` of the vocabulary
    /// that `namespace` names, `object`).
    pub(crate) fn add_object(&mut self, subject: &Node, namespace: &Option<String>, label: &str, object: &Node)
        requires
            known_namespace(opt_view(*namespace)),
        ensures
            final(self).triples() == old(self).triples().push(
                (subject@, NodeView::Uri(property_uri(opt_view(*namespace), label@)), object@),
            ),
            final(self).same_but_triples(old(self)),
    {
        let predicate = Node::Uri(predicate_uri(namespace, label));
        let accepted = triple_is_writable(subject, &predicate, object);
        let ghost before = self.triples();
        graph_add_triple(&mut self.graph, subject, &predicate, object);
        proof {
            lemma_writable_push(before, (subject@, predicate@, object@));
        }
        self.writable = self.writable && accepted;
    }

    /// Adds a triple whose object is the plain literal `content`.
    pub fn add(&mut self, subject: &Node, namespace: &Option<String>, label: &str, content: &str)
        requires
            known_namespace(opt_view(*namespace)),
        ensures
            final(self).triples() == old(self).triples().push(
                (
                    subject@,
                    NodeView::Uri(property_uri(opt_view(*namespace), label@)),
                    NodeView::Literal { literal: content@, data_type: None, language: None },
                ),
            ),
            final(self).same_but_triples(old(self)),
    {
        let object = Node::Literal {
            literal: String::from_str(content),
            data_type: None,
            language: None,
        };
        self.add_object(subject, namespace, label, &object);
    }

    /// Adds a triple whose object is the literal `content` in language `lang`.
    pub fn add_with_language(
        &mut self,
        subject: &Node,
        namespace: &Option<String>,
        label: &str,
        content: &str,
        lang: &str,
    )
        requires
            known_namespace(opt_view(*namespace)),
        ensures
            final(self).triples() == old(self).triples().push(
                (
                    subject@,
                    NodeView::Uri(property_uri(opt_view(*namespace), label@)),
                    NodeView::Literal { literal: content@, data_type: None, language: Some(lang@) },
                ),
            ),
            final(self).same_but_triples(old(self)),
    {
        let object = Node::Literal {
            literal: String::from_str(content),
            data_type: None,
            language: Some(String::from_str(lang)),
        };
        self.add_object(subject, namespace, label, &object);
    }

    /// Adds a triple whose object is the literal `content` of data type `datatype`.
    pub fn add_with_datatype(
        &mut self,
        subject: &Node,
        namespace: &Option<String>,
        label: &str,
        content: &str,
        datatype: &str,
    )
        requires
            known_namespace(opt_view(*namespace)),
        ensures
            final(self).triples() == old(self).triples().push(
                (
                    subject@,
                    NodeView::Uri(property_uri(opt_view(*namespace), label@)),
                    NodeView::Literal {
                        literal: content@,
                        data_type: Some(datatype@),
                        language: None,
                    },
                ),
            ),
            final(self).same_but_triples(old(self)),
    {
        let object = Node::Literal {
            literal: String::from_str(content),
            data_type: Some(String::from_str(datatype)),
            language: None,
        };
        self.add_object(subject, namespace, label, &object);
    }

    /// Adds a triple whose object is the URI `content`.
    pub fn add_uri(&mut self, subject: &Node, namespace: &Option<String>, label: &str, content: &str)
        requires
            known_namespace(opt_view(*namespace)),
        ensures
            final(self).triples() == old(self).triples().push(
                (
                    subject@,
                    NodeView::Uri(property_uri(opt_view(*namespace), label@)),
                    NodeView::Uri(content@),
                ),
            ),
            final(self).same_but_triples(old(self)),
    {
        let object = Node::Uri(String::from_str(content));
        self.add_object(subject, namespace, label, &object);
    }

    /// Adds a triple whose object is the node `object` (a blank node, as the
    /// mapping uses it).
    pub fn add_blank(&mut self, subject: &Node, namespace: &Option<String>, label: &str, object: Node)
        requires
            known_namespace(opt_view(*namespace)),
        ensures
            final(self).triples() == old(self).triples().push(
                (subject@, NodeView::Uri(property_uri(opt_view(*namespace), label@)), object@),
            ),
            final(self).same_but_triples(old(self)),
    {
        self.add_object(subject, namespace, label, &object);
    }

    /// The graph in N-Triples: one line per triple, in the order they were added.
    pub fn to_ntriple_string(&self) -> (r: String)
        requires
            writable_triples(self.triples()),
        ensures
            r@ == nt_document(self.triples()),
    {
        match graph_write_ntriples(&self.graph) {
            Ok(s) => s,
            Err(_) => {
                assert(false);
                String::new()
            },
        }
    }

    /// The graph in Turtle: when the graph has no base URI, one prefix line
    /// per namespace of the graph, then the statements for its triples; the
    /// order of the namespaces, which both follow, is not fixed.
    pub fn to_turtle_string(&self) -> (r: String)
        requires
            writable_triples(self.triples()),
        ensures
            self.base() is None ==> exists|entries: Seq<PrefixEntry>|
                lists_map(entries, self.namespaces()) && #[trigger] turtle_text(r@, entries, self.triples()),
    {
        match graph_write_turtle(&self.graph) {
            Ok(s) => s,
            Err(_) => {
                assert(false);
                String::new()
            },
        }
    }
}

} // verus!
