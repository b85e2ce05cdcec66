//! The mapping: for each kind of object in a JSON document, the subjects to
//! create and the predicates to attach to them, and the run of a mapping
//! over a document into a converter.

use vstd::prelude::*;
use vstd::string::*;

use crate::converter::{known_namespace, namespace_is_known, property_uri, Converter};
use crate::graph::{
    blank_label, blank_label_string, opt_view, writable_triple, writable_triples, Node, NodeView,
    TripleView,
};
use crate::mapper::json::{
    is_null_value, is_unsupported_path, json_null, json_texts, jsonpath_find, jsonpath_select,
    unsupported_path, JsonValue,
};
use crate::mapper::loader::{label_expansion, strings, try_parse_label};

verus! {

/// The predicate of an item: its vocabulary (`namespace`) and local name
/// (`label`), an optional JSONPath that must select a non-null value for the
/// item to apply (`condition`), and an optional template for the identifier
/// of the blank node that an item without label creates (`identifier`).
#[derive(Debug)]
pub struct Predicate {
    pub namespace: Option<String>,
    pub label: String,
    pub condition: Option<String>,
    pub identifier: Option<String>,
}

/// One predicate of a subject. With a `label` template, the object is the
/// first label it expands to: a plain literal, or one with the `language`
/// or the `datatype`, or a URI when `as_uri` is set. Without a label, the
/// object is a blank node, which becomes the subject of the nested `items`.
/// With `elements`, the item applies to each value that this JSONPath
/// selects instead of to the document itself.
#[derive(Debug)]
pub struct Item {
    pub elements: Option<String>,
    pub predicate: Predicate,
    pub label: Option<String>,
    pub language: String,
    pub datatype: String,
    pub as_uri: bool,
    pub items: Vec<Item>,
}

/// A kind of subject: for the document, or for each value that `elements`
/// selects in it, one URI subject per label that the `label` template
/// expands to, with the `items` as its predicates.
#[derive(Debug)]
pub struct Object {
    pub elements: Option<String>,
    pub label: String,
    pub items: Vec<Item>,
}

/// A mapping from JSON documents to RDF triples.
#[derive(Debug)]
pub struct Mapper {
    pub objects: Vec<Object>,
}

/// What a run of the mapping has built so far: the triples, the blank node
/// counter, and the namespaces and base URI, which it leaves as they are.
pub struct Progress {
    pub triples: Seq<TripleView>,
    pub counter: nat,
    pub namespaces: Map<Seq<char>, Seq<char>>,
    pub base: Option<Seq<char>>,
}

/// What a converter has built.
pub open spec fn converter_progress(c: Converter) -> Progress {
    Progress {
        triples: c.triples(),
        counter: c.blank_counter() as nat,
        namespaces: c.namespaces(),
        base: c.base(),
    }
}

pub open spec fn with_triple(st: Progress, t: TripleView) -> Progress {
    Progress { triples: st.triples.push(t), counter: st.counter, namespaces: st.namespaces, base: st.base }
}

/// The triple that a predicate makes between `subject` and `object`.
pub open spec fn predicate_triple(subject: NodeView, p: Predicate, object: NodeView) -> TripleView {
    (subject, NodeView::Uri(property_uri(opt_view(p.namespace), p.label@)), object)
}

/// A fresh blank node, unless the counter is at its limit.
pub open spec fn fresh_blank(st: Progress) -> Option<(NodeView, Progress)> {
    if st.counter < u64::MAX {
        Some(
            (
                NodeView::Blank(blank_label(st.counter)),
                Progress {
                    triples: st.triples,
                    counter: st.counter + 1,
                    namespaces: st.namespaces,
                    base: st.base,
                },
            ),
        )
    } else {
        None
    }
}

/// Some value found is not `null`.
pub open spec fn has_non_null(found: Seq<Seq<char>>) -> bool {
    exists|i: int| 0 <= i < found.len() && !json_null(#[trigger] found[i])
}

/// Whether an item's condition holds in `doc`; `None` when its path cannot
/// be evaluated.
pub open spec fn condition_holds(cond: Option<Seq<char>>, doc: Seq<char>) -> Option<bool> {
    match cond {
        None => Some(true),
        Some(c) => if unsupported_path(c) {
            None
        } else {
            match jsonpath_select(c, doc) {
                None => None,
                Some(found) => Some(has_non_null(found)),
            }
        },
    }
}

/// The blank node that an item without label creates: named by the first
/// label of the identifier template, or fresh.
pub open spec fn child_node(st: Progress, identifier: Option<Seq<char>>, doc: Seq<char>) -> Option<(NodeView, Progress)> {
    match identifier {
        Some(idl) => match label_expansion(idl, doc) {
            None => None,
            Some(ids) => if ids.len() > 0 {
                Some((NodeView::Blank(ids[0]), st))
            } else {
                fresh_blank(st)
            },
        },
        None => fresh_blank(st),
    }
}

/// The object that an item with a label makes of `content`; `None` for the
/// combinations of language, data type and URI that make none.
pub open spec fn object_node(language: Seq<char>, datatype: Seq<char>, as_uri: bool, content: Seq<char>) -> Option<NodeView> {
    if language.len() == 0 && datatype.len() == 0 && !as_uri {
        Some(NodeView::Literal { literal: content, data_type: None, language: None })
    } else if datatype.len() == 0 && !as_uri {
        Some(NodeView::Literal { literal: content, data_type: None, language: Some(language) })
    } else if language.len() == 0 && !as_uri {
        Some(NodeView::Literal { literal: content, data_type: Some(datatype), language: None })
    } else if language.len() == 0 && datatype.len() == 0 {
        Some(NodeView::Uri(content))
    } else {
        None
    }
}

/// The items applied in order to `subject` in `doc`; `None` where the run
/// cannot go on (a path or template that cannot be evaluated, a namespace
/// that names no vocabulary, no fresh blank node left).
pub open spec fn relations_effect(st: Progress, doc: Seq<char>, subject: NodeView, items: Seq<Item>) -> Option<Progress>
    decreases items, 0nat, 0nat,
{
    if items.len() == 0 {
        Some(st)
    } else {
        match relations_effect(st, doc, subject, items.drop_last()) {
            None => None,
            Some(st1) => relation_effect(st1, doc, subject, items.last()),
        }
    }
}

/// An item applied to `subject`: to `doc`, or to each value that its
/// `elements` path selects.
pub open spec fn relation_effect(st: Progress, doc: Seq<char>, subject: NodeView, item: Item) -> Option<Progress>
    decreases item, 3nat, 0nat,
{
    match item.elements {
        None => item_effect(st, doc, subject, item),
        Some(p) => if unsupported_path(p@) {
            None
        } else {
            match jsonpath_select(p@, doc) {
                None => None,
                Some(es) => item_elements_effect(st, es, subject, item),
            }
        },
    }
}

/// An item applied to `subject` for each of the values `es`, in order.
pub open spec fn item_elements_effect(st: Progress, es: Seq<Seq<char>>, subject: NodeView, item: Item) -> Option<Progress>
    decreases item, 2nat, es.len(),
{
    if es.len() == 0 {
        Some(st)
    } else {
        match item_elements_effect(st, es.drop_last(), subject, item) {
            None => None,
            Some(st1) => item_effect(st1, es.last(), subject, item),
        }
    }
}

/// An item applied to `subject` in `doc`.
pub open spec fn item_effect(st: Progress, doc: Seq<char>, subject: NodeView, item: Item) -> Option<Progress>
    decreases item, 1nat, 0nat,
{
    match condition_holds(opt_view(item.predicate.condition), doc) {
        None => None,
        Some(false) => Some(st),
        Some(true) => match item.label {
            None => match child_node(st, opt_view(item.predicate.identifier), doc) {
                None => None,
                Some((child, st1)) => if known_namespace(opt_view(item.predicate.namespace)) {
                    relations_effect(
                        with_triple(st1, predicate_triple(subject, item.predicate, child)),
                        doc,
                        child,
                        item.items@,
                    )
                } else {
                    None
                },
            },
            Some(l) => match label_expansion(l@, doc) {
                None => None,
                Some(labels) => if labels.len() == 0 {
                    Some(st)
                } else {
                    match object_node(item.language@, item.datatype@, item.as_uri, labels[0]) {
                        None => Some(st),
                        Some(o) => if known_namespace(opt_view(item.predicate.namespace)) {
                            Some(with_triple(st, predicate_triple(subject, item.predicate, o)))
                        } else {
                            None
                        },
                    }
                },
            },
        },
    }
}

/// The subjects named by `labels`, each with the `items` applied in `doc`.
pub open spec fn subjects_effect(st: Progress, doc: Seq<char>, labels: Seq<Seq<char>>, items: Seq<Item>) -> Option<Progress>
    decreases labels.len(),
{
    if labels.len() == 0 {
        Some(st)
    } else {
        match subjects_effect(st, doc, labels.drop_last(), items) {
            None => None,
            Some(st1) => relations_effect(st1, doc, NodeView::Uri(labels.last()), items),
        }
    }
}

/// An object's subjects for the document `doc`.
pub open spec fn object_in_effect(st: Progress, doc: Seq<char>, object: Object) -> Option<Progress> {
    match label_expansion(object.label@, doc) {
        None => None,
        Some(labels) => subjects_effect(st, doc, labels, object.items@),
    }
}

/// An object's subjects for each of the values `es`, in order.
pub open spec fn object_elements_effect(st: Progress, es: Seq<Seq<char>>, object: Object) -> Option<Progress>
    decreases es.len(),
{
    if es.len() == 0 {
        Some(st)
    } else {
        match object_elements_effect(st, es.drop_last(), object) {
            None => None,
            Some(st1) => object_in_effect(st1, es.last(), object),
        }
    }
}

/// An object applied to `doc`: to the document, or to each value that its
/// `elements` path selects.
pub open spec fn object_effect(st: Progress, doc: Seq<char>, object: Object) -> Option<Progress> {
    match object.elements {
        None => object_in_effect(st, doc, object),
        Some(p) => if unsupported_path(p@) {
            None
        } else {
            match jsonpath_select(p@, doc) {
                None => None,
                Some(es) => object_elements_effect(st, es, object),
            }
        },
    }
}

/// The objects applied in order to `doc`.
pub open spec fn objects_effect(st: Progress, doc: Seq<char>, objects: Seq<Object>) -> Option<Progress>
    decreases objects.len(),
{
    if objects.len() == 0 {
        Some(st)
    } else {
        match objects_effect(st, doc, objects.drop_last()) {
            None => None,
            Some(st1) => object_effect(st1, doc, objects.last()),
        }
    }
}


/// `after` holds the triples of `before` first, the same namespaces and
/// base URI, and a counter no smaller.
pub open spec fn extends(before: Progress, after: Progress) -> bool {
    &&& before.triples.len() <= after.triples.len()
    &&& forall|i: int| 0 <= i < before.triples.len() ==> after.triples[i] == before.triples[i]
    &&& after.namespaces == before.namespaces
    &&& after.base == before.base
    &&& before.counter <= after.counter
}

/// If the writers accept the triples of `before`, they accept those of `after`.
pub open spec fn keeps_writable(before: Progress, after: Progress) -> bool {
    writable_triples(before.triples) ==> writable_triples(after.triples)
}

proof fn lemma_add_triple(st: Progress, t: TripleView)
    ensures
        extends(st, with_triple(st, t)),
        writable_triple(t) ==> keeps_writable(st, with_triple(st, t)),
{
    let st2 = with_triple(st, t);
    assert forall|i: int| 0 <= i < st.triples.len() implies st2.triples[i] == st.triples[i] by {}
    if writable_triple(t) && writable_triples(st.triples) {
        assert forall|i: int| 0 <= i < st2.triples.len() implies #[trigger] writable_triple(st2.triples[i]) by {
            if i < st.triples.len() {
                assert(st2.triples[i] == st.triples[i]);
            }
        }
    }
}

proof fn lemma_extends_trans(a: Progress, b: Progress, c: Progress)
    requires
        extends(a, b),
        extends(b, c),
    ensures
        extends(a, c),
{
    assert forall|i: int| 0 <= i < a.triples.len() implies c.triples[i] == a.triples[i] by {
        assert(c.triples[i] == b.triples[i]);
    }
}

/// Items applied to a subject only add triples after those already there,
/// keep the namespaces and base URI, never move the blank node counter back,
/// and, when the subject is no literal, add only triples that the writers accept.
pub proof fn law_relations_extends(st: Progress, doc: Seq<char>, subject: NodeView, items: Seq<Item>)
    requires
        relations_effect(st, doc, subject, items) is Some,
    ensures
        extends(st, relations_effect(st, doc, subject, items).unwrap()),
        !(subject is Literal) ==> keeps_writable(st, relations_effect(st, doc, subject, items).unwrap()),
    decreases items, 0nat, 0nat,
{
    if items.len() > 0 {
        let st1 = relations_effect(st, doc, subject, items.drop_last()).unwrap();
        law_relations_extends(st, doc, subject, items.drop_last());
        lemma_relation_grow(st1, doc, subject, items.last());
        lemma_extends_trans(st, st1, relations_effect(st, doc, subject, items).unwrap());
    }
}

proof fn lemma_relation_grow(st: Progress, doc: Seq<char>, subject: NodeView, item: Item)
    requires
        relation_effect(st, doc, subject, item) is Some,
    ensures
        extends(st, relation_effect(st, doc, subject, item).unwrap()),
        !(subject is Literal) ==> keeps_writable(st, relation_effect(st, doc, subject, item).unwrap()),
    decreases item, 3nat, 0nat,
{
    match item.elements {
        None => law_item_extends(st, doc, subject, item),
        Some(p) => {
            let es = jsonpath_select(p@, doc).unwrap();
            lemma_item_elements_grow(st, es, subject, item);
        },
    }
}

proof fn lemma_item_elements_grow(st: Progress, es: Seq<Seq<char>>, subject: NodeView, item: Item)
    requires
        item_elements_effect(st, es, subject, item) is Some,
    ensures
        extends(st, item_elements_effect(st, es, subject, item).unwrap()),
        !(subject is Literal) ==> keeps_writable(st, item_elements_effect(st, es, subject, item).unwrap()),
    decreases item, 2nat, es.len(),
{
    if es.len() > 0 {
        let st1 = item_elements_effect(st, es.drop_last(), subject, item).unwrap();
        lemma_item_elements_grow(st, es.drop_last(), subject, item);
        law_item_extends(st1, es.last(), subject, item);
        lemma_extends_trans(st, st1, item_elements_effect(st, es, subject, item).unwrap());
    }
}

/// One item applied to a subject only adds triples after those already
/// there, keeps the namespaces and base URI, never moves the blank node
/// counter back, and, when the subject is no literal, adds only triples
/// that the writers accept.
pub proof fn law_item_extends(st: Progress, doc: Seq<char>, subject: NodeView, item: Item)
    requires
        item_effect(st, doc, subject, item) is Some,
    ensures
        extends(st, item_effect(st, doc, subject, item).unwrap()),
        !(subject is Literal) ==> keeps_writable(st, item_effect(st, doc, subject, item).unwrap()),
    decreases item, 1nat, 0nat,
{
    let r = item_effect(st, doc, subject, item).unwrap();
    if condition_holds(opt_view(item.predicate.condition), doc) == Some(true) {
        match item.label {
            None => {
                let (child, st1) = child_node(st, opt_view(item.predicate.identifier), doc).unwrap();
                let t = predicate_triple(subject, item.predicate, child);
                let st2 = with_triple(st1, t);
                assert(extends(st, st1));
                assert(keeps_writable(st, st1));
                lemma_add_triple(st1, t);
                lemma_extends_trans(st, st1, st2);
                law_relations_extends(st2, doc, child, item.items@);
                lemma_extends_trans(st, st2, r);
            },
            Some(l) => {
                let labels = label_expansion(l@, doc).unwrap();
                if labels.len() > 0 {
                    match object_node(item.language@, item.datatype@, item.as_uri, labels[0]) {
                        None => {},
                        Some(o) => {
                            lemma_add_triple(st, predicate_triple(subject, item.predicate, o));
                        },
                    }
                }
            },
        }
    }
}

proof fn lemma_subjects_grow(st: Progress, doc: Seq<char>, labels: Seq<Seq<char>>, items: Seq<Item>)
    requires
        subjects_effect(st, doc, labels, items) is Some,
    ensures
        extends(st, subjects_effect(st, doc, labels, items).unwrap()),
        keeps_writable(st, subjects_effect(st, doc, labels, items).unwrap()),
    decreases labels.len(),
{
    if labels.len() > 0 {
        let st1 = subjects_effect(st, doc, labels.drop_last(), items).unwrap();
        lemma_subjects_grow(st, doc, labels.drop_last(), items);
        law_relations_extends(st1, doc, NodeView::Uri(labels.last()), items);
        lemma_extends_trans(st, st1, subjects_effect(st, doc, labels, items).unwrap());
    }
}

proof fn lemma_object_elements_grow(st: Progress, es: Seq<Seq<char>>, object: Object)
    requires
        object_elements_effect(st, es, object) is Some,
    ensures
        extends(st, object_elements_effect(st, es, object).unwrap()),
        keeps_writable(st, object_elements_effect(st, es, object).unwrap()),
    decreases es.len(),
{
    if es.len() > 0 {
        let st1 = object_elements_effect(st, es.drop_last(), object).unwrap();
        lemma_object_elements_grow(st, es.drop_last(), object);
        let labels = label_expansion(object.label@, es.last()).unwrap();
        lemma_subjects_grow(st1, es.last(), labels, object.items@);
        lemma_extends_trans(st, st1, object_elements_effect(st, es, object).unwrap());
    }
}

proof fn lemma_objects_grow(st: Progress, doc: Seq<char>, objects: Seq<Object>)
    requires
        objects_effect(st, doc, objects) is Some,
    ensures
        extends(st, objects_effect(st, doc, objects).unwrap()),
        keeps_writable(st, objects_effect(st, doc, objects).unwrap()),
    decreases objects.len(),
{
    if objects.len() > 0 {
        let st1 = objects_effect(st, doc, objects.drop_last()).unwrap();
        lemma_objects_grow(st, doc, objects.drop_last());
        let object = objects.last();
        match object.elements {
            None => {
                let labels = label_expansion(object.label@, doc).unwrap();
                lemma_subjects_grow(st1, doc, labels, object.items@);
            },
            Some(p) => {
                let es = jsonpath_select(p@, doc).unwrap();
                lemma_object_elements_grow(st1, es, object);
            },
        }
        lemma_extends_trans(st, st1, objects_effect(st, doc, objects).unwrap());
    }
}

/// A run of a mapping only adds triples after those already there, leaves
/// the namespaces and the base URI as they are, never moves the blank node
/// counter back, and adds only triples that the RDF writers accept: every
/// subject is a URI or a blank node, every predicate a URI, and no literal
/// has both a data type and a language.
pub proof fn law_mapping_extends(mapper: Mapper, st: Progress, doc: Seq<char>)
    requires
        mapper.mapping_effect(st, doc) is Some,
    ensures
        extends(st, mapper.mapping_effect(st, doc).unwrap()),
        keeps_writable(st, mapper.mapping_effect(st, doc).unwrap()),
{
    lemma_objects_grow(st, doc, mapper.objects@);
}

/// Running a list of objects that is two lists one after the other is
/// running the first list, then the second from where the first left off.
pub proof fn law_objects_concat(st: Progress, doc: Seq<char>, a: Seq<Object>, b: Seq<Object>)
    ensures
        objects_effect(st, doc, a + b) == (match objects_effect(st, doc, a) {
            None => None,
            Some(st1) => objects_effect(st1, doc, b),
        }),
    decreases b.len(),
{
    if b.len() == 0 {
        assert(a + b =~= a);
    } else {
        assert((a + b).drop_last() =~= a + b.drop_last());
        assert((a + b).last() == b.last());
        law_objects_concat(st, doc, a, b.drop_last());
    }
}

/// Applying a list of items that is two lists one after the other is
/// applying the first list, then the second from where the first left off.
pub proof fn law_items_concat(st: Progress, doc: Seq<char>, subject: NodeView, a: Seq<Item>, b: Seq<Item>)
    ensures
        relations_effect(st, doc, subject, a + b) == (match relations_effect(st, doc, subject, a) {
            None => None,
            Some(st1) => relations_effect(st1, doc, subject, b),
        }),
    decreases b.len(),
{
    if b.len() == 0 {
        assert(a + b =~= a);
    } else {
        assert((a + b).drop_last() =~= a + b.drop_last());
        assert((a + b).last() == b.last());
        law_items_concat(st, doc, subject, a, b.drop_last());
    }
}

/// Making the subjects of a list of labels that is two lists one after the
/// other is making those of the first list, then those of the second from
/// where the first left off.
pub proof fn law_subjects_concat(st: Progress, doc: Seq<char>, a: Seq<Seq<char>>, b: Seq<Seq<char>>, items: Seq<Item>)
    ensures
        subjects_effect(st, doc, a + b, items) == (match subjects_effect(st, doc, a, items) {
            None => None,
            Some(st1) => subjects_effect(st1, doc, b, items),
        }),
    decreases b.len(),
{
    if b.len() == 0 {
        assert(a + b =~= a);
    } else {
        assert((a + b).drop_last() =~= a + b.drop_last());
        assert((a + b).last() == b.last());
        law_subjects_concat(st, doc, a, b.drop_last(), items);
    }
}

/// The subject of one label is the URI that the label writes, with the
/// items applied to it.
pub proof fn law_subjects_single(st: Progress, doc: Seq<char>, label: Seq<char>, items: Seq<Item>)
    ensures
        subjects_effect(st, doc, seq![label], items) == relations_effect(st, doc, NodeView::Uri(label), items),
{
    let one = seq![label];
    assert(one.drop_last() =~= Seq::<Seq<char>>::empty());
    assert(subjects_effect(st, doc, one.drop_last(), items) == Some(st));
    assert(one.last() == label);
}

/// An object without `elements` makes one URI subject per label that its
/// template expands to in the document, in order: the items are applied to
/// the subject of the first label, then the subjects of the other labels
/// are made from where that left off.
pub proof fn law_object_subjects(st: Progress, doc: Seq<char>, object: Object, labels: Seq<Seq<char>>)
    requires
        object.elements is None,
        label_expansion(object.label@, doc) == Some(labels),
        labels.len() > 0,
    ensures
        object_effect(st, doc, object) == (match relations_effect(st, doc, NodeView::Uri(labels[0]), object.items@) {
            None => None,
            Some(st1) => subjects_effect(st1, doc, labels.drop_first(), object.items@),
        }),
{
    assert(labels =~= seq![labels[0]] + labels.drop_first());
    law_subjects_concat(st, doc, seq![labels[0]], labels.drop_first(), object.items@);
    law_subjects_single(st, doc, labels[0], object.items@);
}

/// The text that a term writes: a URI, the text of a literal, the
/// identifier of a blank node.
pub open spec fn node_text(n: NodeView) -> Seq<char> {
    match n {
        NodeView::Uri(u) => u,
        NodeView::Literal { literal, .. } => literal,
        NodeView::Blank(id) => id,
    }
}

/// An item with a label, whose condition holds and whose template expands
/// to at least one label, makes its object of the first of those labels:
/// it adds at most one triple, from `subject`, whose object writes that
/// label. When at most one of a language, a data type and the URI flag is
/// set and the namespace names a vocabulary, it adds exactly that triple.
pub proof fn law_item_object_is_first_label(
    st: Progress,
    doc: Seq<char>,
    subject: NodeView,
    item: Item,
    labels: Seq<Seq<char>>,
)
    requires
        condition_holds(opt_view(item.predicate.condition), doc) == Some(true),
        item.label is Some,
        label_expansion(item.label.unwrap()@, doc) == Some(labels),
        labels.len() > 0,
    ensures
        item_effect(st, doc, subject, item) matches Some(st2) ==> st2 == st || (
            st2 == with_triple(st, st2.triples.last())
            && st2.triples.last().0 == subject
            && node_text(st2.triples.last().2) == labels[0]
        ),
        ((item.language@.len() == 0 && item.datatype@.len() == 0)
            || (item.language@.len() == 0 && !item.as_uri)
            || (item.datatype@.len() == 0 && !item.as_uri))
            && known_namespace(opt_view(item.predicate.namespace)) ==> (
            item_effect(st, doc, subject, item) matches Some(st2)
            && st2 == with_triple(st, st2.triples.last())
            && st2.triples.last().0 == subject
            && node_text(st2.triples.last().2) == labels[0]
        ),
{
    match object_node(item.language@, item.datatype@, item.as_uri, labels[0]) {
        None => {},
        Some(o) => {
            let t = predicate_triple(subject, item.predicate, o);
            assert(with_triple(st, t).triples.last() == t);
        },
    }
}

/// A graph that starts without triples and is filled by a run of a mapping
/// can always be written: the writers accept every triple in it.
pub proof fn law_mapped_graph_is_writable(mapper: Mapper, start: Progress, doc: Seq<char>)
    requires
        start.triples.len() == 0,
        mapper.mapping_effect(start, doc) is Some,
    ensures
        writable_triples(mapper.mapping_effect(start, doc).unwrap().triples),
{
    law_mapping_extends(mapper, start, doc);
}

proof fn lemma_relations_failure(st: Progress, doc: Seq<char>, subject: NodeView, items: Seq<Item>, k: int)
    requires
        0 <= k <= items.len(),
        relations_effect(st, doc, subject, items.take(k)) is None,
    ensures
        relations_effect(st, doc, subject, items) is None,
    decreases items.len() - k,
{
    if k < items.len() {
        assert(items.take(k + 1).drop_last() =~= items.take(k));
        lemma_relations_failure(st, doc, subject, items, k + 1);
    } else {
        assert(items.take(k) =~= items);
    }
}

proof fn lemma_item_elements_failure(st: Progress, es: Seq<Seq<char>>, subject: NodeView, item: Item, k: int)
    requires
        0 <= k <= es.len(),
        item_elements_effect(st, es.take(k), subject, item) is None,
    ensures
        item_elements_effect(st, es, subject, item) is None,
    decreases es.len() - k,
{
    if k < es.len() {
        assert(es.take(k + 1).drop_last() =~= es.take(k));
        lemma_item_elements_failure(st, es, subject, item, k + 1);
    } else {
        assert(es.take(k) =~= es);
    }
}

proof fn lemma_subjects_failure(st: Progress, doc: Seq<char>, labels: Seq<Seq<char>>, items: Seq<Item>, k: int)
    requires
        0 <= k <= labels.len(),
        subjects_effect(st, doc, labels.take(k), items) is None,
    ensures
        subjects_effect(st, doc, labels, items) is None,
    decreases labels.len() - k,
{
    if k < labels.len() {
        assert(labels.take(k + 1).drop_last() =~= labels.take(k));
        lemma_subjects_failure(st, doc, labels, items, k + 1);
    } else {
        assert(labels.take(k) =~= labels);
    }
}

proof fn lemma_object_elements_failure(st: Progress, es: Seq<Seq<char>>, object: Object, k: int)
    requires
        0 <= k <= es.len(),
        object_elements_effect(st, es.take(k), object) is None,
    ensures
        object_elements_effect(st, es, object) is None,
    decreases es.len() - k,
{
    if k < es.len() {
        assert(es.take(k + 1).drop_last() =~= es.take(k));
        lemma_object_elements_failure(st, es, object, k + 1);
    } else {
        assert(es.take(k) =~= es);
    }
}

proof fn lemma_objects_failure(st: Progress, doc: Seq<char>, objects: Seq<Object>, k: int)
    requires
        0 <= k <= objects.len(),
        objects_effect(st, doc, objects.take(k)) is None,
    ensures
        objects_effect(st, doc, objects) is None,
    decreases objects.len() - k,
{
    if k < objects.len() {
        assert(objects.take(k + 1).drop_last() =~= objects.take(k));
        lemma_objects_failure(st, doc, objects, k + 1);
    } else {
        assert(objects.take(k) =~= objects);
    }
}

/// Where the triples of a run go: a converter, or a dry run that only
/// keeps count.
trait TripleSink {
    spec fn progress(&self) -> Progress;

    spec fn ready(&self) -> bool;

    fn blank_available(&self) -> (r: bool)
        requires
            self.ready(),
        ensures
            r == (self.progress().counter < u64::MAX),
    ;

    fn fresh_blank(&mut self) -> (n: Node)
        requires
            old(self).ready(),
            old(self).progress().counter < u64::MAX,
        ensures
            final(self).ready(),
            fresh_blank(old(self).progress()) == Some((n@, final(self).progress())),
    ;

    fn add_predicate(&mut self, subject: &Node, predicate: &Predicate, object: &Node)
        requires
            old(self).ready(),
            known_namespace(opt_view(predicate.namespace)),
        ensures
            final(self).ready(),
            final(self).progress() == with_triple(
                old(self).progress(),
                predicate_triple(subject@, *predicate, object@),
            ),
    ;
}

impl TripleSink for Converter {
    spec fn progress(&self) -> Progress {
        converter_progress(*self)
    }

    spec fn ready(&self) -> bool {
        self.wf()
    }

    fn blank_available(&self) -> (r: bool) {
        Converter::blank_available(self)
    }

    fn fresh_blank(&mut self) -> (n: Node) {
        self.create_blank_node()
    }

    fn add_predicate(&mut self, subject: &Node, predicate: &Predicate, object: &Node) {
        self.add_object(subject, &predicate.namespace, predicate.label.as_str(), object);
    }
}

/// A run that adds no triple: it counts blank nodes from where a converter
/// stands and tracks, as ghost state, what the converter would hold.
struct DryRun {
    counter: u64,
    state: Ghost<Progress>,
}

impl TripleSink for DryRun {
    spec fn progress(&self) -> Progress {
        Progress {
            triples: self.state@.triples,
            counter: self.counter as nat,
            namespaces: self.state@.namespaces,
            base: self.state@.base,
        }
    }

    spec fn ready(&self) -> bool {
        true
    }

    fn blank_available(&self) -> (r: bool) {
        self.counter < u64::MAX
    }

    fn fresh_blank(&mut self) -> (n: Node) {
        let n = Node::Blank(blank_label_string(self.counter));
        self.counter = self.counter + 1;
        n
    }

    fn add_predicate(&mut self, subject: &Node, predicate: &Predicate, object: &Node) {
        let ghost next = with_triple(self.progress(), predicate_triple(subject@, *predicate, object@));
        self.state = Ghost(next);
    }
}

pub open spec fn opt_node(o: Option<Node>) -> Option<NodeView> {
    match o {
        Some(n) => Some(n@),
        None => None,
    }
}

/// The object that an item with a label makes of `content`.
fn make_object(language: &str, datatype: &str, as_uri: bool, content: &str) -> (r: Option<Node>)
    ensures
        opt_node(r) == object_node(language@, datatype@, as_uri, content@),
{
    let no_language = language.unicode_len() == 0;
    let no_datatype = datatype.unicode_len() == 0;
    if no_language && no_datatype && !as_uri {
        Some(Node::Literal { literal: String::from_str(content), data_type: None, language: None })
    } else if no_datatype && !as_uri {
        Some(
            Node::Literal {
                literal: String::from_str(content),
                data_type: None,
                language: Some(String::from_str(language)),
            },
        )
    } else if no_language && !as_uri {
        Some(
            Node::Literal {
                literal: String::from_str(content),
                data_type: Some(String::from_str(datatype)),
                language: None,
            },
        )
    } else if no_language && no_datatype {
        Some(Node::Uri(String::from_str(content)))
    } else {
        None
    }
}

/// Whether some value found is not `null`.
fn any_non_null(found: &Vec<JsonValue>) -> (r: bool)
    ensures
        r == has_non_null(json_texts(found@)),
{
    let ghost f = json_texts(found@);
    let mut i: usize = 0;
    while i < found.len()
        invariant
            i <= found.len(),
            f == json_texts(found@),
            forall|k: int| 0 <= k < i ==> json_null(#[trigger] f[k]),
        decreases found.len() - i,
    {
        if !is_null_value(&found[i]) {
            assert(!json_null(f[i as int]));
            return true;
        }
        i = i + 1;
    }
    false
}

impl Mapper {
    /// The run of the mapping on `doc` from `st`.
    pub open spec fn mapping_effect(&self, st: Progress, doc: Seq<char>) -> Option<Progress> {
        objects_effect(st, doc, self.objects@)
    }

    /// Applies the items in order to `subject`.
    fn process_relations<S: TripleSink>(
        &self,
        document: &JsonValue,
        sink: &mut S,
        subject: &Node,
        items: &Vec<Item>,
    ) -> (ok: bool)
        requires
            old(sink).ready(),
        ensures
            final(sink).ready(),
            ok == relations_effect(old(sink).progress(), document@, subject@, items@) is Some,
            ok ==> relations_effect(old(sink).progress(), document@, subject@, items@) == Some(
                final(sink).progress(),
            ),
        decreases items@, 0nat, 0nat,
    {
        let ghost st0 = sink.progress();
        let mut i: usize = 0;
        while i < items.len()
            invariant
                i <= items.len(),
                sink.ready(),
                st0 == old(sink).progress(),
                relations_effect(st0, document@, subject@, items@.take(i as int)) == Some(
                    sink.progress(),
                ),
            decreases items.len() - i,
        {
            proof {
                assert(items@.take(i + 1).drop_last() =~= items@.take(i as int));
            }
            let ghost cur = sink.progress();
            if !self.process_relation(document, sink, subject, &items[i]) {
                proof {
                    let t = items@.take(i + 1);
                    assert(t.last() == items@[i as int]);
                    assert(relation_effect(cur, document@, subject@, items@[i as int]) is None);
                    assert(relations_effect(st0, document@, subject@, t) is None);
                    lemma_relations_failure(st0, document@, subject@, items@, i + 1);
                }
                return false;
            }
            i = i + 1;
        }
        assert(items@.take(items.len() as int) =~= items@);
        true
    }

    /// Applies an item to `subject`: to the document, or to each value that
    /// its `elements` path selects.
    fn process_relation<S: TripleSink>(
        &self,
        document: &JsonValue,
        sink: &mut S,
        subject: &Node,
        item: &Item,
    ) -> (ok: bool)
        requires
            old(sink).ready(),
        ensures
            final(sink).ready(),
            ok == relation_effect(old(sink).progress(), document@, subject@, *item) is Some,
            ok ==> relation_effect(old(sink).progress(), document@, subject@, *item) == Some(
                final(sink).progress(),
            ),
        decreases item, 3nat, 0nat,
    {
        match &item.elements {
            None => self.process_item(document, sink, subject, item),
            Some(elements_path) => {
                if is_unsupported_path(elements_path.as_str()) {
                    return false;
                }
                let elements = match jsonpath_find(elements_path.as_str(), document) {
                    None => {
                        return false;
                    },
                    Some(e) => e,
                };
                let ghost es = json_texts(elements@);
                let ghost st0 = sink.progress();
                let mut j: usize = 0;
                while j < elements.len()
                    invariant
                        j <= elements.len(),
                        sink.ready(),
                        st0 == old(sink).progress(),
                        es == json_texts(elements@),
                        relation_effect(st0, document@, subject@, *item) == item_elements_effect(
                            st0,
                            es,
                            subject@,
                            *item,
                        ),
                        item_elements_effect(st0, es.take(j as int), subject@, *item) == Some(
                            sink.progress(),
                        ),
                    decreases elements.len() - j,
                {
                    proof {
                        assert(es.take(j + 1).drop_last() =~= es.take(j as int));
                        assert(es.take(j + 1).last() == elements@[j as int]@);
                    }
                    let ghost cur = sink.progress();
                    if !self.process_item(&elements[j], sink, subject, item) {
                        proof {
                            let t = es.take(j + 1);
                            assert(item_effect(cur, t.last(), subject@, *item) is None);
                            assert(item_elements_effect(st0, t, subject@, *item) is None);
                            lemma_item_elements_failure(st0, es, subject@, *item, j + 1);
                        }
                        return false;
                    }
                    j = j + 1;
                }
                assert(es.take(elements.len() as int) =~= es);
                true
            },
        }
    }

    /// Applies an item to `subject` in `document`.
    fn process_item<S: TripleSink>(
        &self,
        document: &JsonValue,
        sink: &mut S,
        subject: &Node,
        item: &Item,
    ) -> (ok: bool)
        requires
            old(sink).ready(),
        ensures
            final(sink).ready(),
            ok == item_effect(old(sink).progress(), document@, subject@, *item) is Some,
            ok ==> item_effect(old(sink).progress(), document@, subject@, *item) == Some(
                final(sink).progress(),
            ),
        decreases item, 1nat, 0nat,
    {
        let ghost st0 = sink.progress();
        match &item.predicate.condition {
            Some(condition) => {
                if is_unsupported_path(condition.as_str()) {
                    return false;
                }
                match jsonpath_find(condition.as_str(), document) {
                    None => {
                        return false;
                    },
                    Some(founds) => {
                        if !any_non_null(&founds) {
                            return true;
                        }
                    },
                }
            },
            None => {},
        }
        match &item.label {
            None => {
                let child = match &item.predicate.identifier {
                    Some(identifier) => match try_parse_label(identifier.as_str(), document) {
                        None => {
                            return false;
                        },
                        Some(ids) => {
                            if ids.len() > 0 {
                                assert(strings(ids@)[0] == ids@[0]@);
                                Node::Blank(ids[0].clone())
                            } else {
                                if !sink.blank_available() {
                                    return false;
                                }
                                sink.fresh_blank()
                            }
                        },
                    },
                    None => {
                        if !sink.blank_available() {
                            return false;
                        }
                        sink.fresh_blank()
                    },
                };
                if !namespace_is_known(&item.predicate.namespace) {
                    return false;
                }
                sink.add_predicate(subject, &item.predicate, &child);
                self.process_relations(document, sink, &child, &item.items)
            },
            Some(label) => {
                let object_labels = match try_parse_label(label.as_str(), document) {
                    None => {
                        return false;
                    },
                    Some(v) => v,
                };
                if object_labels.len() == 0 {
                    return true;
                }
                assert(strings(object_labels@)[0] == object_labels@[0]@);
                let object = match make_object(
                    item.language.as_str(),
                    item.datatype.as_str(),
                    item.as_uri,
                    object_labels[0].as_str(),
                ) {
                    None => {
                        return true;
                    },
                    Some(o) => o,
                };
                if !namespace_is_known(&item.predicate.namespace) {
                    return false;
                }
                sink.add_predicate(subject, &item.predicate, &object);
                true
            },
        }
    }

    /// The subjects of an object for one document, each with the object's items.
    fn process_object_in<S: TripleSink>(&self, document: &JsonValue, sink: &mut S, object: &Object) -> (ok: bool)
        requires
            old(sink).ready(),
        ensures
            final(sink).ready(),
            ok == object_in_effect(old(sink).progress(), document@, *object) is Some,
            ok ==> object_in_effect(old(sink).progress(), document@, *object) == Some(final(sink).progress()),
    {
        let labels = match try_parse_label(object.label.as_str(), document) {
            None => {
                return false;
            },
            Some(v) => v,
        };
        let ghost ls = strings(labels@);
        let ghost st0 = sink.progress();
        let mut k: usize = 0;
        while k < labels.len()
            invariant
                k <= labels.len(),
                sink.ready(),
                st0 == old(sink).progress(),
                ls == strings(labels@),
                object_in_effect(st0, document@, *object) == subjects_effect(st0, document@, ls, object.items@),
                subjects_effect(st0, document@, ls.take(k as int), object.items@) == Some(sink.progress()),
            decreases labels.len() - k,
        {
            proof {
                assert(ls.take(k + 1).drop_last() =~= ls.take(k as int));
                assert(ls.take(k + 1).last() == labels@[k as int]@);
            }
            let subject = Node::Uri(labels[k].clone());
            let ghost cur = sink.progress();
            if !self.process_relations(document, sink, &subject, &object.items) {
                proof {
                    let t = ls.take(k + 1);
                    assert(relations_effect(cur, document@, NodeView::Uri(t.last()), object.items@) is None);
                    assert(subjects_effect(st0, document@, t, object.items@) is None);
                    lemma_subjects_failure(st0, document@, ls, object.items@, k + 1);
                }
                return false;
            }
            k = k + 1;
        }
        assert(ls.take(labels.len() as int) =~= ls);
        true
    }

    /// An object applied to the document, or to each value that its
    /// `elements` path selects.
    fn process_object<S: TripleSink>(&self, document: &JsonValue, sink: &mut S, object: &Object) -> (ok: bool)
        requires
            old(sink).ready(),
        ensures
            final(sink).ready(),
            ok == object_effect(old(sink).progress(), document@, *object) is Some,
            ok ==> object_effect(old(sink).progress(), document@, *object) == Some(final(sink).progress()),
    {
        match &object.elements {
            None => self.process_object_in(document, sink, object),
            Some(elements_path) => {
                if is_unsupported_path(elements_path.as_str()) {
                    return false;
                }
                let elements = match jsonpath_find(elements_path.as_str(), document) {
                    None => {
                        return false;
                    },
                    Some(e) => e,
                };
                let ghost es = json_texts(elements@);
                let ghost st0 = sink.progress();
                let mut j: usize = 0;
                while j < elements.len()
                    invariant
                        j <= elements.len(),
                        sink.ready(),
                        st0 == old(sink).progress(),
                        es == json_texts(elements@),
                        object_effect(st0, document@, *object) == object_elements_effect(st0, es, *object),
                        object_elements_effect(st0, es.take(j as int), *object) == Some(sink.progress()),
                    decreases elements.len() - j,
                {
                    proof {
                        assert(es.take(j + 1).drop_last() =~= es.take(j as int));
                        assert(es.take(j + 1).last() == elements@[j as int]@);
                    }
                    let ghost cur = sink.progress();
                    if !self.process_object_in(&elements[j], sink, object) {
                        proof {
                            let t = es.take(j + 1);
                            assert(object_in_effect(cur, t.last(), *object) is None);
                            assert(object_elements_effect(st0, t, *object) is None);
                            lemma_object_elements_failure(st0, es, *object, j + 1);
                        }
                        return false;
                    }
                    j = j + 1;
                }
                assert(es.take(elements.len() as int) =~= es);
                true
            },
        }
    }

    /// All objects, in order.
    fn process_objects<S: TripleSink>(&self, document: &JsonValue, sink: &mut S) -> (ok: bool)
        requires
            old(sink).ready(),
        ensures
            final(sink).ready(),
            ok == self.mapping_effect(old(sink).progress(), document@) is Some,
            ok ==> self.mapping_effect(old(sink).progress(), document@) == Some(final(sink).progress()),
    {
        let ghost st0 = sink.progress();
        let mut i: usize = 0;
        while i < self.objects.len()
            invariant
                i <= self.objects.len(),
                sink.ready(),
                st0 == old(sink).progress(),
                objects_effect(st0, document@, self.objects@.take(i as int)) == Some(sink.progress()),
            decreases self.objects.len() - i,
        {
            proof {
                assert(self.objects@.take(i + 1).drop_last() =~= self.objects@.take(i as int));
            }
            let ghost cur = sink.progress();
            if !self.process_object(document, sink, &self.objects[i]) {
                proof {
                    let t = self.objects@.take(i + 1);
                    assert(t.last() == self.objects@[i as int]);
                    assert(object_effect(cur, document@, t.last()) is None);
                    assert(objects_effect(st0, document@, t) is None);
                    lemma_objects_failure(st0, document@, self.objects@, i + 1);
                }
                return false;
            }
            i = i + 1;
        }
        assert(self.objects@.take(self.objects.len() as int) =~= self.objects@);
        true
    }

    /// Runs the mapping on `document`, adding its triples to `converter`.
    pub fn process(&self, document: &JsonValue, converter: &mut Converter)
        requires
            old(converter).wf(),
            self.mapping_effect(converter_progress(*old(converter)), document@) is Some,
        ensures
            final(converter).wf(),
            converter_progress(*final(converter)) == self.mapping_effect(
                converter_progress(*old(converter)),
                document@,
            ).unwrap(),
            final(converter).namespaces() == old(converter).namespaces(),
            final(converter).base() == old(converter).base(),
            old(converter).triples().is_prefix_of(final(converter).triples()),
            writable_triples(old(converter).triples()) ==> writable_triples(final(converter).triples()),
    {
        let ok = self.process_objects(document, converter);
        assert(ok);
        proof {
            law_mapping_extends(*self, converter_progress(*old(converter)), document@);
            assert(old(converter).triples() =~= final(converter).triples().subrange(
                0,
                old(converter).triples().len() as int,
            ));
        }
    }

    /// `process` where the run can be made; otherwise the converter is left
    /// as it is and the result is `false`.
    pub fn try_process(&self, document: &JsonValue, converter: &mut Converter) -> (r: bool)
        requires
            old(converter).wf(),
        ensures
            final(converter).wf(),
            r == self.mapping_effect(converter_progress(*old(converter)), document@) is Some,
            r ==> converter_progress(*final(converter)) == self.mapping_effect(
                converter_progress(*old(converter)),
                document@,
            ).unwrap(),
            !r ==> *final(converter) == *old(converter),
    {
        let mut dry = DryRun {
            counter: converter.blank_count(),
            state: Ghost(converter_progress(*converter)),
        };
        assert(dry.progress() == converter_progress(*converter));
        if self.process_objects(document, &mut dry) {
            self.process(document, converter);
            true
        } else {
            false
        }
    }
}

} // verus!
