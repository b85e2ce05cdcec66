//! RDF terms as the library builds them, and the RDF graph of the `rdf`
//! crate that stores them, seen through what it holds: its triples, its
//! namespace prefixes, the counter that names fresh blank nodes, and its
//! base URI.

use vstd::prelude::*;

use rdf::writer::rdf_writer::RdfWriter;

verus! {

#[verifier::external_type_specification]
#[verifier::external_body]
pub struct ExGraph(rdf::graph::Graph);

#[verifier::external_type_specification]
#[verifier::external_body]
pub struct ExRdfError(rdf::error::Error);

/// An RDF term: a URI, a literal (with an optional data type URI or
/// language tag) or a blank node.
#[derive(Debug, Clone)]
pub enum Node {
    Uri(String),
    Literal { literal: String, data_type: Option<String>, language: Option<String> },
    Blank(String),
}

/// What a [`Node`] holds, as character sequences.
pub enum NodeView {
    Uri(Seq<char>),
    Literal { literal: Seq<char>, data_type: Option<Seq<char>>, language: Option<Seq<char>> },
    Blank(Seq<char>),
}

/// A triple of terms: subject, predicate, object.
pub type TripleView = (NodeView, NodeView, NodeView);

pub open spec fn opt_view(o: Option<String>) -> Option<Seq<char>> {
    match o {
        Some(s) => Some(s@),
        None => None,
    }
}

impl View for Node {
    type V = NodeView;

    open spec fn view(&self) -> NodeView {
        match self {
            Node::Uri(u) => NodeView::Uri(u@),
            Node::Literal { literal, data_type, language } => NodeView::Literal {
                literal: literal@,
                data_type: opt_view(*data_type),
                language: opt_view(*language),
            },
            Node::Blank(id) => NodeView::Blank(id@),
        }
    }
}

fn clone_opt_string(o: &Option<String>) -> (r: Option<String>)
    ensures
        opt_view(r) == opt_view(*o),
{
    match o {
        Some(s) => Some(s.clone()),
        None => None,
    }
}

impl Node {
    /// A copy of the term.
    pub fn duplicate(&self) -> (r: Node)
        ensures
            r@ == self@,
    {
        match self {
            Node::Uri(u) => Node::Uri(u.clone()),
            Node::Literal { literal, data_type, language } => Node::Literal {
                literal: literal.clone(),
                data_type: clone_opt_string(data_type),
                language: clone_opt_string(language),
            },
            Node::Blank(id) => Node::Blank(id.clone()),
        }
    }
}

/// The triples of the graph, in the order in which they were added.
pub uninterp spec fn graph_triples(g: rdf::graph::Graph) -> Seq<TripleView>;

/// The namespace prefixes of the graph, each with its namespace URI.
pub uninterp spec fn graph_namespaces(g: rdf::graph::Graph) -> Map<Seq<char>, Seq<char>>;

/// The number that the next blank node created by the graph is named after.
pub uninterp spec fn graph_blank_counter(g: rdf::graph::Graph) -> u64;

/// The base URI of the graph.
pub uninterp spec fn graph_base(g: rdf::graph::Graph) -> Option<Seq<char>>;

/// The decimal digits of `n`, most significant first.
pub open spec fn decimal(n: nat) -> Seq<char>
    decreases n,
{
    if n < 10 {
        seq![(48 + n) as char]
    } else {
        decimal(n / 10).push((48 + n % 10) as char)
    }
}

/// The identifier of the `n`-th blank node that a graph creates: `auto`
/// followed by `n` in decimal.
pub open spec fn blank_label(n: nat) -> Seq<char> {
    seq!['a', 'u', 't', 'o'] + decimal(n)
}

/// The one-character string of the decimal digit `d`.
fn digit_str(d: u64) -> (r: &'static str)
    requires
        d < 10,
    ensures
        r@ == seq![(48 + d) as char],
{
    if d == 0 {
        proof { reveal_strlit("0"); }
        "0"
    } else if d == 1 {
        proof { reveal_strlit("1"); }
        "1"
    } else if d == 2 {
        proof { reveal_strlit("2"); }
        "2"
    } else if d == 3 {
        proof { reveal_strlit("3"); }
        "3"
    } else if d == 4 {
        proof { reveal_strlit("4"); }
        "4"
    } else if d == 5 {
        proof { reveal_strlit("5"); }
        "5"
    } else if d == 6 {
        proof { reveal_strlit("6"); }
        "6"
    } else if d == 7 {
        proof { reveal_strlit("7"); }
        "7"
    } else if d == 8 {
        proof { reveal_strlit("8"); }
        "8"
    } else {
        proof { reveal_strlit("9"); }
        "9"
    }
}

proof fn lemma_decimal_nonempty(n: nat)
    ensures
        decimal(n).len() >= 1,
    decreases n,
{
    if n >= 10 {
        lemma_decimal_nonempty(n / 10);
    }
}

proof fn lemma_decimal_injective(n: nat, m: nat)
    requires
        decimal(n) == decimal(m),
    ensures
        n == m,
    decreases n,
{
    // The last digits agree, and so do the numbers before them.
    let dn = (48 + n % 10) as char;
    let dm = (48 + m % 10) as char;
    if n < 10 || m < 10 {
        lemma_decimal_nonempty(n / 10);
        lemma_decimal_nonempty(m / 10);
        assert(decimal(n).len() == 1 && decimal(m).len() == 1);
        assert(decimal(n)[0] == dn && decimal(m)[0] == dm);
    } else {
        assert(decimal(n).last() == dn && decimal(m).last() == dm);
        assert(decimal(n).drop_last() =~= decimal((n / 10) as nat));
        assert(decimal(m).drop_last() =~= decimal((m / 10) as nat));
        lemma_decimal_injective((n / 10) as nat, (m / 10) as nat);
    }
    assert(dn as int == 48 + n % 10 && dm as int == 48 + m % 10);
}

/// Blank nodes that a graph creates one after another have different
/// identifiers: `auto` followed by different numbers never coincide.
pub proof fn law_blank_labels_distinct(n: nat, m: nat)
    requires
        n != m,
    ensures
        blank_label(n) != blank_label(m),
{
    if blank_label(n) == blank_label(m) {
        assert(blank_label(n).skip(4) =~= decimal(n));
        assert(blank_label(m).skip(4) =~= decimal(m));
        lemma_decimal_injective(n, m);
    }
}

/// `n` in decimal.
pub fn decimal_string(n: u64) -> (r: String)
    ensures
        r@ == decimal(n as nat),
    decreases n,
{
    let d = digit_str(n % 10);
    if n < 10 {
        String::from_str(d)
    } else {
        let mut s = decimal_string(n / 10);
        s.append(d);
        assert(s@ =~= decimal((n / 10) as nat).push((48 + n % 10) as char));
        s
    }
}

/// The identifier of the `n`-th blank node that a graph creates.
pub fn blank_label_string(n: u64) -> (r: String)
    ensures
        r@ == blank_label(n as nat),
{
    proof { reveal_strlit("auto"); }
    let mut s = String::from_str("auto");
    s.append(decimal_string(n).as_str());
    s
}

/// `Graph::new(None)` of the `rdf` crate: a graph without base URI, triples
/// or namespaces, whose blank node counter starts at 0.
#[verifier::external_body]
pub(crate) fn graph_new() -> (r: rdf::graph::Graph)
    ensures
        graph_triples(r).len() == 0,
        graph_namespaces(r).dom() == Set::<Seq<char>>::empty(),
        graph_blank_counter(r) == 0,
        graph_base(r) is None,
{
    rdf::graph::Graph::new(None)
}

/// `Graph::add_namespace` of the `rdf` crate: the namespace store, a hash
/// map, maps `prefix` to `uri` afterwards; nothing else changes.
#[verifier::external_body]
pub(crate) fn graph_add_namespace(g: &mut rdf::graph::Graph, prefix: &str, uri: &str)
    ensures
        graph_namespaces(*final(g)) == graph_namespaces(*old(g)).insert(prefix@, uri@),
        graph_triples(*final(g)) == graph_triples(*old(g)),
        graph_blank_counter(*final(g)) == graph_blank_counter(*old(g)),
        graph_base(*final(g)) == graph_base(*old(g)),
{
    let ns = rdf::namespace::Namespace::new(prefix.to_string(), rdf::uri::Uri::new(uri.to_string()));
    g.add_namespace(&ns);
}

/// `Graph::add_triple` of the `rdf` crate, on the `rdf` nodes that stand
/// for the three terms: the triple store, a vector, gets the triple pushed
/// at its end; nothing else changes.
#[verifier::external_body]
pub(crate) fn graph_add_triple(g: &mut rdf::graph::Graph, s: &Node, p: &Node, o: &Node)
    ensures
        graph_triples(*final(g)) == graph_triples(*old(g)).push((s@, p@, o@)),
        graph_namespaces(*final(g)) == graph_namespaces(*old(g)),
        graph_blank_counter(*final(g)) == graph_blank_counter(*old(g)),
        graph_base(*final(g)) == graph_base(*old(g)),
{
    let conv = |n: &Node| match n {
        Node::Uri(u) => rdf::node::Node::UriNode { uri: rdf::uri::Uri::new(u.clone()) },
        Node::Literal { literal, data_type, language } => rdf::node::Node::LiteralNode {
            literal: literal.clone(),
            data_type: data_type.clone().map(rdf::uri::Uri::new),
            language: language.clone(),
        },
        Node::Blank(id) => rdf::node::Node::BlankNode { id: id.clone() },
    };
    g.add_triple(&rdf::triple::Triple::new(&conv(s), &conv(p), &conv(o)));
}

/// `Graph::create_blank_node` of the `rdf` crate: a blank node named `auto`
/// followed by the counter in decimal; the counter goes up by one (the crate
/// adds without overflow check, hence the bound).
#[verifier::external_body]
pub(crate) fn graph_create_blank_node(g: &mut rdf::graph::Graph) -> (n: Node)
    requires
        graph_blank_counter(*old(g)) < u64::MAX,
    ensures
        n@ == NodeView::Blank(blank_label(graph_blank_counter(*old(g)) as nat)),
        graph_blank_counter(*final(g)) == graph_blank_counter(*old(g)) + 1,
        graph_triples(*final(g)) == graph_triples(*old(g)),
        graph_namespaces(*final(g)) == graph_namespaces(*old(g)),
        graph_base(*final(g)) == graph_base(*old(g)),
{
    match g.create_blank_node() {
        rdf::node::Node::UriNode { uri } => Node::Uri(uri.to_string().clone()),
        rdf::node::Node::LiteralNode { literal, data_type, language } => Node::Literal {
            literal,
            data_type: data_type.map(|u| u.to_string().clone()),
            language,
        },
        rdf::node::Node::BlankNode { id } => Node::Blank(id),
    }
}

/// Whether a writer of the `rdf` crate accepts the triple: the subject is
/// no literal, the predicate is a URI, and no literal has both a data type
/// and a language.
pub open spec fn writable_triple(t: TripleView) -> bool {
    &&& !(t.0 is Literal)
    &&& t.1 is Uri
    &&& (t.2 matches NodeView::Literal { data_type, language, .. } ==> !(data_type is Some
        && language is Some))
}

pub open spec fn writable_triples(ts: Seq<TripleView>) -> bool {
    forall|i: int| 0 <= i < ts.len() ==> #[trigger] writable_triple(ts[i])
}

pub proof fn lemma_writable_push(ts: Seq<TripleView>, t: TripleView)
    ensures
        writable_triples(ts.push(t)) == (writable_triples(ts) && writable_triple(t)),
{
    if writable_triples(ts.push(t)) {
        assert(writable_triple(ts.push(t)[ts.len() as int]));
        assert forall|i: int| 0 <= i < ts.len() implies #[trigger] writable_triple(ts[i]) by {
            assert(writable_triple(ts.push(t)[i]));
        }
    }
    if writable_triples(ts) && writable_triple(t) {
        assert forall|i: int| 0 <= i < ts.push(t).len() implies #[trigger] writable_triple(ts.push(t)[i]) by {
            if i < ts.len() {
                assert(ts.push(t)[i] == ts[i]);
            }
        }
    }
}

/// The N-Triples form of a term.
pub open spec fn nt_node(n: NodeView) -> Seq<char> {
    match n {
        NodeView::Uri(u) => seq!['<'] + u + seq!['>'],
        NodeView::Blank(id) => seq!['_', ':'] + id,
        NodeView::Literal { literal, data_type, language } => {
            let lang = match language {
                Some(l) => seq!['@'] + l,
                None => Seq::<char>::empty(),
            };
            let dt = match data_type {
                Some(d) => seq!['^', '^', '<'] + d + seq!['>'],
                None => Seq::<char>::empty(),
            };
            seq!['"'] + literal + seq!['"'] + lang + dt
        },
    }
}

/// The N-Triples line of a triple, with its line break.
pub open spec fn nt_line(t: TripleView) -> Seq<char> {
    nt_node(t.0) + seq![' '] + nt_node(t.1) + seq![' '] + nt_node(t.2) + seq![' ', '.', '\n']
}

/// The N-Triples document of a sequence of triples: one line each, in order.
pub open spec fn nt_document(ts: Seq<TripleView>) -> Seq<char>
    decreases ts.len(),
{
    if ts.len() == 0 {
        Seq::<char>::empty()
    } else {
        nt_document(ts.drop_last()) + nt_line(ts.last())
    }
}

/// `NTriplesWriter::write_to_string` of the `rdf` crate: it fails exactly
/// when some triple is not writable, and otherwise writes the N-Triples
/// document of the triples in order (the crate's literal escaping leaves
/// the text as it is).
#[verifier::external_body]
pub(crate) fn graph_write_ntriples(g: &rdf::graph::Graph) -> (r: Result<String, rdf::error::Error>)
    ensures
        r is Ok <==> writable_triples(graph_triples(*g)),
        r matches Ok(s) ==> s@ == nt_document(graph_triples(*g)),
{
    rdf::writer::n_triples_writer::NTriplesWriter::new().write_to_string(g)
}

/// A namespace prefix with its URI.
pub type PrefixEntry = (Seq<char>, Seq<char>);

/// Writing one more triple adds its line after the document of the others.
pub proof fn law_ntriples_append(ts: Seq<TripleView>, t: TripleView)
    ensures
        nt_document(ts.push(t)) == nt_document(ts) + nt_line(t),
{
    assert(ts.push(t).drop_last() =~= ts);
}

/// The Turtle prefix lines for a list of prefixes with their URIs.
pub open spec fn prefix_lines(entries: Seq<PrefixEntry>) -> Seq<char>
    decreases entries.len(),
{
    if entries.len() == 0 {
        Seq::<char>::empty()
    } else {
        let e = entries.last();
        prefix_lines(entries.drop_last()) + "@prefix "@ + e.0 + ": <"@ + e.1 + "> .\n"@
    }
}

/// `entries` lists every entry of the map `m` once, in some order.
pub open spec fn lists_map(entries: Seq<PrefixEntry>, m: Map<Seq<char>, Seq<char>>) -> bool {
    &&& forall|i: int, j: int|
        0 <= i < entries.len() && 0 <= j < entries.len() && i != j ==> #[trigger] entries[i].0
            != #[trigger] entries[j].0
    &&& forall|i: int|
        0 <= i < entries.len() ==> #[trigger] m.contains_key(entries[i].0) && m[entries[i].0]
            == entries[i].1
    &&& forall|k: Seq<char>| #[trigger] m.contains_key(k) ==> exists|i: int| 0 <= i < entries.len() && entries[i].0 == k
}

/// The statements that the `rdf` crate's Turtle writer writes for the
/// triples `ts` when it finds the namespaces in the order `entries`: the
/// triples sorted, grouped by subject (`;`) and predicate (`,`), each URI
/// shortened by the first namespace in that order whose URI starts it.
pub uninterp spec fn turtle_statements(ts: Seq<TripleView>, entries: Seq<PrefixEntry>) -> Seq<char>;

/// The Turtle text of a graph without base URI, when the writer finds its
/// namespaces in the order `entries`: the prefix lines, then the
/// statements, which are empty without triples and end with ` .` otherwise.
pub open spec fn turtle_text(s: Seq<char>, entries: Seq<PrefixEntry>, ts: Seq<TripleView>) -> bool {
    let st = turtle_statements(ts, entries);
    &&& s == prefix_lines(entries) + st
    &&& ts.len() == 0 ==> st.len() == 0
    &&& ts.len() > 0 ==> st.len() >= 2 && st[st.len() - 2] == ' ' && st[st.len() - 1] == '.'
}

/// `TurtleWriter::write_to_string` of the `rdf` crate, with the graph's
/// namespaces: it fails exactly when some triple is not writable. On a graph
/// without base URI the text is one prefix line for each namespace, then
/// the statements; both follow the order in which the crate's hash map
/// yields the namespaces, which is not fixed, and the statements are named
/// for the triples and that order.
#[verifier::external_body]
pub(crate) fn graph_write_turtle(g: &rdf::graph::Graph) -> (r: Result<String, rdf::error::Error>)
    ensures
        r is Ok <==> writable_triples(graph_triples(*g)),
        r matches Ok(s) ==> (graph_base(*g) is None ==> exists|entries: Seq<PrefixEntry>|
            lists_map(entries, graph_namespaces(*g)) && s@ == prefix_lines(entries) + turtle_statements(
                graph_triples(*g),
                entries,
            ) && #[trigger] turtle_text(s@, entries, graph_triples(*g))),
{
    rdf::writer::turtle_writer::TurtleWriter::new(g.namespaces()).write_to_string(g)
}

} // verus!
