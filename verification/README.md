# rdf_translator

Turns JSON documents into RDF graphs. A mapping names, for each kind of object
in a document, the URI subjects to create (from label templates such as
`http://example.org/video/{{$.id}}`, whose placeholders hold JSONPaths) and the
predicates to attach to them: literals, URIs, or blank nodes with predicates of
their own. The graph is written as N-Triples or Turtle.

- `src/` is the library, verified with Verus: the vocabularies
  (`definition`), RDF terms and the graph of the `rdf` crate (`graph`), the
  converter that fills and writes a graph (`converter`), and JSON values, label
  templates and mappings (`mapper`). Calls into `rdf`, `jsonpath`,
  `serde_json` and `regex` stand behind small trusted functions that make
  the call and convert its arguments and result; their contracts say what
  those crates compute. Which values the library takes from those results
  (for example, that only strings and numbers give label text) is decided by
  verified code.
- `app/` reads mappings and documents from files and JSON values.
- `tests/` runs the library on concrete mappings and documents.
