//! Conversion of JSON documents into RDF graphs, driven by a mapping that
//! names, for each kind of object in the document, the subjects to create
//! and the predicates to attach to them.
//!
//! - `definition`: the vocabularies, with their namespace URIs;
//! - `graph`: RDF terms and the graph of the `rdf` crate that stores them;
//! - `converter`: the graph that a mapping fills, and how it is written;
//! - `mapper`: JSON values, label templates and the mapping itself;
//! - `text`: small helpers on character strings.

pub mod converter;
pub mod definition;
pub mod graph;
pub mod mapper;
pub mod text;

pub use converter::Converter;
pub use mapper::loader::Mapper;
