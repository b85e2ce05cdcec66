//! The mapping from JSON documents to RDF triples: JSON values and the
//! JSONPath selections on them, the templates that build labels from a
//! document, and the mapping that drives a converter.

pub mod json;
pub mod loader;
pub mod mapping;
