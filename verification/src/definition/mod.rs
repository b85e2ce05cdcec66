//! Vocabularies: each one knows the URI of its namespace and which of its
//! property names it defines.

use vstd::prelude::*;

pub mod ebucore;
pub mod francetv;
pub mod owl;
pub mod rdf;
pub mod rdfs;
pub mod undefined;
pub mod xsi;

verus! {

/// A vocabulary whose terms are written as its namespace URI followed by a
/// local name.
pub trait Definition {
    /// The namespace URI of the vocabulary.
    spec fn namespace_view(&self) -> Seq<char>;

    /// Whether the vocabulary defines the property with this local name.
    spec fn defines_property(&self, property: Seq<char>) -> bool;

    fn get_namespace(&self) -> (r: &str)
        ensures
            r@ == self.namespace_view(),
    ;

    fn has_property(&self, property: &str) -> (r: bool)
        ensures
            r == self.defines_property(property@),
    ;

    /// The full URI of the term `l` of this vocabulary.
    fn get_label(&self, l: &str) -> (r: String)
        ensures
            r@ == self.namespace_view() + l@,
    {
        let mut field = String::from_str(self.get_namespace());
        field.append(l);
        field
    }
}

} // verus!
