use vstd::prelude::*;

use crate::definition::Definition;

verus! {

pub const RDF_NAMESPACE: &'static str = "http://www.w3.org/1999/02/22-rdf-syntax-ns#";

/// The RDF vocabulary; it defines no property here.
#[derive(Debug)]
pub struct Rdf {}

impl Definition for Rdf {
    open spec fn namespace_view(&self) -> Seq<char> {
        RDF_NAMESPACE@
    }

    open spec fn defines_property(&self, property: Seq<char>) -> bool {
        false
    }

    fn get_namespace(&self) -> (r: &str) {
        RDF_NAMESPACE
    }

    fn has_property(&self, _property: &str) -> (r: bool) {
        false
    }
}

} // verus!
