use vstd::prelude::*;

use crate::definition::Definition;

verus! {

pub const RDFS_NAMESPACE: &'static str = "http://www.w3.org/2000/01/rdf-schema#";

/// The RDF Schema vocabulary; it defines no property here.
#[derive(Debug)]
pub struct Rdfs {}

impl Definition for Rdfs {
    open spec fn namespace_view(&self) -> Seq<char> {
        RDFS_NAMESPACE@
    }

    open spec fn defines_property(&self, property: Seq<char>) -> bool {
        false
    }

    fn get_namespace(&self) -> (r: &str) {
        RDFS_NAMESPACE
    }

    fn has_property(&self, _property: &str) -> (r: bool) {
        false
    }
}

} // verus!
