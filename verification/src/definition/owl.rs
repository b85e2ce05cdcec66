use vstd::prelude::*;

use crate::definition::Definition;

verus! {

pub const OWL_NAMESPACE: &'static str = "http://www.w3.org/2002/07/owl#";

/// The OWL vocabulary; it defines no property here.
#[derive(Debug)]
pub struct Owl {}

impl Definition for Owl {
    open spec fn namespace_view(&self) -> Seq<char> {
        OWL_NAMESPACE@
    }

    open spec fn defines_property(&self, property: Seq<char>) -> bool {
        false
    }

    fn get_namespace(&self) -> (r: &str) {
        OWL_NAMESPACE
    }

    fn has_property(&self, _property: &str) -> (r: bool) {
        false
    }
}

} // verus!
