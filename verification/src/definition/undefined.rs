use vstd::prelude::*;

use crate::definition::Definition;

verus! {

pub const UNDEFINED_NAMESPACE: &'static str = "";

/// The empty vocabulary: its terms are written by their local name alone.
#[derive(Debug)]
pub struct Undefined {}

impl Definition for Undefined {
    open spec fn namespace_view(&self) -> Seq<char> {
        UNDEFINED_NAMESPACE@
    }

    open spec fn defines_property(&self, property: Seq<char>) -> bool {
        false
    }

    fn get_namespace(&self) -> (r: &str) {
        UNDEFINED_NAMESPACE
    }

    fn has_property(&self, _property: &str) -> (r: bool) {
        false
    }
}

} // verus!
