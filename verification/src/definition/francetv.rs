use vstd::prelude::*;

use crate::definition::Definition;

verus! {

pub const FRANCETV_NAMESPACE: &'static str = "http://ressources.idfrancetv.fr/ontologies#";

/// The France Télévisions vocabulary; it defines no property here.
#[derive(Debug)]
pub struct FranceTv {}

impl Definition for FranceTv {
    open spec fn namespace_view(&self) -> Seq<char> {
        FRANCETV_NAMESPACE@
    }

    open spec fn defines_property(&self, property: Seq<char>) -> bool {
        false
    }

    fn get_namespace(&self) -> (r: &str) {
        FRANCETV_NAMESPACE
    }

    fn has_property(&self, _property: &str) -> (r: bool) {
        false
    }
}

} // verus!
