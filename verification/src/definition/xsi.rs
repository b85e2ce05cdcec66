use vstd::prelude::*;

use crate::definition::Definition;

verus! {

pub const XSI_NAMESPACE: &'static str = "http://www.w3.org/2001/XMLSchema-instance";

/// The XML Schema instance vocabulary; it defines no property here.
#[derive(Debug)]
pub struct Xsi {}

impl Definition for Xsi {
    open spec fn namespace_view(&self) -> Seq<char> {
        XSI_NAMESPACE@
    }

    open spec fn defines_property(&self, property: Seq<char>) -> bool {
        false
    }

    fn get_namespace(&self) -> (r: &str) {
        XSI_NAMESPACE
    }

    fn has_property(&self, _property: &str) -> (r: bool) {
        false
    }
}

} // verus!
