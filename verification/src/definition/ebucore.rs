use vstd::prelude::*;

use crate::definition::Definition;
use crate::text::str_eq;

verus! {

pub const EBUCORE_NAMESPACE: &'static str = "http://www.ebu.ch/metadata/ontologies/ebucore/ebucore#";

/// The EBUCore vocabulary.
#[derive(Debug)]
pub struct EbuCore {}

/// The property names that the EBUCore vocabulary defines here.
pub open spec fn ebucore_property(p: Seq<char>) -> bool {
    ||| p == "businessObjectId"@
    ||| p == "title"@
    ||| p == "alternativeTitle"@
    ||| p == "originalTitle"@
    ||| p == "description"@
    ||| p == "dateModified"@
    ||| p == "dateCreated"@
}

/// EBUCore defines exactly seven properties: businessObjectId, title,
/// alternativeTitle, originalTitle, description, dateModified and
/// dateCreated; any other name is none of its properties.
pub proof fn law_ebucore_properties()
    ensures
        Set::new(|p: Seq<char>| (EbuCore {}).defines_property(p)) == set![
            "businessObjectId"@,
            "title"@,
            "alternativeTitle"@,
            "originalTitle"@,
            "description"@,
            "dateModified"@,
            "dateCreated"@,
        ],
        Set::new(|p: Seq<char>| (EbuCore {}).defines_property(p)).len() == 7,
{
    reveal_strlit("businessObjectId");
    reveal_strlit("title");
    reveal_strlit("alternativeTitle");
    reveal_strlit("originalTitle");
    reveal_strlit("description");
    reveal_strlit("dateModified");
    reveal_strlit("dateCreated");
    let names = set![
        "businessObjectId"@,
        "title"@,
        "alternativeTitle"@,
        "originalTitle"@,
        "description"@,
        "dateModified"@,
        "dateCreated"@,
    ];
    assert(Set::new(|p: Seq<char>| (EbuCore {}).defines_property(p)) =~= names);
    let a = "businessObjectId"@;
    let b = "title"@;
    let c = "alternativeTitle"@;
    let d = "originalTitle"@;
    let e = "description"@;
    let f = "dateModified"@;
    let g = "dateCreated"@;
    assert(a.len() == 16 && b.len() == 5 && c.len() == 16 && d.len() == 13);
    assert(e.len() == 11 && f.len() == 12 && g.len() == 11);
    assert(a[0] != c[0]);
    assert(e[1] != g[1]);
    let s1 = Set::<Seq<char>>::empty().insert(a);
    let s2 = s1.insert(b);
    let s3 = s2.insert(c);
    let s4 = s3.insert(d);
    let s5 = s4.insert(e);
    let s6 = s5.insert(f);
    let s7 = s6.insert(g);
    assert(s1.len() == 1);
    assert(!s1.contains(b));
    assert(s2.len() == 2);
    assert(!s2.contains(c));
    assert(s3.len() == 3);
    assert(!s3.contains(d));
    assert(s4.len() == 4);
    assert(!s4.contains(e));
    assert(s5.len() == 5);
    assert(!s5.contains(f));
    assert(s6.len() == 6);
    assert(!s6.contains(g));
    assert(s7.len() == 7);
    assert(names =~= s7);
}

impl Definition for EbuCore {
    open spec fn namespace_view(&self) -> Seq<char> {
        EBUCORE_NAMESPACE@
    }

    open spec fn defines_property(&self, property: Seq<char>) -> bool {
        ebucore_property(property)
    }

    fn get_namespace(&self) -> (r: &str) {
        EBUCORE_NAMESPACE
    }

    fn has_property(&self, property: &str) -> (r: bool) {
        str_eq(property, "businessObjectId") || str_eq(property, "title")
            || str_eq(property, "alternativeTitle") || str_eq(property, "originalTitle")
            || str_eq(property, "description") || str_eq(property, "dateModified")
            || str_eq(property, "dateCreated")
    }
}

} // verus!
