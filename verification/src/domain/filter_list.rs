use vstd::prelude::*;

verus! {

/// A content-filter list.
#[derive(Debug, Clone)]
pub struct FilterList {
    pub id: String,
    pub name: String,
    pub enabled: bool,
    pub rules_count: i32,
}

impl FilterList {
    /// An enabled list with no rules yet.
    pub fn new(id: String, name: String) -> (f: Self)
        ensures
            f.id == id,
            f.name == name,
            f.enabled,
            f.rules_count == 0,
    {
        FilterList { id, name, enabled: true, rules_count: 0 }
    }
}

} // verus!
