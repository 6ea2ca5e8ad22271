use vstd::prelude::*;

verus! {

/// One entry of the browsing history.
#[derive(Debug, Clone)]
pub struct HistoryEntry {
    pub id: String,
    pub url: String,
    pub title: String,
    pub timestamp: i64,
}

impl HistoryEntry {
    /// A history entry with timestamp 0.
    pub fn new(id: String, url: String, title: String) -> (h: Self)
        ensures
            h.id == id,
            h.url == url,
            h.title == title,
            h.timestamp == 0,
    {
        HistoryEntry { id, url, title, timestamp: 0 }
    }
}

} // verus!
