use vstd::prelude::*;

verus! {

/// A saved bookmark.
#[derive(Debug, Clone)]
pub struct Bookmark {
    pub id: String,
    pub title: String,
    pub url: String,
    pub folder: Option<String>,
    pub created_at: i64,
}

impl Bookmark {
    /// A bookmark outside any folder, with creation time 0.
    pub fn new(id: String, title: String, url: String) -> (b: Self)
        ensures
            b.id == id,
            b.title == title,
            b.url == url,
            b.folder is None,
            b.created_at == 0,
    {
        Bookmark { id, title, url, folder: None, created_at: 0 }
    }
}

} // verus!
