use vstd::prelude::*;

verus! {

/// A file download and its progress.
#[derive(Debug, Clone)]
pub struct Download {
    pub id: String,
    pub url: String,
    pub file_name: String,
    pub total_bytes: i64,
    pub received_bytes: i64,
    pub state: String,
}

impl Download {
    /// A download that has not started: no bytes known or received, state
    /// `Pending`.
    pub fn new(id: String, url: String, file_name: String) -> (d: Self)
        ensures
            d.id == id,
            d.url == url,
            d.file_name == file_name,
            d.total_bytes == 0,
            d.received_bytes == 0,
            d.state@ == "Pending"@,
    {
        Download { id, url, file_name, total_bytes: 0, received_bytes: 0, state: "Pending".to_string() }
    }
}

} // verus!
