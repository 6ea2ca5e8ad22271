use vstd::prelude::*;

use crate::domain::tab::Tab;

verus! {

/// Snapshot of the browser state owned by the core: the active tab and the
/// full ordered tab list, for read-only consumers such as the UI shell.
#[derive(Debug, Clone)]
pub struct BrowserState {
    /// Identifier of the active tab; `None` before the first tab is created
    /// or after every tab has been closed.
    pub active_tab_id: Option<String>,
    /// Every known tab, in creation order.
    pub tabs: Vec<Tab>,
}

} // verus!
