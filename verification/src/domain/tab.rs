use vstd::prelude::*;

use crate::clock::current_millis;

verus! {

/// Stable identifier used to address tabs across the browser core.
pub type TabId = String;

/// State of one browser tab.
#[derive(Debug)]
pub struct Tab {
    /// Stable identifier used across Rust, Flutter, and the native host.
    pub id: TabId,
    /// Current document title associated with the tab.
    pub title: String,
    /// Current favicon URL associated with the tab, when one is known.
    pub favicon_url: Option<String>,
    /// Current visible URL for the tab.
    pub url: String,
    /// Whether this tab is currently the active tab.
    pub is_active: bool,
    /// Whether the tab is currently loading content.
    pub is_loading: bool,
    /// Whether backward navigation is currently available.
    pub can_go_back: bool,
    /// Whether forward navigation is currently available.
    pub can_go_forward: bool,
    /// Whether the tab has been suspended by background-tab policy.
    pub is_suspended: bool,
    /// Number of intercepted requests blocked for this tab.
    pub blocked_count: u32,
    /// Sequence number of the latest event published for this tab.
    pub sequence_number: u32,
    /// Wall-clock milliseconds since the Unix epoch at the tab's last access.
    pub last_accessed: u64,
}

/// Mathematical model of a [Tab]: every text field as a character sequence.
pub struct TabView {
    pub id: Seq<char>,
    pub title: Seq<char>,
    pub favicon_url: Option<Seq<char>>,
    pub url: Seq<char>,
    pub is_active: bool,
    pub is_loading: bool,
    pub can_go_back: bool,
    pub can_go_forward: bool,
    pub is_suspended: bool,
    pub blocked_count: u32,
    pub sequence_number: u32,
    pub last_accessed: u64,
}

pub open spec fn opt_text(s: Option<String>) -> Option<Seq<char>> {
    match s {
        Some(v) => Some(v@),
        None => None,
    }
}

pub fn clone_opt_text(s: &Option<String>) -> (r: Option<String>)
    ensures
        opt_text(r) == opt_text(*s),
{
    match s {
        Some(v) => Some(v.clone()),
        None => None,
    }
}

impl View for Tab {
    type V = TabView;

    open spec fn view(&self) -> TabView {
        TabView {
            id: self.id@,
            title: self.title@,
            favicon_url: opt_text(self.favicon_url),
            url: self.url@,
            is_active: self.is_active,
            is_loading: self.is_loading,
            can_go_back: self.can_go_back,
            can_go_forward: self.can_go_forward,
            is_suspended: self.is_suspended,
            blocked_count: self.blocked_count,
            sequence_number: self.sequence_number,
            last_accessed: self.last_accessed,
        }
    }
}

impl Clone for Tab {
    fn clone(&self) -> (r: Self)
        ensures
            r@ == self@,
    {
        Tab {
            id: self.id.clone(),
            title: self.title.clone(),
            favicon_url: clone_opt_text(&self.favicon_url),
            url: self.url.clone(),
            is_active: self.is_active,
            is_loading: self.is_loading,
            can_go_back: self.can_go_back,
            can_go_forward: self.can_go_forward,
            is_suspended: self.is_suspended,
            blocked_count: self.blocked_count,
            sequence_number: self.sequence_number,
            last_accessed: self.last_accessed,
        }
    }
}

impl Tab {
    /// Creates a fresh tab showing `about:blank`, stamped with the current
    /// clock reading.
    pub fn new(id: TabId) -> (tab: Self)
        ensures
            tab.id@ == id@,
            tab.title@ == Seq::<char>::empty(),
            tab.favicon_url is None,
            tab.url@ == "about:blank"@,
            !tab.is_active,
            !tab.is_loading,
            !tab.can_go_back,
            !tab.can_go_forward,
            !tab.is_suspended,
            tab.blocked_count == 0,
            tab.sequence_number == 0,
    {
        Tab {
            id,
            title: String::new(),
            favicon_url: None,
            url: "about:blank".to_string(),
            is_active: false,
            is_loading: false,
            can_go_back: false,
            can_go_forward: false,
            is_suspended: false,
            blocked_count: 0,
            sequence_number: 0,
            last_accessed: current_millis(),
        }
    }

    pub fn set_active(&mut self, active: bool)
        ensures
            final(self)@ == (TabView { is_active: active, ..old(self)@ }),
    {
        self.is_active = active;
    }

    pub fn update_url(&mut self, url: String)
        ensures
            final(self)@ == (TabView { url: url@, ..old(self)@ }),
    {
        self.url = url;
    }

    pub fn set_loading_state(&mut self, is_loading: bool)
        ensures
            final(self)@ == (TabView { is_loading, ..old(self)@ }),
    {
        self.is_loading = is_loading;
    }

    pub fn set_navigation_state(&mut self, can_go_back: bool, can_go_forward: bool)
        ensures
            final(self)@ == (TabView { can_go_back, can_go_forward, ..old(self)@ }),
    {
        self.can_go_back = can_go_back;
        self.can_go_forward = can_go_forward;
    }

    pub fn update_title(&mut self, title: String)
        ensures
            final(self)@ == (TabView { title: title@, ..old(self)@ }),
    {
        self.title = title;
    }

    pub fn update_favicon_url(&mut self, favicon_url: Option<String>)
        ensures
            final(self)@ == (TabView { favicon_url: opt_text(favicon_url), ..old(self)@ }),
    {
        self.favicon_url = favicon_url;
    }

    /// Counts one more blocked request, saturating at `u32::MAX`.
    pub fn increment_blocked_count(&mut self)
        ensures
            final(self)@ == (TabView {
                blocked_count: if old(self).blocked_count == u32::MAX {
                    u32::MAX
                } else {
                    (old(self).blocked_count + 1) as u32
                },
                ..old(self)@
            }),
    {
        self.blocked_count = self.blocked_count.saturating_add(1);
    }
}

} // verus!
