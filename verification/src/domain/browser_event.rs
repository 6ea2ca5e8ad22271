use vstd::prelude::*;

verus! {

/// A typed event describing a state change within a browser tab, as
/// reported by the native host.
#[derive(Debug, Clone, PartialEq, Eq)]
pub enum BrowserEvent {
    /// Fired when an initial frame is allocated.
    FrameCreated { tab_id: String },
    /// Fired when a frame is decommissioned.
    FrameDestroyed { tab_id: String },
    /// Fired when the document title of a frame changes.
    TitleChanged { tab_id: String, title: String },
    /// Fired when the favicon URL of a frame changes; an empty URL clears it.
    FaviconChanged { tab_id: String, favicon_url: String },
    /// Fired when the URL of a frame changes natively.
    UrlChanged { tab_id: String, url: String },
    /// Fired when a navigation begins.
    NavigationStarted { tab_id: String, url: String, is_same_document: bool },
    /// Fired when a navigation completes successfully.
    NavigationCompleted { tab_id: String, url: String, is_same_document: bool },
    /// Fired when a navigation fails.
    NavigationFailed { tab_id: String, url: String, error_code: i32, description: String },
    /// Fired when the renderer process of a tab crashes.
    TabCrashed { tab_id: String },
    /// Fired when a frame begins downloading page resources.
    LoadStarted { tab_id: String },
    /// Fired when a frame completes downloading page resources.
    LoadFinished { tab_id: String },
    /// Fired when the frame's history affordances change.
    HistoryStateChanged { tab_id: String, can_go_back: bool, can_go_forward: bool },
    /// Fired when the engine rejects an intercepted request.
    RequestBlocked { tab_id: String, url: String, resource_type: String },
    /// Low-level debug or native logging propagation.
    ConsoleMessage {
        tab_id: String,
        level: String,
        message: String,
        source_id: Option<String>,
        line_number: Option<i32>,
    },
}

/// The identifier of the tab an event is about.
pub open spec fn event_tab_id(e: BrowserEvent) -> Seq<char> {
    match e {
        BrowserEvent::FrameCreated { tab_id } => tab_id@,
        BrowserEvent::FrameDestroyed { tab_id } => tab_id@,
        BrowserEvent::TitleChanged { tab_id, .. } => tab_id@,
        BrowserEvent::FaviconChanged { tab_id, .. } => tab_id@,
        BrowserEvent::UrlChanged { tab_id, .. } => tab_id@,
        BrowserEvent::NavigationStarted { tab_id, .. } => tab_id@,
        BrowserEvent::NavigationCompleted { tab_id, .. } => tab_id@,
        BrowserEvent::NavigationFailed { tab_id, .. } => tab_id@,
        BrowserEvent::TabCrashed { tab_id } => tab_id@,
        BrowserEvent::LoadStarted { tab_id } => tab_id@,
        BrowserEvent::LoadFinished { tab_id } => tab_id@,
        BrowserEvent::HistoryStateChanged { tab_id, .. } => tab_id@,
        BrowserEvent::RequestBlocked { tab_id, .. } => tab_id@,
        BrowserEvent::ConsoleMessage { tab_id, .. } => tab_id@,
    }
}

impl BrowserEvent {
    /// The identifier of the tab this event is about.
    pub fn tab_id(&self) -> (r: &String)
        ensures
            r@ == event_tab_id(*self),
    {
        match self {
            BrowserEvent::FrameCreated { tab_id } => tab_id,
            BrowserEvent::FrameDestroyed { tab_id } => tab_id,
            BrowserEvent::TitleChanged { tab_id, .. } => tab_id,
            BrowserEvent::FaviconChanged { tab_id, .. } => tab_id,
            BrowserEvent::UrlChanged { tab_id, .. } => tab_id,
            BrowserEvent::NavigationStarted { tab_id, .. } => tab_id,
            BrowserEvent::NavigationCompleted { tab_id, .. } => tab_id,
            BrowserEvent::NavigationFailed { tab_id, .. } => tab_id,
            BrowserEvent::TabCrashed { tab_id } => tab_id,
            BrowserEvent::LoadStarted { tab_id } => tab_id,
            BrowserEvent::LoadFinished { tab_id } => tab_id,
            BrowserEvent::HistoryStateChanged { tab_id, .. } => tab_id,
            BrowserEvent::RequestBlocked { tab_id, .. } => tab_id,
            BrowserEvent::ConsoleMessage { tab_id, .. } => tab_id,
        }
    }
}

} // verus!
