use vstd::prelude::*;

use crate::domain::browser_event::BrowserEvent;
use crate::domain::tab::{Tab, TabView};

verus! {

/// Internal browser events published after successful operations.
#[derive(Debug, Clone)]
pub enum Event {
    /// A browser event routed through the core, with its sequence number and
    /// the state of the tab it was sequenced on.
    BrowserEvent(u32, BrowserEvent, Option<Tab>),
    /// A new tab was created.
    TabCreated(String),
    /// A tab was closed.
    TabClosed(String),
    /// A tab was suspended.
    TabSuspended(String),
    /// A suspended tab was resumed.
    TabResumed(String),
    /// A network request was blocked; the payload is its URL.
    BlockedRequest(String),
    /// A navigation command completed in the core; the payload is the tab
    /// identifier and the URL it targets.
    NavigationCompleted(String, String),
}


/// Model of an [Event]: text as character sequences, tabs by their views.
pub enum EventView {
    BrowserEvent(u32, BrowserEvent, Option<TabView>),
    TabCreated(Seq<char>),
    TabClosed(Seq<char>),
    TabSuspended(Seq<char>),
    TabResumed(Seq<char>),
    BlockedRequest(Seq<char>),
    NavigationCompleted(Seq<char>, Seq<char>),
}

impl View for Event {
    type V = EventView;

    open spec fn view(&self) -> EventView {
        match self {
            Event::BrowserEvent(seq, event, tab) => EventView::BrowserEvent(
                *seq,
                *event,
                match tab {
                    Some(t) => Some(t@),
                    None => None,
                },
            ),
            Event::TabCreated(id) => EventView::TabCreated(id@),
            Event::TabClosed(id) => EventView::TabClosed(id@),
            Event::TabSuspended(id) => EventView::TabSuspended(id@),
            Event::TabResumed(id) => EventView::TabResumed(id@),
            Event::BlockedRequest(url) => EventView::BlockedRequest(url@),
            Event::NavigationCompleted(id, url) => EventView::NavigationCompleted(id@, url@),
        }
    }
}

} // verus!
