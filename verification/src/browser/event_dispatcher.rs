use vstd::prelude::*;

use crate::browser::tab_manager::opt_tab_view;
use crate::domain::browser_event::BrowserEvent;
use crate::domain::event::{Event, EventView};
use crate::domain::tab::Tab;

verus! {

/// What an event dispatcher forwards of an internal event: the payload of
/// a browser event (sequence number, event, tab state); other events are
/// not forwarded.
pub fn dispatch_payload(event: Event) -> (r: Option<(u32, BrowserEvent, Option<Tab>)>)
    ensures
        match event@ {
            EventView::BrowserEvent(seq, e, tab) => r matches Some((s, be, t)) && s == seq && be == e
                && opt_tab_view(t) == tab,
            _ => r is None,
        },
{
    match event {
        Event::BrowserEvent(seq, browser_event, current_tab) => Some((seq, browser_event, current_tab)),
        _ => None,
    }
}

} // verus!
