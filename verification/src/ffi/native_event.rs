use vstd::prelude::*;

use crate::domain::browser_event::{event_tab_id, BrowserEvent};
use crate::text::{push_signed_decimal, push_str, signed_decimal, string_from_chars};

verus! {

/// Wire codes of browser events exchanged with the native host and the UI.
pub const EVENT_NAVIGATION_STARTED: i32 = 1;
pub const EVENT_FRAME_CREATED: i32 = 2;
pub const EVENT_FRAME_DESTROYED: i32 = 3;
pub const EVENT_LOAD_STARTED: i32 = 4;
pub const EVENT_NAVIGATION_COMPLETED: i32 = 5;
pub const EVENT_TITLE_CHANGED: i32 = 6;
pub const EVENT_HISTORY_STATE_CHANGED: i32 = 7;
pub const EVENT_REQUEST_BLOCKED: i32 = 8;
pub const EVENT_NAVIGATION_FAILED: i32 = 9;
pub const EVENT_URL_CHANGED: i32 = 10;
pub const EVENT_LOAD_FINISHED: i32 = 11;
pub const EVENT_FAVICON_CHANGED: i32 = 12;
pub const EVENT_TAB_CRASHED: i32 = 13;

/// The wire code of an event; console messages have none and are never
/// forwarded.
pub open spec fn event_code(e: BrowserEvent) -> Option<i32> {
    match e {
        BrowserEvent::NavigationStarted { .. } => Some(EVENT_NAVIGATION_STARTED),
        BrowserEvent::FrameCreated { .. } => Some(EVENT_FRAME_CREATED),
        BrowserEvent::FrameDestroyed { .. } => Some(EVENT_FRAME_DESTROYED),
        BrowserEvent::LoadStarted { .. } => Some(EVENT_LOAD_STARTED),
        BrowserEvent::NavigationCompleted { .. } => Some(EVENT_NAVIGATION_COMPLETED),
        BrowserEvent::TitleChanged { .. } => Some(EVENT_TITLE_CHANGED),
        BrowserEvent::HistoryStateChanged { .. } => Some(EVENT_HISTORY_STATE_CHANGED),
        BrowserEvent::RequestBlocked { .. } => Some(EVENT_REQUEST_BLOCKED),
        BrowserEvent::NavigationFailed { .. } => Some(EVENT_NAVIGATION_FAILED),
        BrowserEvent::UrlChanged { .. } => Some(EVENT_URL_CHANGED),
        BrowserEvent::LoadFinished { .. } => Some(EVENT_LOAD_FINISHED),
        BrowserEvent::FaviconChanged { .. } => Some(EVENT_FAVICON_CHANGED),
        BrowserEvent::TabCrashed { .. } => Some(EVENT_TAB_CRASHED),
        BrowserEvent::ConsoleMessage { .. } => None,
    }
}

/// Whether `code` is one of the wire codes above.
pub open spec fn is_known_code(code: i32) -> bool {
    1 <= code <= 13
}

/// Text of the console message that stands for an unknown wire code.
pub open spec fn unmapped_message(code: i32) -> Seq<char> {
    "unmapped ffi event type: "@ + signed_decimal(code as int)
}

/// Turns a native event record into a typed browser event.
///
/// `primary` carries the URL, title or favicon URL; `secondary` the
/// resource type or error description; `int_value` the error code or the
/// history bits (1: can go back, 2: can go forward); `bool_value` the
/// same-document flag. An unknown code becomes a debug console message.
pub fn decode_native_event(
    event_type: i32,
    tab_id: String,
    primary: String,
    secondary: String,
    int_value: i32,
    bool_value: u8,
) -> (e: BrowserEvent)
    ensures
        event_code(e) == if is_known_code(event_type) {
            Some(event_type)
        } else {
            None
        },
        event_tab_id(e) == tab_id@,
        event_type == EVENT_NAVIGATION_STARTED ==> e == (BrowserEvent::NavigationStarted {
            tab_id,
            url: primary,
            is_same_document: bool_value != 0,
        }),
        event_type == EVENT_FRAME_CREATED ==> e == (BrowserEvent::FrameCreated { tab_id }),
        event_type == EVENT_FRAME_DESTROYED ==> e == (BrowserEvent::FrameDestroyed { tab_id }),
        event_type == EVENT_LOAD_STARTED ==> e == (BrowserEvent::LoadStarted { tab_id }),
        event_type == EVENT_NAVIGATION_COMPLETED ==> e == (BrowserEvent::NavigationCompleted {
            tab_id,
            url: primary,
            is_same_document: bool_value != 0,
        }),
        event_type == EVENT_TITLE_CHANGED ==> e == (BrowserEvent::TitleChanged { tab_id, title: primary }),
        event_type == EVENT_FAVICON_CHANGED ==> e == (BrowserEvent::FaviconChanged {
            tab_id,
            favicon_url: primary,
        }),
        event_type == EVENT_HISTORY_STATE_CHANGED ==> e == (BrowserEvent::HistoryStateChanged {
            tab_id,
            can_go_back: (int_value & 1) != 0,
            can_go_forward: (int_value & 2) != 0,
        }),
        event_type == EVENT_REQUEST_BLOCKED ==> e == (BrowserEvent::RequestBlocked {
            tab_id,
            url: primary,
            resource_type: secondary,
        }),
        event_type == EVENT_NAVIGATION_FAILED ==> e == (BrowserEvent::NavigationFailed {
            tab_id,
            url: primary,
            error_code: int_value,
            description: secondary,
        }),
        event_type == EVENT_URL_CHANGED ==> e == (BrowserEvent::UrlChanged { tab_id, url: primary }),
        event_type == EVENT_LOAD_FINISHED ==> e == (BrowserEvent::LoadFinished { tab_id }),
        event_type == EVENT_TAB_CRASHED ==> e == (BrowserEvent::TabCrashed { tab_id }),
        !is_known_code(event_type) ==> (e matches BrowserEvent::ConsoleMessage {
            tab_id: id,
            level,
            message,
            source_id,
            line_number,
        } && id == tab_id && level@ == "debug"@ && message@ == unmapped_message(event_type)
            && source_id is None && line_number is None),
{
    if event_type == EVENT_NAVIGATION_STARTED {
        BrowserEvent::NavigationStarted { tab_id, url: primary, is_same_document: bool_value != 0 }
    } else if event_type == EVENT_FRAME_CREATED {
        BrowserEvent::FrameCreated { tab_id }
    } else if event_type == EVENT_FRAME_DESTROYED {
        BrowserEvent::FrameDestroyed { tab_id }
    } else if event_type == EVENT_LOAD_STARTED {
        BrowserEvent::LoadStarted { tab_id }
    } else if event_type == EVENT_NAVIGATION_COMPLETED {
        BrowserEvent::NavigationCompleted { tab_id, url: primary, is_same_document: bool_value != 0 }
    } else if event_type == EVENT_TITLE_CHANGED {
        BrowserEvent::TitleChanged { tab_id, title: primary }
    } else if event_type == EVENT_FAVICON_CHANGED {
        BrowserEvent::FaviconChanged { tab_id, favicon_url: primary }
    } else if event_type == EVENT_HISTORY_STATE_CHANGED {
        BrowserEvent::HistoryStateChanged {
            tab_id,
            can_go_back: (int_value & 1) != 0,
            can_go_forward: (int_value & 2) != 0,
        }
    } else if event_type == EVENT_REQUEST_BLOCKED {
        BrowserEvent::RequestBlocked { tab_id, url: primary, resource_type: secondary }
    } else if event_type == EVENT_NAVIGATION_FAILED {
        BrowserEvent::NavigationFailed {
            tab_id,
            url: primary,
            error_code: int_value,
            description: secondary,
        }
    } else if event_type == EVENT_URL_CHANGED {
        BrowserEvent::UrlChanged { tab_id, url: primary }
    } else if event_type == EVENT_LOAD_FINISHED {
        BrowserEvent::LoadFinished { tab_id }
    } else if event_type == EVENT_TAB_CRASHED {
        BrowserEvent::TabCrashed { tab_id }
    } else {
        let mut text: Vec<char> = Vec::new();
        push_str(&mut text, "unmapped ffi event type: ");
        push_signed_decimal(&mut text, event_type as i64);
        assert(text@ =~= unmapped_message(event_type));
        BrowserEvent::ConsoleMessage {
            tab_id,
            level: "debug".to_string(),
            message: string_from_chars(&text),
            source_id: None,
            line_number: None,
        }
    }
}

/// The part of an event that crosses to the UI besides the tab state: its
/// wire code, its tab identifier and, for a favicon change, the favicon URL.
/// Console messages are not forwarded (`None`).
pub fn ffi_event_parts(event: &BrowserEvent) -> (r: Option<(i32, String, Option<String>)>)
    ensures
        match r {
            None => event_code(*event) is None,
            Some((code, id, favicon)) => event_code(*event) == Some(code) && id@ == event_tab_id(*event)
                && match *event {
                BrowserEvent::FaviconChanged { favicon_url, .. } => favicon matches Some(f) && f@
                    == favicon_url@,
                _ => favicon is None,
            },
        },
{
    let tab_id = event.tab_id().clone();
    match event {
        BrowserEvent::NavigationStarted { .. } => Some((EVENT_NAVIGATION_STARTED, tab_id, None)),
        BrowserEvent::FrameCreated { .. } => Some((EVENT_FRAME_CREATED, tab_id, None)),
        BrowserEvent::FrameDestroyed { .. } => Some((EVENT_FRAME_DESTROYED, tab_id, None)),
        BrowserEvent::LoadStarted { .. } => Some((EVENT_LOAD_STARTED, tab_id, None)),
        BrowserEvent::NavigationCompleted { .. } => Some((EVENT_NAVIGATION_COMPLETED, tab_id, None)),
        BrowserEvent::TitleChanged { .. } => Some((EVENT_TITLE_CHANGED, tab_id, None)),
        BrowserEvent::HistoryStateChanged { .. } => Some((EVENT_HISTORY_STATE_CHANGED, tab_id, None)),
        BrowserEvent::RequestBlocked { .. } => Some((EVENT_REQUEST_BLOCKED, tab_id, None)),
        BrowserEvent::NavigationFailed { .. } => Some((EVENT_NAVIGATION_FAILED, tab_id, None)),
        BrowserEvent::UrlChanged { .. } => Some((EVENT_URL_CHANGED, tab_id, None)),
        BrowserEvent::LoadFinished { .. } => Some((EVENT_LOAD_FINISHED, tab_id, None)),
        BrowserEvent::FaviconChanged { favicon_url, .. } => Some(
            (EVENT_FAVICON_CHANGED, tab_id, Some(favicon_url.clone())),
        ),
        BrowserEvent::TabCrashed { .. } => Some((EVENT_TAB_CRASHED, tab_id, None)),
        BrowserEvent::ConsoleMessage { .. } => None,
    }
}

} // verus!
