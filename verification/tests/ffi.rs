use netra::browser::event_dispatcher::dispatch_payload;
use netra::domain::browser_event::BrowserEvent;
use netra::domain::event::Event;
use netra::ffi::engine_api::{validate_tab_id, validate_url};
use netra::ffi::native_control::{check_c_string_argument, check_native_bindings, native_status};
use netra::ffi::native_event::{
    decode_native_event, ffi_event_parts, EVENT_FAVICON_CHANGED, EVENT_HISTORY_STATE_CHANGED,
    EVENT_NAVIGATION_FAILED, EVENT_NAVIGATION_STARTED, EVENT_REQUEST_BLOCKED, EVENT_TITLE_CHANGED,
};

fn decode(code: i32) -> BrowserEvent {
    decode_native_event(code, "t".to_string(), "p".to_string(), "s".to_string(), 3, 1)
}

#[test]
fn native_codes_round_trip() {
    for code in 1..=13 {
        let event = decode(code);
        let (back, id, _) = ffi_event_parts(&event).expect("forwarded");
        assert_eq!(back, code);
        assert_eq!(id, "t");
    }
}

#[test]
fn native_event_fields_are_decoded() {
    assert_eq!(
        decode(EVENT_HISTORY_STATE_CHANGED),
        BrowserEvent::HistoryStateChanged { tab_id: "t".to_string(), can_go_back: true, can_go_forward: true }
    );
    assert_eq!(
        decode_native_event(EVENT_HISTORY_STATE_CHANGED, "t".into(), "".into(), "".into(), 2, 0),
        BrowserEvent::HistoryStateChanged { tab_id: "t".to_string(), can_go_back: false, can_go_forward: true }
    );
    assert_eq!(
        decode(EVENT_NAVIGATION_FAILED),
        BrowserEvent::NavigationFailed {
            tab_id: "t".to_string(),
            url: "p".to_string(),
            error_code: 3,
            description: "s".to_string()
        }
    );
    assert_eq!(
        decode(EVENT_NAVIGATION_STARTED),
        BrowserEvent::NavigationStarted { tab_id: "t".to_string(), url: "p".to_string(), is_same_document: true }
    );
    assert_eq!(
        decode(EVENT_REQUEST_BLOCKED),
        BrowserEvent::RequestBlocked { tab_id: "t".to_string(), url: "p".to_string(), resource_type: "s".to_string() }
    );
}

#[test]
fn unknown_codes_become_console_messages() {
    for (code, text) in [(99, "unmapped ffi event type: 99"), (-7, "unmapped ffi event type: -7"), (0, "unmapped ffi event type: 0"), (i32::MIN, "unmapped ffi event type: -2147483648")] {
        let event = decode(code);
        assert_eq!(
            event,
            BrowserEvent::ConsoleMessage {
                tab_id: "t".to_string(),
                level: "debug".to_string(),
                message: text.to_string(),
                source_id: None,
                line_number: None
            }
        );
        assert!(ffi_event_parts(&event).is_none());
    }
}

#[test]
fn favicon_url_travels_with_favicon_events() {
    let (code, _, favicon) = ffi_event_parts(&decode(EVENT_FAVICON_CHANGED)).unwrap();
    assert_eq!(code, EVENT_FAVICON_CHANGED);
    assert_eq!(favicon.as_deref(), Some("p"));
    let (_, _, favicon) = ffi_event_parts(&decode(EVENT_TITLE_CHANGED)).unwrap();
    assert_eq!(favicon, None);
}

#[test]
fn dispatcher_forwards_browser_events_only() {
    let event = BrowserEvent::LoadStarted { tab_id: "t".to_string() };
    let payload = dispatch_payload(Event::BrowserEvent(4, event.clone(), None)).expect("forwarded");
    assert_eq!(payload.0, 4);
    assert_eq!(payload.1, event);
    assert!(payload.2.is_none());
    assert!(dispatch_payload(Event::TabClosed("t".to_string())).is_none());
}

#[test]
fn validation_rejects_blank_input() {
    assert_eq!(validate_tab_id("  ").unwrap_err().to_string(), "invalid input: tab_id must not be empty");
    assert!(validate_tab_id("abc").is_ok());
    assert_eq!(validate_url("").unwrap_err().to_string(), "invalid input: url must not be empty");
    assert!(validate_url("x").is_ok());
}

#[test]
fn native_status_and_registration() {
    assert!(native_status("reload", 1).is_ok());
    assert_eq!(native_status("reload", 0).unwrap_err().to_string(), "operation failed: native reload operation failed");
    assert!(check_native_bindings(&vec![true; 8]).is_ok());
    let mut present = vec![true; 8];
    present[3] = false;
    assert_eq!(
        check_native_bindings(&present).unwrap_err().to_string(),
        "invalid input: native executor registration is missing one or more callbacks"
    );
    assert!(check_c_string_argument("load_url", "abc").is_ok());
    assert_eq!(
        check_c_string_argument("load_url", "a\0b").unwrap_err().to_string(),
        "invalid input: load_url argument contains an interior null byte"
    );
}
