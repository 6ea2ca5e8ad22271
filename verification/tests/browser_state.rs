use netra::browser::browser_state::{BrowserState, WindowBounds};
use netra::domain::browser_event::BrowserEvent;

#[test]
fn close_tab_removes_closed_tab_from_state() {
    let mut state = BrowserState::new();
    let first_tab = state.create_tab().expect("first tab should be created");
    let second_tab = state.create_tab().expect("second tab should be created");

    let _ = state.set_active_tab(first_tab.id.clone());
    let _ = state.navigate("example.com".to_string());
    let _ = state.set_active_tab(second_tab.id.clone());
    let _ = state.navigate("openai.com".to_string());

    state.close_tab(first_tab.id.clone());

    assert!(!state.contains_tab(&first_tab.id));
    assert!(state.contains_tab(&second_tab.id));
}

fn state_with_tab(id: &str) -> BrowserState {
    let mut state = BrowserState::new();
    state.tab_manager.create_tab_with(id.to_string(), 1_000).expect("tab");
    state
}

#[test]
fn new_state_has_default_bounds() {
    let state = BrowserState::default();
    assert_eq!(state.window_bounds, WindowBounds { width: 800, height: 600, x: 0, y: 0 });
    assert!(state.get_tabs().is_empty());
    let snapshot = state.snapshot();
    assert!(snapshot.active_tab_id.is_none());
    assert!(snapshot.tabs.is_empty());
}

#[test]
fn navigate_normalizes_into_active_tab() {
    let mut state = state_with_tab("a");
    assert_eq!(state.navigate("example.com".to_string()).as_deref(), Some("https://example.com"));
    assert_eq!(state.get_tab("a").unwrap().url, "https://example.com");
}

#[test]
fn navigate_without_active_tab_does_nothing() {
    let mut state = BrowserState::new();
    assert_eq!(state.navigate("example.com".to_string()), None);
}

#[test]
fn window_bounds_are_tracked() {
    let mut state = BrowserState::new();
    state.set_window_bounds(WindowBounds { width: 1, height: 2, x: -3, y: 4 });
    assert_eq!(state.window_bounds, WindowBounds { width: 1, height: 2, x: -3, y: 4 });
    assert_eq!(WindowBounds::from_native(5, 6, 7, 8), Some(WindowBounds { width: 7, height: 8, x: 5, y: 6 }));
    assert_eq!(WindowBounds::from_native(5, 6, -7, 8), None);
}

#[test]
fn snapshot_lists_tabs_in_order_with_active_id() {
    let mut state = state_with_tab("a");
    state.tab_manager.create_tab_with("b".to_string(), 1_001).expect("tab");
    let snapshot = state.snapshot();
    assert_eq!(snapshot.active_tab_id.as_deref(), Some("b"));
    let ids: Vec<String> = snapshot.tabs.into_iter().map(|t| t.id).collect();
    assert_eq!(ids, vec!["a".to_string(), "b".to_string()]);
}

#[test]
fn navigation_events_update_url_and_loading() {
    let mut state = state_with_tab("a");
    state.apply_browser_event(&BrowserEvent::NavigationStarted {
        tab_id: "a".to_string(),
        url: "https://a.org".to_string(),
        is_same_document: false,
    });
    let tab = state.get_tab("a").unwrap();
    assert_eq!(tab.url, "https://a.org");
    assert!(tab.is_loading);
    state.apply_browser_event(&BrowserEvent::NavigationCompleted {
        tab_id: "a".to_string(),
        url: "https://a.org/done".to_string(),
        is_same_document: true,
    });
    let tab = state.get_tab("a").unwrap();
    assert_eq!(tab.url, "https://a.org/done");
    assert!(!tab.is_loading);
}

#[test]
fn failed_navigation_keeps_url_when_blank() {
    let mut state = state_with_tab("a");
    state.apply_browser_event(&BrowserEvent::UrlChanged { tab_id: "a".to_string(), url: "https://keep".to_string() });
    state.apply_browser_event(&BrowserEvent::LoadStarted { tab_id: "a".to_string() });
    state.apply_browser_event(&BrowserEvent::NavigationFailed {
        tab_id: "a".to_string(),
        url: "  ".to_string(),
        error_code: -2,
        description: "boom".to_string(),
    });
    let tab = state.get_tab("a").unwrap();
    assert_eq!(tab.url, "https://keep");
    assert!(!tab.is_loading);
    state.apply_browser_event(&BrowserEvent::NavigationFailed {
        tab_id: "a".to_string(),
        url: "https://bad".to_string(),
        error_code: -2,
        description: "boom".to_string(),
    });
    assert_eq!(state.get_tab("a").unwrap().url, "https://bad");
}

#[test]
fn favicon_events_clear_on_blank() {
    let mut state = state_with_tab("a");
    state.apply_browser_event(&BrowserEvent::FaviconChanged { tab_id: "a".to_string(), favicon_url: "https://f.ico".to_string() });
    assert_eq!(state.get_tab("a").unwrap().favicon_url.as_deref(), Some("https://f.ico"));
    state.apply_browser_event(&BrowserEvent::FaviconChanged { tab_id: "a".to_string(), favicon_url: " \t".to_string() });
    assert_eq!(state.get_tab("a").unwrap().favicon_url, None);
}

#[test]
fn other_events_update_their_fields() {
    let mut state = state_with_tab("a");
    state.apply_browser_event(&BrowserEvent::TitleChanged { tab_id: "a".to_string(), title: "Hello".to_string() });
    state.apply_browser_event(&BrowserEvent::HistoryStateChanged { tab_id: "a".to_string(), can_go_back: true, can_go_forward: true });
    state.apply_browser_event(&BrowserEvent::RequestBlocked { tab_id: "a".to_string(), url: "u".to_string(), resource_type: "script".to_string() });
    state.apply_browser_event(&BrowserEvent::LoadStarted { tab_id: "a".to_string() });
    let tab = state.get_tab("a").unwrap();
    assert_eq!(tab.title, "Hello");
    assert!(tab.can_go_back && tab.can_go_forward);
    assert_eq!(tab.url, "about");
    assert_eq!(tab.blocked_count, 1);
    assert!(tab.is_loading);
    state.apply_browser_event(&BrowserEvent::TabCrashed { tab_id: "a".to_string() });
    assert!(!state.get_tab("a").unwrap().is_loading);
    state.apply_browser_event(&BrowserEvent::LoadStarted { tab_id: "a".to_string() });
    state.apply_browser_event(&BrowserEvent::LoadFinished { tab_id: "a".to_string() });
    assert!(!state.get_tab("a").unwrap().is_loading);
    state.apply_browser_event(&BrowserEvent::FrameDestroyed { tab_id: "a".to_string() });
    assert!(!state.contains_tab("a"));
}

#[test]
fn go_back_and_forward_follow_history_affordances() {
    let mut state = state_with_tab("a");
    assert_eq!(state.go_back(), None);
    state.apply_browser_event(&BrowserEvent::HistoryStateChanged { tab_id: "a".to_string(), can_go_back: true, can_go_forward: false });
    assert_eq!(state.go_back().as_deref(), Some("about"));
    assert_eq!(state.go_forward(), None);
}

#[test]
fn snapshot_has_no_active_tab_exactly_when_it_has_no_tabs() {
    let mut state = BrowserState::new();
    let empty = state.snapshot();
    assert!(empty.active_tab_id.is_none() && empty.tabs.is_empty());
    let tab = state.create_tab().expect("creation on an empty state succeeds");
    let one = state.snapshot();
    assert_eq!(one.active_tab_id, Some(tab.id.clone()));
    assert_eq!(one.tabs.len(), 1);
    state.close_tab(tab.id);
    let closed = state.snapshot();
    assert!(closed.active_tab_id.is_none() && closed.tabs.is_empty());
}

#[test]
fn cloned_state_keeps_tabs_and_bounds() {
    let mut state = state_with_tab("a");
    state.set_window_bounds(WindowBounds { width: 1, height: 2, x: 3, y: 4 });
    let copy = state.clone();
    assert_eq!(copy.get_active_tab_id().as_deref(), Some("a"));
    assert_eq!(copy.get_tabs().len(), 1);
    assert_eq!(copy.window_bounds, state.window_bounds);
}
