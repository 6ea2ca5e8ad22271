use netra::domain::bookmark::Bookmark;
use netra::domain::browser_event::BrowserEvent;
use netra::domain::download::Download;
use netra::domain::filter_list::FilterList;
use netra::domain::history::HistoryEntry;
use netra::domain::tab::Tab;
use netra::error::NetraError;

#[test]
fn records_start_empty() {
    let b = Bookmark::new("1".into(), "T".into(), "u".into());
    assert_eq!((b.folder, b.created_at), (None, 0));
    let d = Download::new("1".into(), "u".into(), "f".into());
    assert_eq!((d.total_bytes, d.received_bytes, d.state.as_str()), (0, 0, "Pending"));
    let f = FilterList::new("1".into(), "n".into());
    assert!(f.enabled);
    assert_eq!(f.rules_count, 0);
    let h = HistoryEntry::new("1".into(), "u".into(), "t".into());
    assert_eq!(h.timestamp, 0);
}

#[test]
fn new_tab_is_blank() {
    let tab = Tab::new("x".to_string());
    assert_eq!(tab.url, "about:blank");
    assert!(!tab.is_active && !tab.is_loading && !tab.is_suspended);
    assert!(tab.last_accessed > 1_600_000_000_000);
}

#[test]
fn tab_setters() {
    let mut tab = Tab::new("x".to_string());
    tab.set_active(true);
    tab.update_url("u".to_string());
    tab.set_loading_state(true);
    tab.set_navigation_state(true, false);
    tab.update_title("t".to_string());
    tab.update_favicon_url(Some("f".to_string()));
    assert!(tab.is_active && tab.is_loading && tab.can_go_back && !tab.can_go_forward);
    assert_eq!((tab.url.as_str(), tab.title.as_str(), tab.favicon_url.as_deref()), ("u", "t", Some("f")));
    tab.blocked_count = u32::MAX - 1;
    tab.increment_blocked_count();
    tab.increment_blocked_count();
    assert_eq!(tab.blocked_count, u32::MAX);
    let copy = tab.clone();
    assert_eq!(copy.id, "x");
    assert_eq!(copy.blocked_count, u32::MAX);
}

#[test]
fn errors_render_with_kind_prefix() {
    assert_eq!(NetraError::InvalidInput("a".into()).to_string(), "invalid input: a");
    assert_eq!(NetraError::NotFound("b".into()).to_string(), "not found: b");
    assert_eq!(NetraError::OperationFailed("c".into()).to_string(), "operation failed: c");
}

#[test]
fn events_name_their_tab() {
    let e = BrowserEvent::ConsoleMessage {
        tab_id: "q".into(),
        level: "l".into(),
        message: "m".into(),
        source_id: None,
        line_number: Some(3),
    };
    assert_eq!(e.tab_id(), "q");
}
