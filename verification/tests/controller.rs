use netra::browser::browser_controller::{BrowserController, NativeCommand};
use netra::browser::browser_state::WindowBounds;
use netra::domain::browser_event::BrowserEvent;
use netra::domain::event::Event;
use netra::error::NetraError;

fn controller_with(ids: &[&str]) -> BrowserController {
    let mut controller = BrowserController::new();
    for (i, id) in ids.iter().enumerate() {
        controller
            .state
            .tab_manager
            .create_tab_with(id.to_string(), 1_000 + i as u64)
            .expect("tab");
    }
    controller
}

fn native_names(commands: &[NativeCommand]) -> Vec<String> {
    commands.iter().map(|c| format!("{c:?}")).collect()
}

#[test]
fn unknown_tab_is_refused_everywhere() {
    let mut c = controller_with(&["a"]);
    let check = |r: Result<_, NetraError>| match r {
        Err(e) => assert_eq!(e.to_string(), "not found: tab `zz` was not found"),
        Ok(_) => panic!("expected an error"),
    };
    check(c.close_tab_safe("zz".to_string()).map(|_| ()));
    check(c.set_active_tab_safe("zz".to_string()).map(|_| ()));
    check(c.navigate_safe("zz".to_string(), "x.org".to_string()).map(|_| ()));
    check(c.go_back_safe("zz".to_string()).map(|_| ()));
    check(c.go_forward_safe("zz".to_string()).map(|_| ()));
    check(c.reload_safe("zz".to_string()).map(|_| ()));
    check(c.stop_loading_safe("zz".to_string()).map(|_| ()));
    check(c.ensure_tab_exists("zz"));
    assert!(c.ensure_tab_exists("a").is_ok());
}

#[test]
fn navigate_safe_plans_native_load_and_event() {
    let mut c = controller_with(&["a", "b"]);
    let plan = c.navigate_safe("a".to_string(), "open ai".to_string()).expect("plan");
    let url = "https://www.google.com/search?q=open+ai".to_string();
    assert_eq!(
        native_names(&plan.native),
        vec![
            format!("{:?}", NativeCommand::SetActiveTab("a".to_string())),
            format!("{:?}", NativeCommand::LoadUrl("a".to_string(), url.clone())),
        ]
    );
    assert_eq!(plan.events.len(), 1);
    match &plan.events[0] {
        Event::NavigationCompleted(id, u) => {
            assert_eq!(id, "a");
            assert_eq!(u, &url);
        }
        other => panic!("unexpected event {other:?}"),
    }
    let tab = c.state.get_tab("a").unwrap();
    assert!(tab.is_active && tab.is_loading);
    assert_eq!(tab.url, url);
    assert_eq!(c.state.get_active_tab_id().as_deref(), Some("a"));
}

#[test]
fn close_tab_safe_sequences_promoted_tab() {
    let mut c = controller_with(&["a", "b"]);
    let plan = c.close_tab_safe("b".to_string()).expect("plan");
    assert_eq!(native_names(&plan.native), vec![format!("{:?}", NativeCommand::CloseTab("b".to_string()))]);
    assert_eq!(plan.events.len(), 2);
    assert!(matches!(&plan.events[0], Event::TabClosed(id) if id == "b"));
    match &plan.events[1] {
        Event::BrowserEvent(seq, BrowserEvent::FrameDestroyed { tab_id }, Some(tab)) => {
            assert_eq!(*seq, 1);
            assert_eq!(tab_id, "b");
            assert_eq!(tab.id, "a");
            assert_eq!(tab.sequence_number, 1);
            assert!(tab.is_active);
        }
        other => panic!("unexpected event {other:?}"),
    }
}

#[test]
fn closing_last_tab_publishes_event_without_tab() {
    let mut c = controller_with(&["a"]);
    let plan = c.close_tab_safe("a".to_string()).expect("plan");
    match &plan.events[1] {
        Event::BrowserEvent(seq, BrowserEvent::FrameDestroyed { tab_id }, None) => {
            assert_eq!(*seq, 0);
            assert_eq!(tab_id, "a");
        }
        other => panic!("unexpected event {other:?}"),
    }
}

#[test]
fn activating_suspended_page_reloads_it() {
    let mut c = controller_with(&["a", "b"]);
    c.state.tab_manager.update_url("a", "https://page".to_string());
    c.state.tab_manager.suspend_tab("a".to_string());
    let plan = c.set_active_tab_safe("a".to_string()).expect("plan");
    assert_eq!(
        native_names(&plan.native),
        vec![
            format!("{:?}", NativeCommand::SetActiveTab("a".to_string())),
            format!("{:?}", NativeCommand::Reload("a".to_string())),
        ]
    );
    assert!(plan.events.is_empty());
    let tab = c.state.get_tab("a").unwrap();
    assert!(tab.is_loading && tab.is_active && !tab.is_suspended);
}

#[test]
fn activating_blank_or_awake_tab_does_not_reload() {
    let mut c = controller_with(&["a", "b"]);
    c.state.tab_manager.suspend_tab("a".to_string());
    let plan = c.set_active_tab_safe("a".to_string()).expect("plan");
    assert_eq!(native_names(&plan.native), vec![format!("{:?}", NativeCommand::SetActiveTab("a".to_string()))]);
    assert!(!c.state.get_tab("a").unwrap().is_loading);
    let plan = c.set_active_tab_safe("b".to_string()).expect("plan");
    assert_eq!(plan.native.len(), 1);
}

#[test]
fn go_back_requires_history() {
    let mut c = controller_with(&["a"]);
    let error = c.go_back_safe("a".to_string()).map(|_| ()).expect_err("no history");
    assert_eq!(error.to_string(), "operation failed: back navigation is not available");
    let error = c.go_forward_safe("a".to_string()).map(|_| ()).expect_err("no history");
    assert_eq!(error.to_string(), "operation failed: forward navigation is not available");
    c.state.tab_manager.update_navigation_state("a", "https://p".to_string(), true, true);
    let plan = c.go_back_safe("a".to_string()).expect("plan");
    assert_eq!(native_names(&plan.native)[1], format!("{:?}", NativeCommand::GoBack("a".to_string())));
    assert!(matches!(&plan.events[0], Event::NavigationCompleted(id, u) if id == "a" && u == "https://p"));
    let plan = c.go_forward_safe("a".to_string()).expect("plan");
    assert_eq!(native_names(&plan.native)[1], format!("{:?}", NativeCommand::GoForward("a".to_string())));
    assert!(c.state.get_tab("a").unwrap().is_loading);
}

#[test]
fn reload_requires_a_url() {
    let mut c = controller_with(&["a"]);
    c.state.tab_manager.update_url("a", "   ".to_string());
    let error = c.reload_safe("a".to_string()).map(|_| ()).expect_err("blank");
    assert_eq!(error.to_string(), "operation failed: reload is not available for an empty tab");
    c.state.tab_manager.update_url("a", "https://r".to_string());
    let plan = c.reload_safe("a".to_string()).expect("plan");
    assert_eq!(
        native_names(&plan.native),
        vec![
            format!("{:?}", NativeCommand::SetActiveTab("a".to_string())),
            format!("{:?}", NativeCommand::Reload("a".to_string())),
        ]
    );
    assert!(matches!(&plan.events[0], Event::NavigationCompleted(id, u) if id == "a" && u == "https://r"));
}

#[test]
fn stop_loading_clears_flag() {
    let mut c = controller_with(&["a"]);
    c.state.set_tab_loading_state("a", true);
    let plan = c.stop_loading_safe("a".to_string()).expect("plan");
    assert_eq!(native_names(&plan.native), vec![format!("{:?}", NativeCommand::StopLoading("a".to_string()))]);
    assert!(!c.state.get_tab("a").unwrap().is_loading);
}

#[test]
fn native_events_are_sequenced_on_their_tab_or_the_active_tab() {
    let mut c = controller_with(&["a", "b"]);
    let plan = c
        .handle_browser_event_safe(BrowserEvent::TitleChanged { tab_id: "a".to_string(), title: "T".to_string() })
        .expect("plan");
    match &plan.events[0] {
        Event::BrowserEvent(1, BrowserEvent::TitleChanged { tab_id, .. }, Some(tab)) => {
            assert_eq!(tab_id, "a");
            assert_eq!(tab.title, "T");
            assert_eq!(tab.sequence_number, 1);
        }
        other => panic!("unexpected event {other:?}"),
    }
    let plan = c
        .handle_browser_event_safe(BrowserEvent::LoadStarted { tab_id: "ghost".to_string() })
        .expect("plan");
    match &plan.events[0] {
        Event::BrowserEvent(1, _, Some(tab)) => assert_eq!(tab.id, "b"),
        other => panic!("unexpected event {other:?}"),
    }
    let mut empty = BrowserController::new();
    let plan = empty
        .handle_browser_event_safe(BrowserEvent::LoadStarted { tab_id: "ghost".to_string() })
        .expect("plan");
    assert!(matches!(&plan.events[0], Event::BrowserEvent(0, _, None)));
    assert!(plan.native.is_empty());
}

#[test]
fn create_tab_flow() {
    let mut c = BrowserController::new();
    let pending = c.create_tab_safe().expect("pending");
    assert_eq!(pending.tab_id.len(), 36);
    match &pending.browser_event {
        Event::BrowserEvent(1, BrowserEvent::FrameCreated { tab_id }, Some(tab)) => {
            assert_eq!(tab_id, &pending.tab_id);
            assert_eq!(tab.sequence_number, 1);
        }
        other => panic!("unexpected event {other:?}"),
    }
    let id = pending.tab_id.clone();
    let (tab, plan) = c.complete_create_tab(pending).expect("complete");
    assert_eq!(tab.id, id);
    assert!(matches!(&plan.events[0], Event::TabCreated(x) if x == &id));
    assert!(matches!(&plan.events[1], Event::BrowserEvent(1, _, _)));

    let pending = c.create_tab_safe().expect("pending");
    let second = pending.tab_id.clone();
    c.rollback_create_tab(second.clone());
    assert!(!c.state.contains_tab(&second));
    let error = c.complete_create_tab(pending).map(|_| ()).expect_err("gone");
    assert_eq!(error.to_string(), format!("not found: tab `{second}` was not found"));
}

#[test]
fn snapshot_and_bounds() {
    let mut c = controller_with(&["a"]);
    assert!(c.set_window_bounds_safe(WindowBounds { width: 10, height: 20, x: 1, y: 2 }).is_ok());
    assert_eq!(c.state.window_bounds.width, 10);
    let snapshot = c.get_browser_state_safe().expect("snapshot");
    assert_eq!(snapshot.active_tab_id.as_deref(), Some("a"));
    assert_eq!(c.get_browser_state().tabs.len(), 1);
}
