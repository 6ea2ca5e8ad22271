use netra::browser::tab_manager::TabManager;
use netra::clock::{current_millis, MonotonicClock};

fn ids(manager: &TabManager) -> Vec<String> {
    manager.get_all_tabs().into_iter().map(|tab| tab.id).collect()
}

fn is_active(manager: &TabManager, id: &str) -> Option<bool> {
    manager.get_tab(id).map(|tab| tab.is_active)
}

#[test]
fn create_tab_sets_new_tab_active() {
    let mut manager = TabManager::new();
    let tab = manager.create_tab().expect("tab should be created");

    assert_eq!(manager.get_active_tab_id().as_deref(), Some(tab.id.as_str()));
    assert!(is_active(&manager, &tab.id).unwrap_or(false));
    assert_eq!(ids(&manager), vec![tab.id]);
}

#[test]
fn create_tab_deactivates_previous_active_tab() {
    let mut manager = TabManager::new();
    let first = manager.create_tab().expect("first tab should be created");
    let second = manager.create_tab().expect("second tab should be created");

    assert_eq!(manager.get_active_tab_id().as_deref(), Some(second.id.as_str()));
    assert_eq!(ids(&manager), vec![first.id.clone(), second.id.clone()]);
    assert!(!is_active(&manager, &first.id).unwrap_or(true));
}

#[test]
fn lru_suspends_oldest_background_tabs_when_background_limit_exceeded() {
    let mut manager = TabManager::new();
    let first = manager.create_tab().expect("first tab should be created");

    // Create enough tabs so backgrounds exceed the limit.
    let mut latest = first.id.clone();
    for _ in 0..11 {
        latest = manager
            .create_tab()
            .expect("tab should be created within max limit")
            .id;
    }

    // Mark the oldest background tab as accessed an hour ago: a suspended
    // tab resumed at a given time carries that time.
    manager.suspend_tab(first.id.clone());
    manager.resume_tab_at(first.id.clone(), manager.now_millis() - 60 * 60 * 1000);
    assert!(!is_active(&manager, &first.id).unwrap_or(true));
    assert!(!manager.is_tab_suspended(&first.id));

    // Trigger enforcement after the timestamp change.
    manager.set_active_tab(latest);

    let background_count = manager
        .get_all_tabs()
        .into_iter()
        .filter(|t| !t.is_active && !t.is_suspended)
        .count();
    assert_eq!(background_count, 10);
}

#[test]
fn close_active_tab_promotes_another_tab() {
    let mut manager = TabManager::new();
    let first = manager.create_tab().expect("first tab should be created");
    let second = manager.create_tab().expect("second tab should be created");

    manager.close_tab(second.id.clone());

    assert_eq!(manager.get_active_tab_id().as_deref(), Some(first.id.as_str()));
    assert_eq!(ids(&manager), vec![first.id.clone()]);
    assert!(is_active(&manager, &first.id).unwrap_or(false));
}

#[test]
fn get_all_tabs_preserves_creation_order() {
    let mut manager = TabManager::new();
    let first = manager.create_tab().expect("first tab should be created");
    let second = manager.create_tab().expect("second tab should be created");
    let third = manager.create_tab().expect("third tab should be created");

    let ordered_ids: Vec<String> = manager
        .get_all_tabs()
        .into_iter()
        .map(|tab| tab.id)
        .collect();

    assert_eq!(ordered_ids, vec![first.id, second.id, third.id]);
}

#[test]
fn close_middle_tab_preserves_remaining_order() {
    let mut manager = TabManager::new();
    let first = manager.create_tab().expect("first tab should be created");
    let second = manager.create_tab().expect("second tab should be created");
    let third = manager.create_tab().expect("third tab should be created");

    manager.close_tab(second.id);

    let ordered_ids: Vec<String> = manager
        .get_all_tabs()
        .into_iter()
        .map(|tab| tab.id)
        .collect();

    assert_eq!(ordered_ids, vec![first.id, third.id]);
}

#[test]
fn check_idle_suspension_suspends_background_tabs_after_two_minutes() {
    let mut manager = TabManager::new();
    let first = manager.create_tab().expect("first tab should be created");
    let second = manager.create_tab().expect("second tab should be created");

    // Make the first tab a background tab last accessed three minutes ago.
    manager.suspend_tab(first.id.clone());
    manager.resume_tab_at(first.id.clone(), manager.now_millis() - 3 * 60 * 1000);
    assert!(!manager.is_tab_suspended(&first.id));
    manager.set_active_tab(second.id.clone());

    manager.check_idle_suspension();

    assert!(manager.is_tab_suspended(&first.id));
}

#[test]
fn resuming_suspended_tab_does_not_mark_it_loading() {
    let mut manager = TabManager::new();
    let first = manager.create_tab().expect("first tab should be created");
    let second = manager.create_tab().expect("second tab should be created");

    manager.suspend_tab(first.id.clone());
    manager.set_active_tab(first.id.clone());

    let resumed_tab = manager.get_tab(&first.id).expect("tab should exist");

    assert_eq!(manager.get_active_tab_id().as_deref(), Some(first.id.as_str()));
    assert!(resumed_tab.is_active);
    assert!(!resumed_tab.is_suspended);
    assert!(!resumed_tab.is_loading);
    assert!(!is_active(&manager, &second.id).unwrap_or(true));
}

#[test]
fn closing_active_tab_does_not_force_promoted_tab_into_loading() {
    let mut manager = TabManager::new();
    let first = manager.create_tab().expect("first tab should be created");
    let second = manager.create_tab().expect("second tab should be created");

    manager.close_tab(second.id);

    let promoted_tab = manager.get_tab(&first.id).expect("tab should exist");

    assert_eq!(manager.get_active_tab_id().as_deref(), Some(first.id.as_str()));
    assert!(promoted_tab.is_active);
    assert!(!promoted_tab.is_suspended);
    assert!(!promoted_tab.is_loading);
}

#[test]
fn create_tab_rejects_creation_after_max_tab_limit() {
    let mut manager = TabManager::new();

    for _ in 0..TabManager::DEFAULT_MAX_TABS {
        manager
            .create_tab()
            .expect("tab should be created within max tab limit");
    }

    let error = manager
        .create_tab()
        .expect_err("tab creation should fail after max tab limit");

    assert_eq!(manager.tab_count(), TabManager::DEFAULT_MAX_TABS);
    assert_eq!(
        error.to_string(),
        format!(
            "operation failed: maximum tab limit of {} reached",
            TabManager::DEFAULT_MAX_TABS,
        ),
    );
}

// ---------------------------------------------------------------------------
// Further cases
// ---------------------------------------------------------------------------

#[test]
fn created_tab_has_uuid_identifier_and_about_url() {
    let mut manager = TabManager::new();
    let a = manager.create_tab().expect("tab");
    let b = manager.create_tab().expect("tab");
    assert_eq!(a.id.len(), 36);
    assert_eq!(a.id.chars().filter(|c| *c == '-').count(), 4);
    for (i, c) in a.id.chars().enumerate() {
        if [8, 13, 18, 23].contains(&i) {
            assert_eq!(c, '-');
        } else {
            assert!(c.is_ascii_digit() || ('a'..='f').contains(&c), "{c}");
        }
    }
    assert_eq!(a.id.chars().nth(14), Some('4'));
    assert!(matches!(a.id.chars().nth(19), Some('8' | '9' | 'a' | 'b')));
    assert_ne!(a.id, b.id);
    assert_eq!(a.url, "about");
    assert_eq!(a.title, "");
    assert!(a.is_active && !a.is_loading && !a.is_suspended);
    assert_eq!(a.sequence_number, 0);
    assert_eq!(a.blocked_count, 0);
    assert!(a.last_accessed > 0);
}

#[test]
fn create_tab_with_rejects_duplicate_identifier() {
    let mut manager = TabManager::new();
    manager.create_tab_with("t1".to_string(), 1_000).expect("tab");
    let error = manager.create_tab_with("t1".to_string(), 2_000).expect_err("duplicate");
    assert_eq!(error.to_string(), "operation failed: tab id `t1` is already in use");
    assert_eq!(manager.tab_count(), 1);
}

#[test]
fn background_limit_suspends_least_recently_accessed() {
    let mut manager = TabManager::new();
    // Tab i is accessed at time 1000 + i; the last one stays active.
    for i in 0..12u64 {
        manager.create_tab_with(format!("t{i}"), 1_000 + i).expect("tab");
    }
    // 11 background tabs existed after the twelfth creation: the oldest
    // (t0) was suspended.
    assert!(manager.is_tab_suspended("t0"));
    for i in 1..11 {
        assert!(!manager.is_tab_suspended(&format!("t{i}")));
    }
    let background = manager
        .get_all_tabs()
        .into_iter()
        .filter(|t| !t.is_active && !t.is_suspended)
        .count();
    assert_eq!(background, 10);
}

#[test]
fn lru_ties_are_broken_by_creation_order() {
    let mut manager = TabManager::new();
    for i in 0..13u64 {
        manager.create_tab_with(format!("t{i}"), 5_000).expect("tab");
    }
    assert!(manager.is_tab_suspended("t0"));
    assert!(manager.is_tab_suspended("t1"));
    assert!(!manager.is_tab_suspended("t2"));
}

#[test]
fn idle_suspension_at_given_time() {
    let mut manager = TabManager::new();
    manager.create_tab_with("a".to_string(), 0).expect("tab");
    manager.create_tab_with("b".to_string(), 0).expect("tab");
    manager.set_loading_state("a", true);
    // Exactly two minutes is not idle yet.
    manager.check_idle_suspension_at(120_000);
    assert!(!manager.is_tab_suspended("a"));
    manager.check_idle_suspension_at(120_001);
    assert!(manager.is_tab_suspended("a"));
    assert!(!manager.get_tab("a").unwrap().is_loading);
    // The active tab is never idle-suspended.
    assert!(!manager.is_tab_suspended("b"));
}

#[test]
fn set_active_unknown_tab_is_refused() {
    let mut manager = TabManager::new();
    manager.create_tab_with("a".to_string(), 10).expect("tab");
    assert!(!manager.set_active_tab("zzz".to_string()));
    assert_eq!(manager.get_active_tab_id().as_deref(), Some("a"));
    assert!(!manager.close_tab("zzz".to_string()));
    assert_eq!(manager.tab_count(), 1);
}

#[test]
fn closing_last_tab_leaves_no_active_tab() {
    let mut manager = TabManager::new();
    manager.create_tab_with("a".to_string(), 10).expect("tab");
    assert!(manager.close_tab_at("a".to_string(), 20));
    assert_eq!(manager.get_active_tab_id(), None);
    assert_eq!(manager.tab_count(), 0);
}

#[test]
fn closing_active_tab_promotes_first_remaining_and_stamps_it() {
    let mut manager = TabManager::new();
    manager.create_tab_with("a".to_string(), 10).expect("tab");
    manager.create_tab_with("b".to_string(), 11).expect("tab");
    manager.create_tab_with("c".to_string(), 12).expect("tab");
    manager.suspend_tab("a".to_string());
    assert!(manager.close_tab_at("c".to_string(), 50));
    let a = manager.get_tab("a").unwrap();
    assert!(a.is_active && !a.is_suspended);
    assert_eq!(a.last_accessed, 50);
    assert!(!manager.get_tab("b").unwrap().is_active);
}

#[test]
fn closing_background_tab_keeps_active_tab() {
    let mut manager = TabManager::new();
    manager.create_tab_with("a".to_string(), 10).expect("tab");
    manager.create_tab_with("b".to_string(), 11).expect("tab");
    assert!(manager.close_tab_at("a".to_string(), 50));
    assert_eq!(manager.get_active_tab_id().as_deref(), Some("b"));
}

#[test]
fn suspend_tab_refuses_the_active_tab() {
    let mut manager = TabManager::new();
    manager.create_tab_with("a".to_string(), 10).expect("tab");
    manager.suspend_tab("a".to_string());
    assert!(!manager.is_tab_suspended("a"));
}

#[test]
fn resume_tab_only_touches_suspended_tabs() {
    let mut manager = TabManager::new();
    manager.create_tab_with("a".to_string(), 10).expect("tab");
    manager.create_tab_with("b".to_string(), 11).expect("tab");
    manager.resume_tab_at("a".to_string(), 99);
    assert_eq!(manager.get_tab("a").unwrap().last_accessed, 10);
    manager.suspend_tab("a".to_string());
    manager.resume_tab_at("a".to_string(), 99);
    assert_eq!(manager.get_tab("a").unwrap().last_accessed, 99);
    assert!(!manager.is_tab_suspended("a"));
    assert_eq!(manager.get_active_tab_id().as_deref(), Some("b"));
}

#[test]
fn sequence_numbers_advance_per_tab() {
    let mut manager = TabManager::new();
    manager.create_tab_with("a".to_string(), 10).expect("tab");
    assert_eq!(manager.increment_sequence("a"), 1);
    assert_eq!(manager.increment_sequence("a"), 2);
    assert_eq!(manager.increment_sequence("missing"), 0);
    assert_eq!(manager.get_tab("a").unwrap().sequence_number, 2);
}

#[test]
fn tab_field_updates() {
    let mut manager = TabManager::new();
    manager.create_tab_with("a".to_string(), 10).expect("tab");
    manager.update_navigation_state("a", "https://x.org".to_string(), true, false);
    manager.update_title("a", "X".to_string());
    manager.update_favicon_url("a", Some("https://x.org/f.ico".to_string()));
    manager.increment_blocked_count("a");
    manager.increment_blocked_count("a");
    let a = manager.get_tab("a").unwrap();
    assert_eq!(a.url, "https://x.org");
    assert!(a.can_go_back && !a.can_go_forward);
    assert_eq!(a.title, "X");
    assert_eq!(a.favicon_url.as_deref(), Some("https://x.org/f.ico"));
    assert_eq!(a.blocked_count, 2);
    manager.update_url("a", "https://y.org".to_string());
    assert_eq!(manager.get_tab("a").unwrap().url, "https://y.org");
    // Unknown tabs are ignored.
    manager.update_title("nope", "Y".to_string());
    assert_eq!(manager.tab_count(), 1);
}

#[test]
fn default_manager_is_empty() {
    let manager = TabManager::default();
    assert_eq!(manager.tab_count(), 0);
    assert_eq!(manager.get_active_tab_id(), None);
    assert!(!manager.contains_tab("x"));
}

#[test]
fn every_creation_below_the_limit_succeeds_and_the_limit_error_comes_only_at_the_limit() {
    let mut manager = TabManager::new();
    for n in 0..TabManager::DEFAULT_MAX_TABS {
        assert_eq!(manager.tab_count(), n);
        let tab = manager.create_tab().expect("creation below the limit succeeds");
        assert_eq!(manager.get_active_tab_id(), Some(tab.id.clone()));
    }
    for _ in 0..3 {
        let error = manager.create_tab().expect_err("limit reached");
        assert_eq!(error.to_string(), "operation failed: maximum tab limit of 20 reached");
    }
}

#[test]
fn a_duplicate_identifier_is_not_reported_as_the_limit() {
    let mut manager = TabManager::new();
    manager.create_tab_with("a".to_string(), 1_000).expect("tab");
    let error = manager.create_tab_with("a".to_string(), 2_000).expect_err("taken");
    assert_eq!(error.to_string(), "operation failed: tab id `a` is already in use");
    assert_eq!(manager.tab_count(), 1);
}

#[test]
fn there_is_an_active_tab_exactly_when_there_are_tabs() {
    let mut manager = TabManager::new();
    assert_eq!(manager.get_active_tab_id(), None);
    for (i, id) in ["a", "b", "c"].iter().enumerate() {
        manager.create_tab_with(id.to_string(), 1_000 + i as u64).expect("tab");
        assert!(manager.get_active_tab_id().is_some());
    }
    for (i, id) in ["b", "c", "a"].iter().enumerate() {
        assert!(manager.close_tab_at(id.to_string(), 2_000 + i as u64));
        assert_eq!(manager.get_active_tab_id().is_some(), manager.tab_count() > 0);
        let active = manager.get_all_tabs().into_iter().filter(|t| t.is_active).count();
        assert_eq!(active, manager.tab_count().min(1));
    }
}

#[test]
fn manager_clock_starts_at_wall_time_and_never_goes_back() {
    let before = current_millis();
    let clock = MonotonicClock::start();
    let first = clock.now_millis();
    let second = clock.now_millis();
    assert!(first >= before);
    assert!(second >= first);
    assert!(clock.clone().now_millis() >= second);
}

#[test]
fn cloned_manager_holds_the_same_tabs_and_evolves_separately() {
    let mut manager = TabManager::new();
    manager.create_tab_with("a".to_string(), 1_000).expect("tab");
    manager.create_tab_with("b".to_string(), 2_000).expect("tab");
    let mut copy = manager.clone();
    assert_eq!(ids(&copy), ids(&manager));
    assert_eq!(copy.get_active_tab_id(), manager.get_active_tab_id());
    assert!(copy.close_tab_at("b".to_string(), 3_000));
    assert_eq!(ids(&copy), vec!["a".to_string()]);
    assert_eq!(ids(&manager), vec!["a".to_string(), "b".to_string()]);
}
