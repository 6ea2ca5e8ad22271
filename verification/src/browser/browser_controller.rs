use vstd::prelude::*;

use crate::browser::browser_state::{
    applied_event, back_target, forward_target, with_tab, BrowserState, WindowBounds,
};
use crate::browser::navigation_controller::normalized_url;
use crate::browser::tab_manager::{
    is_duplicate_id_error, is_tab_limit_error,
    created_tab_view, has_tab, idle_suspended, lookup, state_after_activate, state_after_close,
    state_after_create, wrapping_next, TabManagerView, DEFAULT_MAX_TABS,
    lemma_manager_invariant, lemma_lookup_map_tab, lemma_created_tab_present,
};
use crate::domain::browser_event::{event_tab_id, BrowserEvent};
use crate::domain::browser_state::BrowserState as BrowserStateSnapshot;
use crate::domain::event::{Event, EventView};
use crate::domain::tab::{opt_text, Tab, TabId, TabView};
use crate::error::NetraError;
use crate::ids::is_hyphenated_v4;
use crate::text::{chars_equal, chars_of, string_from_chars, trim, trim_chars};

verus! {

/// A command for the native host, to be run once the controller's state
/// update is done.
#[derive(Debug, Clone)]
pub enum NativeCommand {
    CreateTab(String),
    CloseTab(String),
    SetActiveTab(String),
    LoadUrl(String, String),
    GoBack(String),
    GoForward(String),
    Reload(String),
    StopLoading(String),
}

pub enum NativeCommandView {
    CreateTab(Seq<char>),
    CloseTab(Seq<char>),
    SetActiveTab(Seq<char>),
    LoadUrl(Seq<char>, Seq<char>),
    GoBack(Seq<char>),
    GoForward(Seq<char>),
    Reload(Seq<char>),
    StopLoading(Seq<char>),
}

impl View for NativeCommand {
    type V = NativeCommandView;

    open spec fn view(&self) -> NativeCommandView {
        match self {
            NativeCommand::CreateTab(id) => NativeCommandView::CreateTab(id@),
            NativeCommand::CloseTab(id) => NativeCommandView::CloseTab(id@),
            NativeCommand::SetActiveTab(id) => NativeCommandView::SetActiveTab(id@),
            NativeCommand::LoadUrl(id, url) => NativeCommandView::LoadUrl(id@, url@),
            NativeCommand::GoBack(id) => NativeCommandView::GoBack(id@),
            NativeCommand::GoForward(id) => NativeCommandView::GoForward(id@),
            NativeCommand::Reload(id) => NativeCommandView::Reload(id@),
            NativeCommand::StopLoading(id) => NativeCommandView::StopLoading(id@),
        }
    }
}

/// What remains to be done after a controller operation has updated the
/// state: native commands to run in order (stopping at the first failure,
/// whose error is the operation's result), then, once all succeeded, events
/// to publish in order.
#[derive(Debug, Clone)]
pub struct ControlPlan {
    pub native: Vec<NativeCommand>,
    pub events: Vec<Event>,
}

pub struct ControlPlanView {
    pub native: Seq<NativeCommandView>,
    pub events: Seq<EventView>,
}

impl View for ControlPlan {
    type V = ControlPlanView;

    open spec fn view(&self) -> ControlPlanView {
        ControlPlanView {
            native: self.native@.map_values(|c: NativeCommand| c@),
            events: self.events@.map_values(|e: Event| e@),
        }
    }
}

/// A tab created in the state but not yet materialized by the native host.
pub struct PendingTab {
    pub tab_id: TabId,
    /// The frame-created event to publish once the native tab exists.
    pub browser_event: Event,
}

/// Text of the error for an unknown tab.
pub open spec fn not_found_message(id: Seq<char>) -> Seq<char> {
    "tab `"@ + id + "` was not found"@
}

/// The error for an unknown tab.
pub fn tab_not_found(tab_id: &str) -> (e: NetraError)
    ensures
        e matches NetraError::NotFound(m) && m@ == not_found_message(tab_id@),
{
    let mut v: Vec<char> = Vec::new();
    crate::text::push_str(&mut v, "tab `");
    crate::text::push_str(&mut v, tab_id);
    crate::text::push_str(&mut v, "` was not found");
    assert(v@ =~= not_found_message(tab_id@));
    NetraError::NotFound(string_from_chars(&v))
}

/// The active tab's record, if any.
pub open spec fn active_tab_view(v: TabManagerView) -> Option<TabView> {
    match v.active {
        Some(a) => lookup(v.tabs, a),
        None => None,
    }
}

/// Advances the sequence number of tab `id` (when it exists).
pub open spec fn sequenced(v: TabManagerView, id: Seq<char>) -> TabManagerView {
    with_tab(v, id, |t: TabView| TabView { sequence_number: wrapping_next(t.sequence_number), ..t })
}

/// Advances the sequence number of the active tab, if any.
pub open spec fn sequenced_active(v: TabManagerView) -> TabManagerView {
    match v.active {
        Some(a) => sequenced(v, a),
        None => v,
    }
}

/// The sequence number carried by an event about the tab `t`: its current
/// number, or 0 when there is no tab.
pub open spec fn sequence_of(t: Option<TabView>) -> u32 {
    match t {
        Some(v) => v.sequence_number,
        None => 0,
    }
}

/// The tab a native event is sequenced on: the event's own tab when it
/// exists, otherwise the active tab when it exists, otherwise the event's
/// tab identifier.
pub open spec fn sequence_target(v: TabManagerView, event_tab: Seq<char>) -> Seq<char> {
    if has_tab(v.tabs, event_tab) {
        event_tab
    } else {
        match v.active {
            Some(a) => if has_tab(v.tabs, a) {
                a
            } else {
                event_tab
            },
            None => event_tab,
        }
    }
}

/// Activation reloads only a tab that was suspended: a tab that was awake is
/// never reloaded, whatever its URL, and a suspended tab is reloaded exactly
/// when its trimmed URL names a real page (not empty, `about` or
/// `about:blank`).
pub proof fn law_only_suspended_tabs_reload(url: Seq<char>)
    ensures
        !needs_reload(false, url),
        needs_reload(true, url) <==> (trim(url).len() > 0 && trim(url) != "about"@ && trim(url)
            != "about:blank"@),
{
}

/// Whether activating a tab must also reload it: it was suspended and its
/// trimmed URL is a real page (not empty, `about` or `about:blank`).
pub open spec fn needs_reload(was_suspended: bool, url: Seq<char>) -> bool {
    was_suspended && trim(url).len() > 0 && trim(url) != "about"@ && trim(url) != "about:blank"@
}

/// The URL of tab `id`, empty when there is no such tab.
pub open spec fn url_of(v: TabManagerView, id: Seq<char>) -> Seq<char> {
    match lookup(v.tabs, id) {
        Some(t) => t.url,
        None => Seq::empty(),
    }
}

/// Whether the URL names a real page to reload: not blank, `about` or
/// `about:blank` once trimmed.
fn is_reloadable_url(url: &String) -> (r: bool)
    ensures
        r == (trim(url@).len() > 0 && trim(url@) != "about"@ && trim(url@) != "about:blank"@),
{
    let chars = chars_of(url.as_str());
    let trimmed = trim_chars(&chars);
    let about = chars_of("about");
    let about_blank = chars_of("about:blank");
    trimmed.len() > 0 && !chars_equal(&trimmed, &about) && !chars_equal(&trimmed, &about_blank)
}

/// The error for a navigation command that cannot run.
fn operation_failed(message: &str) -> (e: NetraError)
    ensures
        e matches NetraError::OperationFailed(m) && m@ == message@,
{
    NetraError::OperationFailed(message.to_string())
}

/// Sets the loading flag of tab `id`.
pub open spec fn loading(v: TabManagerView, id: Seq<char>, on: bool) -> TabManagerView {
    with_tab(v, id, |t: TabView| TabView { is_loading: on, ..t })
}

/// Central orchestrator of browser-core operations.
///
/// Each operation updates the Rust-owned state and hands back what must
/// follow outside the state lock: native commands and events to publish.
pub struct BrowserController {
    /// Browser state coordinator.
    pub state: BrowserState,
}

impl BrowserController {
    pub open spec fn wf(&self) -> bool {
        self.state.wf()
    }

    /// A controller over a fresh browser state.
    pub fn new() -> (c: Self)
        ensures
            c.wf(),
            c.state.tab_manager@.tabs == Seq::<TabView>::empty(),
            c.state.tab_manager@.active is None,
            c.state.window_bounds == (WindowBounds { width: 800, height: 600, x: 0, y: 0 }),
    {
        BrowserController { state: BrowserState::new() }
    }

    /// `Ok` when the tab exists, the not-found error otherwise.
    pub fn ensure_tab_exists(&self, tab_id: &str) -> (r: Result<(), NetraError>)
        ensures
            r is Ok <==> has_tab(self.state.tab_manager@.tabs, tab_id@),
            r matches Err(e) ==> e matches NetraError::NotFound(m) && m@ == not_found_message(tab_id@),
    {
        if self.state.contains_tab(tab_id) {
            Ok(())
        } else {
            Err(tab_not_found(tab_id))
        }
    }

    /// The browser-state snapshot.
    pub fn get_browser_state(&self) -> (r: BrowserStateSnapshot)
        ensures
            opt_text(r.active_tab_id) == self.state.tab_manager@.active,
            crate::browser::tab_manager::views_of(r.tabs@) == self.state.tab_manager@.tabs,
    {
        self.state.snapshot()
    }

    /// The browser-state snapshot; reading the state never fails.
    pub fn get_browser_state_safe(&self) -> (r: Result<BrowserStateSnapshot, NetraError>)
        ensures
            r matches Ok(s) && opt_text(s.active_tab_id) == self.state.tab_manager@.active
                && crate::browser::tab_manager::views_of(s.tabs@) == self.state.tab_manager@.tabs,
    {
        Ok(self.state.snapshot())
    }

    /// Updates the tracked window bounds; this never fails.
    pub fn set_window_bounds_safe(&mut self, bounds: WindowBounds) -> (r: Result<(), NetraError>)
        ensures
            r is Ok,
            final(self).state.window_bounds == bounds,
            final(self).state.tab_manager == old(self).state.tab_manager,
    {
        self.state.set_window_bounds(bounds);
        Ok(())
    }

    /// Stops loading in a tab: clears its loading flag and asks the native
    /// host to stop. An unknown tab is refused.
    pub fn stop_loading_safe(&mut self, tab_id: TabId) -> (r: Result<ControlPlan, NetraError>)
        requires
            old(self).wf(),
        ensures
            final(self).wf(),
            final(self).state.window_bounds == old(self).state.window_bounds,
            !has_tab(old(self).state.tab_manager@.tabs, tab_id@) ==> (r matches Err(NetraError::NotFound(m))
                && m@ == not_found_message(tab_id@) && final(self).state.tab_manager@ == old(
                self,
            ).state.tab_manager@),
            has_tab(old(self).state.tab_manager@.tabs, tab_id@) ==> (r matches Ok(p) && p@ == (ControlPlanView {
                native: seq![NativeCommandView::StopLoading(tab_id@)],
                events: Seq::empty(),
            }) && final(self).state.tab_manager@ == loading(old(self).state.tab_manager@, tab_id@, false)),
    {
        self.ensure_tab_exists(tab_id.as_str())?;
        self.state.set_tab_loading_state(tab_id.as_str(), false);
        let mut native: Vec<NativeCommand> = Vec::new();
        native.push(NativeCommand::StopLoading(tab_id));
        let plan = ControlPlan { native, events: Vec::new() };
        assert(plan@.native =~= seq![NativeCommandView::StopLoading(tab_id@)]);
        assert(plan@.events =~= Seq::<EventView>::empty());
        Ok(plan)
    }

    /// Applies an authoritative native event to the state and sequences it:
    /// the event's tab (or, when it is gone, the active tab) gets its next
    /// sequence number, and the event is to be published with that number
    /// and that tab's state.
    pub fn handle_browser_event_safe(&mut self, event: BrowserEvent) -> (r: Result<ControlPlan, NetraError>)
        requires
            old(self).wf(),
        ensures
            final(self).wf(),
            final(self).state.window_bounds == old(self).state.window_bounds,
            r is Ok,
            exists|now: u64|
                {
                    let mid = #[trigger] applied_event(old(self).state.tab_manager@, event, now);
                    let target = sequence_target(mid, event_tab_id(event));
                    let fin = final(self).state.tab_manager@;
                    &&& fin == sequenced(mid, target)
                    &&& r matches Ok(p) && p@ == (ControlPlanView {
                        native: Seq::empty(),
                        events: seq![
                            EventView::BrowserEvent(
                                sequence_of(lookup(fin.tabs, target)),
                                event,
                                lookup(fin.tabs, target),
                            ),
                        ],
                    })
                },
    {
        let tab_id = event.tab_id().clone();
        self.state.apply_browser_event(&event);
        let ghost mid = self.state.tab_manager@;
        let ghost now = choose|now: u64| mid == applied_event(old(self).state.tab_manager@, event, now);
        let seq_tab = if self.state.contains_tab(tab_id.as_str()) {
            tab_id
        } else {
            match self.state.get_active_tab_id() {
                Some(a) => if self.state.contains_tab(a.as_str()) {
                    a
                } else {
                    tab_id
                },
                None => tab_id,
            }
        };
        assert(seq_tab@ == sequence_target(mid, event_tab_id(event)));
        proof {
            lemma_manager_invariant(self.state.tab_manager);
            lemma_lookup_map_tab(
                mid.tabs,
                seq_tab@,
                |t: TabView| TabView { sequence_number: wrapping_next(t.sequence_number), ..t },
            );
        }
        let seq = self.state.tab_manager.increment_sequence(seq_tab.as_str());
        let current = self.state.get_tab(seq_tab.as_str());
        let mut events: Vec<Event> = Vec::new();
        events.push(Event::BrowserEvent(seq, event, current));
        let plan = ControlPlan { native: Vec::new(), events };
        assert(plan@.native =~= Seq::<NativeCommandView>::empty());
        assert(plan@.events =~= seq![
            EventView::BrowserEvent(
                sequence_of(lookup(self.state.tab_manager@.tabs, seq_tab@)),
                event,
                lookup(self.state.tab_manager@.tabs, seq_tab@),
            ),
        ]);
        Ok(plan)
    }

    /// Closes an existing tab: removes it from the state, sequences the tab
    /// that is active afterwards (if any), and asks the native host to close
    /// the tab. An unknown tab is refused.
    pub fn close_tab_safe(&mut self, tab_id: TabId) -> (r: Result<ControlPlan, NetraError>)
        requires
            old(self).wf(),
        ensures
            final(self).wf(),
            final(self).state.window_bounds == old(self).state.window_bounds,
            !has_tab(old(self).state.tab_manager@.tabs, tab_id@) ==> (r matches Err(NetraError::NotFound(m))
                && m@ == not_found_message(tab_id@) && final(self).state.tab_manager@ == old(
                self,
            ).state.tab_manager@),
            has_tab(old(self).state.tab_manager@.tabs, tab_id@) ==> exists|now: u64|
                {
                    let mid = #[trigger] state_after_close(old(self).state.tab_manager@, tab_id@, now);
                    let fin = final(self).state.tab_manager@;
                    &&& fin == sequenced_active(mid)
                    &&& r matches Ok(p) && p@ == (ControlPlanView {
                        native: seq![NativeCommandView::CloseTab(tab_id@)],
                        events: seq![
                            EventView::TabClosed(tab_id@),
                            EventView::BrowserEvent(
                                sequence_of(active_tab_view(fin)),
                                BrowserEvent::FrameDestroyed { tab_id: tab_id },
                                active_tab_view(fin),
                            ),
                        ],
                    })
                },
    {
        self.ensure_tab_exists(tab_id.as_str())?;
        self.state.close_tab(tab_id.clone());
        let ghost mid = self.state.tab_manager@;
        let ghost now = choose|now: u64|
            mid == crate::browser::browser_state::closed_if_present(old(self).state.tab_manager@, tab_id@, now);
        assert(mid == state_after_close(old(self).state.tab_manager@, tab_id@, now));
        proof {
            lemma_manager_invariant(self.state.tab_manager);
        }
        let next_active = match self.state.get_active_tab_id() {
            Some(a) => self.state.get_tab(a.as_str()),
            None => None,
        };
        assert(crate::browser::tab_manager::opt_tab_view(next_active) == active_tab_view(mid));
        let seq = match &next_active {
            Some(t) => {
                proof {
                    lemma_lookup_map_tab(
                        mid.tabs,
                        t@.id,
                        |t: TabView| TabView { sequence_number: wrapping_next(t.sequence_number), ..t },
                    );
                }
                self.state.tab_manager.increment_sequence(t.id.as_str())
            },
            None => 0,
        };
        let authoritative = match &next_active {
            Some(t) => self.state.get_tab(t.id.as_str()),
            None => None,
        };
        assert(crate::browser::tab_manager::opt_tab_view(authoritative) == active_tab_view(self.state.tab_manager@));
        let mut events: Vec<Event> = Vec::new();
        events.push(Event::TabClosed(tab_id.clone()));
        events.push(
            Event::BrowserEvent(seq, BrowserEvent::FrameDestroyed { tab_id: tab_id.clone() }, authoritative),
        );
        let mut native: Vec<NativeCommand> = Vec::new();
        native.push(NativeCommand::CloseTab(tab_id));
        let plan = ControlPlan { native, events };
        assert(plan@.native =~= seq![NativeCommandView::CloseTab(tab_id@)]);
        assert(plan@.events =~= seq![
            EventView::TabClosed(tab_id@),
            EventView::BrowserEvent(
                sequence_of(active_tab_view(self.state.tab_manager@)),
                BrowserEvent::FrameDestroyed { tab_id: tab_id },
                active_tab_view(self.state.tab_manager@),
            ),
        ]);
        Ok(plan)
    }

    /// Checks that the tab exists and makes it active (the shared first
    /// step of the tab commands).
    fn activate_for_command(&mut self, tab_id: &TabId) -> (r: Result<(), NetraError>)
        requires
            old(self).wf(),
        ensures
            final(self).wf(),
            final(self).state.window_bounds == old(self).state.window_bounds,
            !has_tab(old(self).state.tab_manager@.tabs, tab_id@) ==> (r matches Err(NetraError::NotFound(m))
                && m@ == not_found_message(tab_id@) && final(self).state.tab_manager@ == old(
                self,
            ).state.tab_manager@),
            has_tab(old(self).state.tab_manager@.tabs, tab_id@) ==> r is Ok && exists|now: u64|
                final(self).state.tab_manager@ == #[trigger] state_after_activate(
                    old(self).state.tab_manager@,
                    tab_id@,
                    now,
                ),
    {
        self.ensure_tab_exists(tab_id.as_str())?;
        if !self.state.set_active_tab(tab_id.clone()) {
            return Err(tab_not_found(tab_id.as_str()));
        }
        Ok(())
    }

    /// Activates a tab; a suspended tab with a real page is also marked
    /// loading and reloaded natively. An unknown tab is refused.
    pub fn set_active_tab_safe(&mut self, tab_id: TabId) -> (r: Result<ControlPlan, NetraError>)
        requires
            old(self).wf(),
        ensures
            final(self).wf(),
            final(self).state.window_bounds == old(self).state.window_bounds,
            !has_tab(old(self).state.tab_manager@.tabs, tab_id@) ==> (r matches Err(NetraError::NotFound(m))
                && m@ == not_found_message(tab_id@) && final(self).state.tab_manager@ == old(
                self,
            ).state.tab_manager@),
            has_tab(old(self).state.tab_manager@.tabs, tab_id@) ==> exists|now: u64|
                {
                    let mid = #[trigger] state_after_activate(old(self).state.tab_manager@, tab_id@, now);
                    let reload = needs_reload(
                        lookup(old(self).state.tab_manager@.tabs, tab_id@) matches Some(t) && t.is_suspended,
                        url_of(mid, tab_id@),
                    );
                    &&& final(self).state.tab_manager@ == if reload {
                        loading(mid, tab_id@, true)
                    } else {
                        mid
                    }
                    &&& r matches Ok(p) && p@ == (ControlPlanView {
                        native: if reload {
                            seq![NativeCommandView::SetActiveTab(tab_id@), NativeCommandView::Reload(tab_id@)]
                        } else {
                            seq![NativeCommandView::SetActiveTab(tab_id@)]
                        },
                        events: Seq::empty(),
                    })
                },
            lookup(old(self).state.tab_manager@.tabs, tab_id@) matches Some(t) && !t.is_suspended ==> (r matches Ok(
                p,
            ) && p@.native == seq![NativeCommandView::SetActiveTab(tab_id@)] && exists|now: u64|
                final(self).state.tab_manager@ == #[trigger] state_after_activate(
                    old(self).state.tab_manager@,
                    tab_id@,
                    now,
                )),
    {
        self.ensure_tab_exists(tab_id.as_str())?;
        let was_suspended = self.state.tab_manager.is_tab_suspended(tab_id.as_str());
        if self.state.set_active_tab(tab_id.clone()) {
            let current_url = match self.state.get_tab(tab_id.as_str()) {
                Some(t) => t.url,
                None => String::new(),
            };
            let should_reload = was_suspended && is_reloadable_url(&current_url);
            if should_reload {
                self.state.set_tab_loading_state(tab_id.as_str(), true);
            }
            let mut native: Vec<NativeCommand> = Vec::new();
            native.push(NativeCommand::SetActiveTab(tab_id.clone()));
            if should_reload {
                native.push(NativeCommand::Reload(tab_id.clone()));
            }
            let plan = ControlPlan { native, events: Vec::new() };
            assert(plan@.events =~= Seq::<EventView>::empty());
            if should_reload {
                assert(plan@.native =~= seq![NativeCommandView::SetActiveTab(tab_id@), NativeCommandView::Reload(tab_id@)]);
            } else {
                assert(plan@.native =~= seq![NativeCommandView::SetActiveTab(tab_id@)]);
            }
            Ok(plan)
        } else {
            Err(tab_not_found(tab_id.as_str()))
        }
    }

    /// Activates a tab and navigates it to the normalized form of `url`,
    /// marking it loading; the native host is to activate the tab and load
    /// the URL. An unknown tab is refused.
    pub fn navigate_safe(&mut self, tab_id: TabId, url: String) -> (r: Result<ControlPlan, NetraError>)
        requires
            old(self).wf(),
        ensures
            final(self).wf(),
            final(self).state.window_bounds == old(self).state.window_bounds,
            !has_tab(old(self).state.tab_manager@.tabs, tab_id@) ==> (r matches Err(NetraError::NotFound(m))
                && m@ == not_found_message(tab_id@) && final(self).state.tab_manager@ == old(
                self,
            ).state.tab_manager@),
            has_tab(old(self).state.tab_manager@.tabs, tab_id@) ==> exists|now: u64|
                {
                    let mid = #[trigger] state_after_activate(old(self).state.tab_manager@, tab_id@, now);
                    let target = normalized_url(url@);
                    &&& final(self).state.tab_manager@ == loading(
                        with_tab(mid, tab_id@, |t: TabView| TabView { url: target, ..t }),
                        tab_id@,
                        true,
                    )
                    &&& r matches Ok(p) && p@ == (ControlPlanView {
                        native: seq![
                            NativeCommandView::SetActiveTab(tab_id@),
                            NativeCommandView::LoadUrl(tab_id@, target),
                        ],
                        events: seq![EventView::NavigationCompleted(tab_id@, target)],
                    })
                },
    {
        self.activate_for_command(&tab_id)?;
        let normalized = match self.state.navigate(url) {
            Some(u) => u,
            None => return Err(operation_failed("failed to load URL")),
        };
        self.state.set_tab_loading_state(tab_id.as_str(), true);
        let mut native: Vec<NativeCommand> = Vec::new();
        native.push(NativeCommand::SetActiveTab(tab_id.clone()));
        native.push(NativeCommand::LoadUrl(tab_id.clone(), normalized.clone()));
        let mut events: Vec<Event> = Vec::new();
        events.push(Event::NavigationCompleted(tab_id.clone(), normalized.clone()));
        let plan = ControlPlan { native, events };
        assert(plan@.native =~= seq![
            NativeCommandView::SetActiveTab(tab_id@),
            NativeCommandView::LoadUrl(tab_id@, normalized@),
        ]);
        assert(plan@.events =~= seq![EventView::NavigationCompleted(tab_id@, normalized@)]);
        Ok(plan)
    }

    /// Activates a tab and goes back in it when its history allows, marking
    /// it loading; the native host is to activate the tab and go back.
    /// An unknown tab is refused; a tab that cannot go back fails after
    /// being activated. The navigation-completed event carries the tab's
    /// current URL (see [BrowserState::go_back]).
    pub fn go_back_safe(&mut self, tab_id: TabId) -> (r: Result<ControlPlan, NetraError>)
        requires
            old(self).wf(),
        ensures
            final(self).wf(),
            final(self).state.window_bounds == old(self).state.window_bounds,
            !has_tab(old(self).state.tab_manager@.tabs, tab_id@) ==> (r matches Err(NetraError::NotFound(m))
                && m@ == not_found_message(tab_id@) && final(self).state.tab_manager@ == old(
                self,
            ).state.tab_manager@),
            has_tab(old(self).state.tab_manager@.tabs, tab_id@) ==> exists|now: u64|
                {
                    let mid = #[trigger] state_after_activate(old(self).state.tab_manager@, tab_id@, now);
                    match back_target(mid) {
                        None => r matches Err(NetraError::OperationFailed(m)) && m@
                            == "back navigation is not available"@ && final(self).state.tab_manager@ == mid,
                        Some(u) => final(self).state.tab_manager@ == loading(mid, tab_id@, true) && (r matches Ok(p)
                            && p@ == (ControlPlanView {
                            native: seq![
                                NativeCommandView::SetActiveTab(tab_id@),
                                NativeCommandView::GoBack(tab_id@),
                            ],
                            events: seq![EventView::NavigationCompleted(tab_id@, u)],
                        })),
                    }
                },
    {
        self.activate_for_command(&tab_id)?;
        let ghost mid = self.state.tab_manager@;
        let resolved = match self.state.go_back() {
            Some(u) => u,
            None => return Err(operation_failed("back navigation is not available")),
        };
        let ghost resolved_view = resolved@;
        self.state.set_tab_loading_state(tab_id.as_str(), true);
        let mut native: Vec<NativeCommand> = Vec::new();
        native.push(NativeCommand::SetActiveTab(tab_id.clone()));
        native.push(NativeCommand::GoBack(tab_id.clone()));
        let mut events: Vec<Event> = Vec::new();
        events.push(Event::NavigationCompleted(tab_id.clone(), resolved));
        let plan = ControlPlan { native, events };
        assert(plan@.native =~= seq![
            NativeCommandView::SetActiveTab(tab_id@),
            NativeCommandView::GoBack(tab_id@),
        ]);
        assert(plan@.events =~= seq![EventView::NavigationCompleted(tab_id@, resolved_view)]);
        Ok(plan)
    }

    /// Activates a tab and goes forward in it when its history allows,
    /// marking it loading; the native host is to activate the tab and go
    /// forward. An unknown tab is refused; a tab that cannot go forward
    /// fails after being activated. The navigation-completed event carries
    /// the tab's current URL (see [BrowserState::go_forward]).
    pub fn go_forward_safe(&mut self, tab_id: TabId) -> (r: Result<ControlPlan, NetraError>)
        requires
            old(self).wf(),
        ensures
            final(self).wf(),
            final(self).state.window_bounds == old(self).state.window_bounds,
            !has_tab(old(self).state.tab_manager@.tabs, tab_id@) ==> (r matches Err(NetraError::NotFound(m))
                && m@ == not_found_message(tab_id@) && final(self).state.tab_manager@ == old(
                self,
            ).state.tab_manager@),
            has_tab(old(self).state.tab_manager@.tabs, tab_id@) ==> exists|now: u64|
                {
                    let mid = #[trigger] state_after_activate(old(self).state.tab_manager@, tab_id@, now);
                    match forward_target(mid) {
                        None => r matches Err(NetraError::OperationFailed(m)) && m@
                            == "forward navigation is not available"@ && final(self).state.tab_manager@ == mid,
                        Some(u) => final(self).state.tab_manager@ == loading(mid, tab_id@, true) && (r matches Ok(p)
                            && p@ == (ControlPlanView {
                            native: seq![
                                NativeCommandView::SetActiveTab(tab_id@),
                                NativeCommandView::GoForward(tab_id@),
                            ],
                            events: seq![EventView::NavigationCompleted(tab_id@, u)],
                        })),
                    }
                },
    {
        self.activate_for_command(&tab_id)?;
        let ghost mid = self.state.tab_manager@;
        let resolved = match self.state.go_forward() {
            Some(u) => u,
            None => return Err(operation_failed("forward navigation is not available")),
        };
        let ghost resolved_view = resolved@;
        self.state.set_tab_loading_state(tab_id.as_str(), true);
        let mut native: Vec<NativeCommand> = Vec::new();
        native.push(NativeCommand::SetActiveTab(tab_id.clone()));
        native.push(NativeCommand::GoForward(tab_id.clone()));
        let mut events: Vec<Event> = Vec::new();
        events.push(Event::NavigationCompleted(tab_id.clone(), resolved));
        let plan = ControlPlan { native, events };
        assert(plan@.native =~= seq![
            NativeCommandView::SetActiveTab(tab_id@),
            NativeCommandView::GoForward(tab_id@),
        ]);
        assert(plan@.events =~= seq![EventView::NavigationCompleted(tab_id@, resolved_view)]);
        Ok(plan)
    }

    /// Activates a tab and reloads its current page, marking it loading; the
    /// native host is to activate the tab and reload it. An unknown tab is
    /// refused; a tab whose URL is blank fails after being activated.
    pub fn reload_safe(&mut self, tab_id: TabId) -> (r: Result<ControlPlan, NetraError>)
        requires
            old(self).wf(),
        ensures
            final(self).wf(),
            final(self).state.window_bounds == old(self).state.window_bounds,
            !has_tab(old(self).state.tab_manager@.tabs, tab_id@) ==> (r matches Err(NetraError::NotFound(m))
                && m@ == not_found_message(tab_id@) && final(self).state.tab_manager@ == old(
                self,
            ).state.tab_manager@),
            has_tab(old(self).state.tab_manager@.tabs, tab_id@) ==> exists|now: u64|
                {
                    let mid = #[trigger] state_after_activate(old(self).state.tab_manager@, tab_id@, now);
                    let url = url_of(mid, tab_id@);
                    if trim(url).len() == 0 {
                        r matches Err(NetraError::OperationFailed(m)) && m@
                            == "reload is not available for an empty tab"@ && final(self).state.tab_manager@ == mid
                    } else {
                        final(self).state.tab_manager@ == loading(mid, tab_id@, true) && (r matches Ok(p) && p@
                            == (ControlPlanView {
                            native: seq![
                                NativeCommandView::SetActiveTab(tab_id@),
                                NativeCommandView::Reload(tab_id@),
                            ],
                            events: seq![EventView::NavigationCompleted(tab_id@, url)],
                        }))
                    }
                },
    {
        self.activate_for_command(&tab_id)?;
        let current_url = match self.state.get_tab(tab_id.as_str()) {
            Some(t) => t.url,
            None => String::new(),
        };
        if crate::browser::browser_state::is_blank(&current_url) {
            return Err(operation_failed("reload is not available for an empty tab"));
        }
        self.state.set_tab_loading_state(tab_id.as_str(), true);
        let mut native: Vec<NativeCommand> = Vec::new();
        native.push(NativeCommand::SetActiveTab(tab_id.clone()));
        native.push(NativeCommand::Reload(tab_id.clone()));
        let mut events: Vec<Event> = Vec::new();
        let ghost url_view = current_url@;
        events.push(Event::NavigationCompleted(tab_id.clone(), current_url));
        let plan = ControlPlan { native, events };
        assert(plan@.native =~= seq![
            NativeCommandView::SetActiveTab(tab_id@),
            NativeCommandView::Reload(tab_id@),
        ]);
        assert(plan@.events =~= seq![EventView::NavigationCompleted(tab_id@, url_view)]);
        Ok(plan)
    }

    /// First step of tab creation: creates and activates a tab in the state
    /// (see [TabManager::create_tab]) and sequences it. The returned pending
    /// tab names the tab the native host is to create and carries the
    /// frame-created event to publish once it exists.
    pub fn create_tab_safe(&mut self) -> (r: Result<PendingTab, NetraError>)
        requires
            old(self).wf(),
        ensures
            final(self).wf(),
            final(self).state.window_bounds == old(self).state.window_bounds,
            (r matches Err(e) && is_tab_limit_error(e)) <==> old(self).state.tab_manager@.tabs.len()
                >= DEFAULT_MAX_TABS,
            old(self).state.tab_manager@.tabs.len() < DEFAULT_MAX_TABS ==> (r is Ok || (r matches Err(e)
                && is_duplicate_id_error(e, old(self).state.tab_manager@.tabs))),
            old(self).state.tab_manager@.tabs.len() == 0 ==> r is Ok,
            r is Err ==> exists|now: u64|
                final(self).state.tab_manager@ == (TabManagerView {
                    tabs: #[trigger] idle_suspended(old(self).state.tab_manager@.tabs, now),
                    ..old(self).state.tab_manager@
                }),
            r matches Ok(p) ==> is_hyphenated_v4(p.tab_id@) && exists|now: u64|
                {
                    let mid = #[trigger] state_after_create(
                        idle_suspended(old(self).state.tab_manager@.tabs, now),
                        old(self).state.tab_manager@.active,
                        p.tab_id@,
                        now,
                    );
                    let fin = final(self).state.tab_manager@;
                    &&& fin == sequenced(mid, p.tab_id@)
                    &&& p.browser_event@ matches EventView::BrowserEvent(seq, e, t)
                    &&& seq == sequence_of(lookup(fin.tabs, p.tab_id@))
                    &&& t == lookup(fin.tabs, p.tab_id@)
                    &&& e matches BrowserEvent::FrameCreated { tab_id }
                    &&& tab_id@ == p.tab_id@
                },
    {
        let created = self.state.create_tab()?;
        let ghost mid = self.state.tab_manager@;
        proof {
            lemma_manager_invariant(self.state.tab_manager);
            lemma_lookup_map_tab(
                mid.tabs,
                created@.id,
                |t: TabView| TabView { sequence_number: wrapping_next(t.sequence_number), ..t },
            );
        }
        let seq = self.state.tab_manager.increment_sequence(created.id.as_str());
        let authoritative = match self.state.get_tab(created.id.as_str()) {
            Some(t) => t,
            None => created.clone(),
        };
        assert(has_tab(mid.tabs, created@.id)) by {
            let now = created@.last_accessed;
            lemma_created_tab_present(
                idle_suspended(old(self).state.tab_manager@.tabs, now),
                old(self).state.tab_manager@.active,
                created@.id,
                now,
            );
        }
        let ghost fin = self.state.tab_manager@;
        assert(has_tab(fin.tabs, created@.id));
        assert(lookup(fin.tabs, created@.id) == Some(authoritative@));
        assert(authoritative@.id == created@.id);
        let event = Event::BrowserEvent(
            seq,
            BrowserEvent::FrameCreated { tab_id: created.id.clone() },
            Some(authoritative.clone()),
        );
        let pending = PendingTab { tab_id: authoritative.id, browser_event: event };
        assert(pending.tab_id@ == created@.id);
        assert(mid == state_after_create(
            idle_suspended(old(self).state.tab_manager@.tabs, created@.last_accessed),
            old(self).state.tab_manager@.active,
            pending.tab_id@,
            created@.last_accessed,
        ));
        Ok(pending)
    }

    /// Undoes a creation whose native step failed: closes the tab again
    /// (an unknown tab is ignored).
    pub fn rollback_create_tab(&mut self, tab_id: TabId)
        requires
            old(self).wf(),
        ensures
            final(self).wf(),
            final(self).state.window_bounds == old(self).state.window_bounds,
            exists|now: u64|
                final(self).state.tab_manager@ == #[trigger] crate::browser::browser_state::closed_if_present(
                    old(self).state.tab_manager@,
                    tab_id@,
                    now,
                ),
    {
        self.state.close_tab(tab_id);
    }

    /// Last step of tab creation, once the native tab exists: re-reads the
    /// tab from the state and yields it with the events to publish (tab
    /// created, then the pending frame-created event). Fails when the tab
    /// has meanwhile disappeared.
    pub fn complete_create_tab(&self, pending: PendingTab) -> (r: Result<(Tab, ControlPlan), NetraError>)
        requires
            self.wf(),
        ensures
            !has_tab(self.state.tab_manager@.tabs, pending.tab_id@) ==> (r matches Err(NetraError::NotFound(m))
                && m@ == not_found_message(pending.tab_id@)),
            has_tab(self.state.tab_manager@.tabs, pending.tab_id@) ==> (r matches Ok((t, p)) && Some(t@)
                == lookup(self.state.tab_manager@.tabs, pending.tab_id@) && p@ == (ControlPlanView {
                native: Seq::empty(),
                events: seq![EventView::TabCreated(pending.tab_id@), pending.browser_event@],
            })),
    {
        let ghost pending_event = pending.browser_event@;
        match self.state.get_tab(pending.tab_id.as_str()) {
            Some(tab) => {
                proof {
                    lemma_manager_invariant(self.state.tab_manager);
                }
                assert(tab@.id == pending.tab_id@);
                let mut events: Vec<Event> = Vec::new();
                events.push(Event::TabCreated(tab.id.clone()));
                events.push(pending.browser_event);
                let plan = ControlPlan { native: Vec::new(), events };
                assert(plan@.native =~= Seq::<NativeCommandView>::empty());
                assert(plan@.events =~= seq![EventView::TabCreated(pending.tab_id@), pending_event]);
                Ok((tab, plan))
            },
            None => Err(tab_not_found(pending.tab_id.as_str())),
        }
    }
}


impl Default for BrowserController {
    fn default() -> (c: Self)
        ensures
            c.wf(),
            c.state.tab_manager@.tabs == Seq::<TabView>::empty(),
            c.state.tab_manager@.active is None,
    {
        BrowserController::new()
    }
}

} // verus!
