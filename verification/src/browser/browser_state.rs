use vstd::prelude::*;

use crate::browser::navigation_controller::{normalized_url, NavigationController};
use crate::browser::tab_manager::{
    is_duplicate_id_error, is_tab_limit_error, lemma_lookup_map_tab, manager_wf, law_activation_result,
    created_tab_view, has_tab, idle_suspended, lookup, map_tab, opt_tab_view, saturating_next,
    state_after_activate, state_after_close, state_after_create,
    lemma_manager_invariant, lemma_map_tab_at, lemma_map_tab_absent, ids_distinct, tab_index, views_of, TabManager, TabManagerView,
    DEFAULT_MAX_TABS,
};
use crate::ids::is_hyphenated_v4;
use crate::domain::browser_event::{event_tab_id, BrowserEvent};
use crate::domain::browser_state::BrowserState as BrowserStateSnapshot;
use crate::domain::tab::{opt_text, Tab, TabId, TabView};
use crate::error::NetraError;
use crate::text::{chars_of, trim, trim_chars};

verus! {

/// Native window geometry tracked by the core.
#[derive(Debug, Clone, Copy, PartialEq, Eq)]
pub struct WindowBounds {
    /// Window width in physical pixels.
    pub width: u32,
    /// Window height in physical pixels.
    pub height: u32,
    /// Left position in screen coordinates.
    pub x: i32,
    /// Top position in screen coordinates.
    pub y: i32,
}

impl WindowBounds {
    /// Bounds reported by the native host as signed integers; `None` when
    /// the width or the height is negative.
    pub fn from_native(x: i32, y: i32, width: i32, height: i32) -> (r: Option<WindowBounds>)
        ensures
            (width >= 0 && height >= 0) ==> r == Some(
                WindowBounds { width: width as u32, height: height as u32, x, y },
            ),
            !(width >= 0 && height >= 0) ==> r is None,
    {
        if width < 0 || height < 0 {
            None
        } else {
            Some(WindowBounds { width: width as u32, height: height as u32, x, y })
        }
    }
}

/// Manager state with `f` applied to the tab `id`.
pub open spec fn with_tab(v: TabManagerView, id: Seq<char>, f: spec_fn(TabView) -> TabView) -> TabManagerView {
    TabManagerView { tabs: map_tab(v.tabs, id, f), ..v }
}

/// Manager state after closing `id` when it exists; unchanged otherwise.
pub open spec fn closed_if_present(v: TabManagerView, id: Seq<char>, now: u64) -> TabManagerView {
    if has_tab(v.tabs, id) {
        state_after_close(v, id, now)
    } else {
        v
    }
}

/// The favicon a tab keeps after a favicon event: none for blank text.
pub open spec fn favicon_from_event(favicon_url: Seq<char>) -> Option<Seq<char>> {
    if trim(favicon_url).len() == 0 {
        None
    } else {
        Some(favicon_url)
    }
}

/// Manager state after applying a native browser event at time `now`.
pub open spec fn applied_event(v: TabManagerView, e: BrowserEvent, now: u64) -> TabManagerView {
    match e {
        BrowserEvent::FrameCreated { .. } => v,
        BrowserEvent::FrameDestroyed { tab_id } => closed_if_present(v, tab_id@, now),
        BrowserEvent::TitleChanged { tab_id, title } => with_tab(
            v,
            tab_id@,
            |t: TabView| TabView { title: title@, ..t },
        ),
        BrowserEvent::FaviconChanged { tab_id, favicon_url } => with_tab(
            v,
            tab_id@,
            |t: TabView| TabView { favicon_url: favicon_from_event(favicon_url@), ..t },
        ),
        BrowserEvent::UrlChanged { tab_id, url } => with_tab(
            v,
            tab_id@,
            |t: TabView| TabView { url: url@, ..t },
        ),
        BrowserEvent::NavigationStarted { tab_id, url, .. } => with_tab(
            v,
            tab_id@,
            |t: TabView| TabView { url: url@, is_loading: true, ..t },
        ),
        BrowserEvent::NavigationCompleted { tab_id, url, .. } => with_tab(
            v,
            tab_id@,
            |t: TabView| TabView { url: url@, is_loading: false, ..t },
        ),
        BrowserEvent::NavigationFailed { tab_id, url, .. } => with_tab(
            v,
            tab_id@,
            |t: TabView|
                TabView {
                    url: if trim(url@).len() == 0 {
                        t.url
                    } else {
                        url@
                    },
                    is_loading: false,
                    ..t
                },
        ),
        BrowserEvent::TabCrashed { tab_id } => with_tab(
            v,
            tab_id@,
            |t: TabView| TabView { is_loading: false, ..t },
        ),
        BrowserEvent::LoadStarted { tab_id } => with_tab(
            v,
            tab_id@,
            |t: TabView| TabView { is_loading: true, ..t },
        ),
        BrowserEvent::LoadFinished { tab_id } => with_tab(
            v,
            tab_id@,
            |t: TabView| TabView { is_loading: false, ..t },
        ),
        BrowserEvent::HistoryStateChanged { tab_id, can_go_back, can_go_forward } => with_tab(
            v,
            tab_id@,
            |t: TabView| TabView { can_go_back: can_go_back, can_go_forward: can_go_forward, ..t },
        ),
        BrowserEvent::RequestBlocked { tab_id, .. } => with_tab(
            v,
            tab_id@,
            |t: TabView| TabView { blocked_count: saturating_next(t.blocked_count), ..t },
        ),
        BrowserEvent::ConsoleMessage { .. } => v,
    }
}

/// URL reached by going back in the active tab: its current URL when the
/// tab reports that backward navigation is available.
pub open spec fn back_target(v: TabManagerView) -> Option<Seq<char>> {
    match v.active {
        Some(a) => match lookup(v.tabs, a) {
            Some(t) => if t.can_go_back {
                Some(t.url)
            } else {
                None
            },
            None => None,
        },
        None => None,
    }
}

/// URL reached by going forward in the active tab: its current URL when
/// the tab reports that forward navigation is available.
pub open spec fn forward_target(v: TabManagerView) -> Option<Seq<char>> {
    match v.active {
        Some(a) => match lookup(v.tabs, a) {
            Some(t) => if t.can_go_forward {
                Some(t.url)
            } else {
                None
            },
            None => None,
        },
        None => None,
    }
}

pub open spec fn opt_seq(s: Option<String>) -> Option<Seq<char>> {
    opt_text(s)
}

/// Applying `f` and then `g` to one tab is applying their composition,
/// when `f` keeps identifiers.
pub proof fn lemma_map_tab_compose(
    tabs: Seq<TabView>,
    id: Seq<char>,
    f: spec_fn(TabView) -> TabView,
    g: spec_fn(TabView) -> TabView,
)
    requires
        forall|t: TabView| #[trigger] f(t).id == t.id,
    ensures
        map_tab(map_tab(tabs, id, f), id, g) == map_tab(tabs, id, |t: TabView| g(f(t))),
{
    assert(map_tab(map_tab(tabs, id, f), id, g) =~= map_tab(tabs, id, |t: TabView| g(f(t))));
}

/// With unique identifiers, the record of an existing tab after `f` is
/// applied to it is `f` of its old record.
pub proof fn lemma_lookup_with_tab(v: TabManagerView, id: Seq<char>, f: spec_fn(TabView) -> TabView)
    requires
        ids_distinct(v.tabs),
        has_tab(v.tabs, id),
        forall|t: TabView| #[trigger] f(t).id == t.id,
    ensures
        lookup(with_tab(v, id, f).tabs, id) == Some(f(lookup(v.tabs, id)->0)),
{
    lemma_lookup_map_tab(v.tabs, id, f);
}

/// Loads that end, fail or crash always stop loading: after a
/// navigation-completed, navigation-failed, load-finished or tab-crashed
/// event for an existing tab, that tab is not loading, whatever else the
/// event carries; after a navigation-started or load-started event it is
/// loading. A failed navigation shows the URL it reports, unless that URL is
/// blank, in which case the tab keeps its URL.
pub proof fn law_load_events_set_loading(v: TabManagerView, e: BrowserEvent, now: u64)
    requires
        manager_wf(v),
        has_tab(v.tabs, event_tab_id(e)),
    ensures
        ({
            let after = lookup(applied_event(v, e, now).tabs, event_tab_id(e));
            let before = lookup(v.tabs, event_tab_id(e));
            &&& (e is NavigationCompleted || e is NavigationFailed || e is LoadFinished || e is TabCrashed)
                ==> (after matches Some(t) && !t.is_loading)
            &&& (e is NavigationStarted || e is LoadStarted) ==> (after matches Some(t) && t.is_loading)
            &&& (e matches BrowserEvent::NavigationFailed { url, .. } ==> (after matches Some(t) && t.url
                == if trim(url@).len() == 0 {
                before->0.url
            } else {
                url@
            }))
        }),
{
    match e {
        BrowserEvent::NavigationStarted { tab_id, url, .. } => {
            lemma_lookup_with_tab(v, tab_id@, |t: TabView| TabView { url: url@, is_loading: true, ..t });
        },
        BrowserEvent::NavigationCompleted { tab_id, url, .. } => {
            lemma_lookup_with_tab(v, tab_id@, |t: TabView| TabView { url: url@, is_loading: false, ..t });
        },
        BrowserEvent::NavigationFailed { tab_id, url, .. } => {
            lemma_lookup_with_tab(
                v,
                tab_id@,
                |t: TabView|
                    TabView {
                        url: if trim(url@).len() == 0 {
                            t.url
                        } else {
                            url@
                        },
                        is_loading: false,
                        ..t
                    },
            );
        },
        BrowserEvent::TabCrashed { tab_id } => {
            lemma_lookup_with_tab(v, tab_id@, |t: TabView| TabView { is_loading: false, ..t });
        },
        BrowserEvent::LoadStarted { tab_id } => {
            lemma_lookup_with_tab(v, tab_id@, |t: TabView| TabView { is_loading: true, ..t });
        },
        BrowserEvent::LoadFinished { tab_id } => {
            lemma_lookup_with_tab(v, tab_id@, |t: TabView| TabView { is_loading: false, ..t });
        },
        _ => {},
    }
}

/// Native events write what they report into their tab: a started or
/// completed navigation and a URL change set the tab's URL to the reported
/// one, a title change its title, a history change both history flags, and a
/// blocked request raises its blocked count by one (saturating). The tab
/// stays in the state.
pub proof fn law_events_record_reports(v: TabManagerView, e: BrowserEvent, now: u64)
    requires
        manager_wf(v),
        has_tab(v.tabs, event_tab_id(e)),
    ensures
        ({
            let after = lookup(applied_event(v, e, now).tabs, event_tab_id(e));
            let before = lookup(v.tabs, event_tab_id(e))->0;
            &&& !(e is FrameDestroyed) ==> after is Some
            &&& e matches BrowserEvent::NavigationStarted { url, .. } ==> after->0.url == url@
            &&& e matches BrowserEvent::NavigationCompleted { url, .. } ==> after->0.url == url@
            &&& e matches BrowserEvent::UrlChanged { url, .. } ==> after->0.url == url@
            &&& e matches BrowserEvent::TitleChanged { title, .. } ==> after->0.title == title@
            &&& e matches BrowserEvent::HistoryStateChanged { can_go_back, can_go_forward, .. } ==> after->0.can_go_back
                == can_go_back && after->0.can_go_forward == can_go_forward
            &&& e is RequestBlocked ==> after->0.blocked_count == if before.blocked_count == u32::MAX {
                u32::MAX
            } else {
                (before.blocked_count + 1) as u32
            }
        }),
{
    match e {
        BrowserEvent::NavigationStarted { tab_id, url, .. } => {
            lemma_lookup_with_tab(v, tab_id@, |t: TabView| TabView { url: url@, is_loading: true, ..t });
        },
        BrowserEvent::NavigationCompleted { tab_id, url, .. } => {
            lemma_lookup_with_tab(v, tab_id@, |t: TabView| TabView { url: url@, is_loading: false, ..t });
        },
        BrowserEvent::UrlChanged { tab_id, url } => {
            lemma_lookup_with_tab(v, tab_id@, |t: TabView| TabView { url: url@, ..t });
        },
        BrowserEvent::TitleChanged { tab_id, title } => {
            lemma_lookup_with_tab(v, tab_id@, |t: TabView| TabView { title: title@, ..t });
        },
        BrowserEvent::FaviconChanged { tab_id, favicon_url } => {
            lemma_lookup_with_tab(
                v,
                tab_id@,
                |t: TabView| TabView { favicon_url: favicon_from_event(favicon_url@), ..t },
            );
        },
        BrowserEvent::HistoryStateChanged { tab_id, can_go_back, can_go_forward } => {
            lemma_lookup_with_tab(
                v,
                tab_id@,
                |t: TabView| TabView { can_go_back: can_go_back, can_go_forward: can_go_forward, ..t },
            );
        },
        BrowserEvent::RequestBlocked { tab_id, .. } => {
            lemma_lookup_with_tab(
                v,
                tab_id@,
                |t: TabView| TabView { blocked_count: saturating_next(t.blocked_count), ..t },
            );
        },
        BrowserEvent::NavigationFailed { .. } | BrowserEvent::TabCrashed { .. } | BrowserEvent::LoadStarted { .. }
        | BrowserEvent::LoadFinished { .. } => {
            law_load_events_set_loading(v, e, now);
        },
        _ => {},
    }
}

/// History navigation follows the native host's flags for the tab alone.
/// Once a tab is activated, going back has a target exactly when the tab
/// reported `can_go_back`, whatever it reported for forward navigation, and
/// going forward has one exactly when it reported `can_go_forward`; the
/// target is the tab's current URL.
pub proof fn law_history_follows_native_flags(v: TabManagerView, id: Seq<char>, now: u64)
    requires
        manager_wf(v),
        has_tab(v.tabs, id),
    ensures
        ({
            let before = lookup(v.tabs, id)->0;
            let mid = state_after_activate(v, id, now);
            &&& back_target(mid) is Some <==> before.can_go_back
            &&& forward_target(mid) is Some <==> before.can_go_forward
            &&& back_target(mid) matches Some(u) ==> u == before.url
            &&& forward_target(mid) matches Some(u) ==> u == before.url
        }),
{
    law_activation_result(v, id, now);
}

/// Whether the text is empty once whitespace is trimmed.
pub fn is_blank(s: &String) -> (r: bool)
    ensures
        r == (trim(s@).len() == 0),
{
    let chars = chars_of(s.as_str());
    trim_chars(&chars).len() == 0
}

/// Coordinates tab state and navigation for the browser core: tab ownership
/// belongs to [TabManager], URL normalization to [NavigationController].
pub struct BrowserState {
    /// Sole owner of tab lifecycle and tab-state data.
    pub tab_manager: TabManager,
    /// Sole owner of URL normalization.
    pub navigation_controller: NavigationController,
    /// Current native window bounds.
    pub window_bounds: WindowBounds,
}

impl Clone for BrowserState {
    /// A copy with the same tabs, active tab and window bounds.
    fn clone(&self) -> (r: Self)
        ensures
            r.tab_manager@ == self.tab_manager@,
            self.wf() ==> r.wf(),
            r.window_bounds == self.window_bounds,
    {
        BrowserState {
            tab_manager: self.tab_manager.clone(),
            navigation_controller: self.navigation_controller,
            window_bounds: self.window_bounds,
        }
    }
}

impl BrowserState {
    /// The tab manager's invariant holds.
    pub open spec fn wf(&self) -> bool {
        self.tab_manager.wf()
    }

    /// A browser with no tabs and an 800x600 window at the origin.
    pub fn new() -> (s: Self)
        ensures
            s.wf(),
            s.tab_manager@.tabs == Seq::<TabView>::empty(),
            s.tab_manager@.active is None,
            s.window_bounds == (WindowBounds { width: 800, height: 600, x: 0, y: 0 }),
    {
        BrowserState {
            tab_manager: TabManager::new(),
            navigation_controller: NavigationController::new(),
            window_bounds: WindowBounds { width: 800, height: 600, x: 0, y: 0 },
        }
    }

    /// Creates a new tab through the tab manager (see
    /// [TabManager::create_tab]).
    pub fn create_tab(&mut self) -> (r: Result<Tab, NetraError>)
        requires
            old(self).wf(),
        ensures
            final(self).wf(),
            final(self).window_bounds == old(self).window_bounds,
            (r matches Err(e) && is_tab_limit_error(e)) <==> old(self).tab_manager@.tabs.len()
                >= DEFAULT_MAX_TABS,
            old(self).tab_manager@.tabs.len() < DEFAULT_MAX_TABS ==> (r is Ok || (r matches Err(e)
                && is_duplicate_id_error(e, old(self).tab_manager@.tabs))),
            old(self).tab_manager@.tabs.len() == 0 ==> r is Ok,
            r is Err ==> exists|now: u64|
                final(self).tab_manager@ == (TabManagerView {
                    tabs: #[trigger] idle_suspended(old(self).tab_manager@.tabs, now),
                    ..old(self).tab_manager@
                }),
            r matches Ok(t) ==> is_hyphenated_v4(t@.id) && final(self).tab_manager@ == state_after_create(
                idle_suspended(old(self).tab_manager@.tabs, t@.last_accessed),
                old(self).tab_manager@.active,
                t@.id,
                t@.last_accessed,
            ) && t@ == created_tab_view(t@.id, t@.last_accessed),
    {
        self.tab_manager.create_tab()
    }

    /// Closes a tab through the tab manager (see [TabManager::close_tab]);
    /// an unknown tab is ignored.
    pub fn close_tab(&mut self, tab_id: TabId)
        requires
            old(self).wf(),
        ensures
            final(self).wf(),
            final(self).window_bounds == old(self).window_bounds,
            exists|now: u64|
                final(self).tab_manager@ == #[trigger] closed_if_present(old(self).tab_manager@, tab_id@, now),
    {
        let now = self.tab_manager.now_millis();
        self.close_tab_at(tab_id, now);
    }

    /// Closes a tab at time `now`; an unknown tab is ignored.
    pub fn close_tab_at(&mut self, tab_id: TabId, now: u64)
        requires
            old(self).wf(),
        ensures
            final(self).wf(),
            final(self).window_bounds == old(self).window_bounds,
            final(self).tab_manager@ == closed_if_present(old(self).tab_manager@, tab_id@, now),
    {
        let _ = self.tab_manager.close_tab_at(tab_id, now);
    }

    /// Sets the active tab through the tab manager (see
    /// [TabManager::set_active_tab]).
    pub fn set_active_tab(&mut self, tab_id: TabId) -> (r: bool)
        requires
            old(self).wf(),
        ensures
            final(self).wf(),
            final(self).window_bounds == old(self).window_bounds,
            r == has_tab(old(self).tab_manager@.tabs, tab_id@),
            !r ==> exists|now: u64|
                final(self).tab_manager@ == (TabManagerView {
                    tabs: #[trigger] idle_suspended(old(self).tab_manager@.tabs, now),
                    ..old(self).tab_manager@
                }),
            r ==> exists|now: u64|
                final(self).tab_manager@ == #[trigger] state_after_activate(old(self).tab_manager@, tab_id@, now),
    {
        self.tab_manager.set_active_tab(tab_id)
    }

    /// Navigates the active tab: the input is normalized and becomes the
    /// tab's URL. Returns the normalized URL, or `None` when no tab is
    /// active.
    pub fn navigate(&mut self, input: String) -> (r: Option<String>)
        requires
            old(self).wf(),
        ensures
            final(self).wf(),
            final(self).window_bounds == old(self).window_bounds,
            old(self).tab_manager@.active is None ==> r is None && final(self).tab_manager@ == old(
                self,
            ).tab_manager@,
            old(self).tab_manager@.active matches Some(a) ==> (r matches Some(u) && u@ == normalized_url(
                input@,
            ) && final(self).tab_manager@ == with_tab(
                old(self).tab_manager@,
                a,
                |t: TabView| TabView { url: u@, ..t },
            )),
    {
        let active = match self.get_active_tab_id() {
            Some(a) => a,
            None => return None,
        };
        let url = self.navigation_controller.navigate(input);
        self.tab_manager.update_url(active.as_str(), url.clone());
        Some(url)
    }

    /// Checks backward navigation in the active tab: `None` when there is no
    /// active tab or its reported `can_go_back` flag is off, otherwise the
    /// tab's current URL. The native host owns the history, so the core does
    /// not know the URL the host will reach; the native host reports it later
    /// through a URL-change event.
    pub fn go_back(&self) -> (r: Option<String>)
        requires
            self.wf(),
        ensures
            opt_seq(r) == back_target(self.tab_manager@),
    {
        match self.get_active_tab_id() {
            Some(a) => match self.tab_manager.get_tab(a.as_str()) {
                Some(t) => if t.can_go_back {
                    Some(t.url)
                } else {
                    None
                },
                None => None,
            },
            None => None,
        }
    }

    /// Checks forward navigation in the active tab: `None` when there is no
    /// active tab or its reported `can_go_forward` flag is off, otherwise the
    /// tab's current URL. The native host owns the history, so the core does
    /// not know the URL the host will reach; the native host reports it later
    /// through a URL-change event.
    pub fn go_forward(&self) -> (r: Option<String>)
        requires
            self.wf(),
        ensures
            opt_seq(r) == forward_target(self.tab_manager@),
    {
        match self.get_active_tab_id() {
            Some(a) => match self.tab_manager.get_tab(a.as_str()) {
                Some(t) => if t.can_go_forward {
                    Some(t.url)
                } else {
                    None
                },
                None => None,
            },
            None => None,
        }
    }

    /// Copies of all tabs in creation order.
    pub fn get_tabs(&self) -> (r: Vec<Tab>)
        ensures
            views_of(r@) == self.tab_manager@.tabs,
    {
        self.tab_manager.get_all_tabs()
    }

    /// A copy of the requested tab, if it exists.
    pub fn get_tab(&self, tab_id: &str) -> (r: Option<Tab>)
        requires
            self.wf(),
        ensures
            opt_tab_view(r) == lookup(self.tab_manager@.tabs, tab_id@),
    {
        self.tab_manager.get_tab(tab_id)
    }

    /// Whether a tab exists.
    pub fn contains_tab(&self, tab_id: &str) -> (r: bool)
        ensures
            r == has_tab(self.tab_manager@.tabs, tab_id@),
    {
        self.tab_manager.contains_tab(tab_id)
    }

    /// The active tab identifier, if any.
    pub fn get_active_tab_id(&self) -> (r: Option<TabId>)
        ensures
            opt_text(r) == self.tab_manager@.active,
            self.wf() ==> (r is Some <==> self.tab_manager@.tabs.len() > 0),
    {
        self.tab_manager.get_active_tab_id()
    }

    /// Updates the tracked window bounds.
    pub fn set_window_bounds(&mut self, bounds: WindowBounds)
        ensures
            final(self).window_bounds == bounds,
            final(self).tab_manager == old(self).tab_manager,
    {
        self.window_bounds = bounds;
    }

    /// Updates the loading flag of a tab; an unknown tab is ignored.
    pub fn set_tab_loading_state(&mut self, tab_id: &str, is_loading: bool)
        requires
            old(self).wf(),
        ensures
            final(self).wf(),
            final(self).window_bounds == old(self).window_bounds,
            final(self).tab_manager@ == with_tab(
                old(self).tab_manager@,
                tab_id@,
                |t: TabView| TabView { is_loading: is_loading, ..t },
            ),
    {
        self.tab_manager.set_loading_state(tab_id, is_loading);
    }

    /// Snapshot of the active tab and all tabs in creation order.
    pub fn snapshot(&self) -> (r: BrowserStateSnapshot)
        ensures
            opt_text(r.active_tab_id) == self.tab_manager@.active,
            views_of(r.tabs@) == self.tab_manager@.tabs,
            self.wf() ==> (r.active_tab_id is None <==> r.tabs@.len() == 0),
    {
        proof {
            if self.wf() {
                lemma_manager_invariant(self.tab_manager);
            }
        }
        BrowserStateSnapshot { active_tab_id: self.get_active_tab_id(), tabs: self.get_tabs() }
    }

    /// Applies a native browser event to the tab state at time `now` (see
    /// [applied_event]); the window bounds are untouched.
    pub fn apply_browser_event_at(&mut self, event: &BrowserEvent, now: u64)
        requires
            old(self).wf(),
        ensures
            final(self).wf(),
            final(self).window_bounds == old(self).window_bounds,
            final(self).tab_manager@ == applied_event(old(self).tab_manager@, *event, now),
    {
        let ghost v = self.tab_manager@;
        match event {
            BrowserEvent::FrameCreated { .. } => {},
            BrowserEvent::FrameDestroyed { tab_id } => {
                self.close_tab_at(tab_id.clone(), now);
            },
            BrowserEvent::TitleChanged { tab_id, title } => {
                self.tab_manager.update_title(tab_id.as_str(), title.clone());
            },
            BrowserEvent::FaviconChanged { tab_id, favicon_url } => {
                let next = if is_blank(favicon_url) {
                    None
                } else {
                    Some(favicon_url.clone())
                };
                self.tab_manager.update_favicon_url(tab_id.as_str(), next);
                assert(self.tab_manager@.tabs =~= applied_event(v, *event, now).tabs);
            },
            BrowserEvent::UrlChanged { tab_id, url } => {
                self.tab_manager.update_url(tab_id.as_str(), url.clone());
            },
            BrowserEvent::NavigationStarted { tab_id, url, .. } => {
                self.tab_manager.update_url(tab_id.as_str(), url.clone());
                self.tab_manager.set_loading_state(tab_id.as_str(), true);
                proof {
                    lemma_map_tab_compose(
                        v.tabs,
                        tab_id@,
                        |t: TabView| TabView { url: url@, ..t },
                        |t: TabView| TabView { is_loading: true, ..t },
                    );
                }
                assert(self.tab_manager@.tabs =~= applied_event(v, *event, now).tabs);
            },
            BrowserEvent::NavigationCompleted { tab_id, url, .. } => {
                self.tab_manager.update_url(tab_id.as_str(), url.clone());
                self.tab_manager.set_loading_state(tab_id.as_str(), false);
                proof {
                    lemma_map_tab_compose(
                        v.tabs,
                        tab_id@,
                        |t: TabView| TabView { url: url@, ..t },
                        |t: TabView| TabView { is_loading: false, ..t },
                    );
                }
                assert(self.tab_manager@.tabs =~= applied_event(v, *event, now).tabs);
            },
            BrowserEvent::NavigationFailed { tab_id, url, .. } => {
                let blank = is_blank(url);
                if !blank {
                    self.tab_manager.update_url(tab_id.as_str(), url.clone());
                }
                self.tab_manager.set_loading_state(tab_id.as_str(), false);
                proof {
                    if !blank {
                        lemma_map_tab_compose(
                            v.tabs,
                            tab_id@,
                            |t: TabView| TabView { url: url@, ..t },
                            |t: TabView| TabView { is_loading: false, ..t },
                        );
                    }
                }
                assert(self.tab_manager@.tabs =~= applied_event(v, *event, now).tabs);
            },
            BrowserEvent::TabCrashed { tab_id } => {
                self.tab_manager.set_loading_state(tab_id.as_str(), false);
            },
            BrowserEvent::LoadStarted { tab_id } => {
                self.tab_manager.set_loading_state(tab_id.as_str(), true);
            },
            BrowserEvent::LoadFinished { tab_id } => {
                self.tab_manager.set_loading_state(tab_id.as_str(), false);
            },
            BrowserEvent::HistoryStateChanged { tab_id, can_go_back, can_go_forward } => {
                proof {
                    lemma_manager_invariant(self.tab_manager);
                }
                match self.get_tab(tab_id.as_str()) {
                    Some(current) => {
                        let ghost cur = current@;
                        self.tab_manager.update_navigation_state(
                            tab_id.as_str(),
                            current.url,
                            *can_go_back,
                            *can_go_forward,
                        );
                        proof {
                            let i = tab_index(v.tabs, tab_id@);
                            let f = |t: TabView| TabView { url: cur.url, can_go_back: *can_go_back, can_go_forward: *can_go_forward, ..t };
                            let g = |t: TabView| TabView { can_go_back: *can_go_back, can_go_forward: *can_go_forward, ..t };
                            lemma_map_tab_at(v.tabs, tab_id@, f, i);
                            lemma_map_tab_at(v.tabs, tab_id@, g, i);
                            assert(f(v.tabs[i]) == g(v.tabs[i]));
                        }
                    },
                    None => {
                        proof {
                            lemma_map_tab_absent(
                                v.tabs,
                                tab_id@,
                                |t: TabView| TabView { can_go_back: *can_go_back, can_go_forward: *can_go_forward, ..t },
                            );
                        }
                    },
                }
                assert(self.tab_manager@.tabs =~= applied_event(v, *event, now).tabs);
            },
            BrowserEvent::RequestBlocked { tab_id, .. } => {
                self.tab_manager.increment_blocked_count(tab_id.as_str());
            },
            BrowserEvent::ConsoleMessage { .. } => {},
        }
    }

    /// Applies a native browser event to the tab state, reading the clock
    /// for a tab promoted by a frame destruction.
    pub fn apply_browser_event(&mut self, event: &BrowserEvent)
        requires
            old(self).wf(),
        ensures
            final(self).wf(),
            final(self).window_bounds == old(self).window_bounds,
            exists|now: u64| final(self).tab_manager@ == #[trigger] applied_event(old(self).tab_manager@, *event, now),
    {
        let now = self.tab_manager.now_millis();
        self.apply_browser_event_at(event, now);
    }
}


impl Default for BrowserState {
    fn default() -> (s: Self)
        ensures
            s.wf(),
            s.tab_manager@.tabs == Seq::<TabView>::empty(),
            s.tab_manager@.active is None,
            s.window_bounds == (WindowBounds { width: 800, height: 600, x: 0, y: 0 }),
    {
        BrowserState::new()
    }
}

} // verus!
