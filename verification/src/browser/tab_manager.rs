use vstd::prelude::*;

use crate::clock::MonotonicClock;
use crate::domain::tab::{opt_text, Tab, TabId, TabView};
use crate::error::NetraError;
use crate::ids::{is_hyphenated_v4, new_tab_id};

verus! {

/// Hard limit on the number of tabs a manager holds.
pub const DEFAULT_MAX_TABS: usize = 20;
/// Limit on background tabs (neither active nor suspended).
pub const DEFAULT_MAX_BACKGROUND_TABS: usize = 10;
/// Idle time, in milliseconds, after which a background tab is suspended.
pub const IDLE_SUSPEND_AFTER_MS: u64 = 120_000;

// ---------------------------------------------------------------------------
// Model
// ---------------------------------------------------------------------------

/// Abstract state of a [TabManager]: the tabs in creation order and the
/// identifier of the active tab.
pub struct TabManagerView {
    pub tabs: Seq<TabView>,
    pub active: Option<Seq<char>>,
}

pub open spec fn views_of(tabs: Seq<Tab>) -> Seq<TabView> {
    tabs.map_values(|t: Tab| t@)
}

/// A background tab is neither active nor suspended.
pub open spec fn is_background(t: TabView) -> bool {
    !t.is_active && !t.is_suspended
}

/// The tab was last accessed more than the idle limit before `now`.
pub open spec fn is_idle(t: TabView, now: u64) -> bool {
    now > t.last_accessed && now - t.last_accessed > IDLE_SUSPEND_AFTER_MS
}

pub open spec fn suspended_view(t: TabView) -> TabView {
    TabView { is_suspended: true, is_loading: false, ..t }
}

pub open spec fn has_tab(tabs: Seq<TabView>, id: Seq<char>) -> bool {
    exists|i: int| 0 <= i < tabs.len() && tabs[i].id == id
}

/// Position of the tab with identifier `id` (meaningful when it exists).
pub open spec fn tab_index(tabs: Seq<TabView>, id: Seq<char>) -> int {
    choose|i: int| 0 <= i < tabs.len() && tabs[i].id == id
}

pub open spec fn ids_distinct(tabs: Seq<TabView>) -> bool {
    forall|i: int, j: int|
        0 <= i < tabs.len() && 0 <= j < tabs.len() && i != j ==> tabs[i].id != tabs[j].id
}

/// Applies `f` to the tab with identifier `id`, leaving every other tab as it is.
pub open spec fn map_tab(
    tabs: Seq<TabView>,
    id: Seq<char>,
    f: spec_fn(TabView) -> TabView,
) -> Seq<TabView> {
    Seq::new(tabs.len(), |i: int| if tabs[i].id == id { f(tabs[i]) } else { tabs[i] })
}

/// Suspends every background tab that has been idle past the limit at `now`.
pub open spec fn idle_suspended(tabs: Seq<TabView>, now: u64) -> Seq<TabView> {
    Seq::new(
        tabs.len(),
        |i: int|
            if is_background(tabs[i]) && is_idle(tabs[i], now) {
                suspended_view(tabs[i])
            } else {
                tabs[i]
            },
    )
}

/// Number of background tabs.
pub open spec fn background_count(tabs: Seq<TabView>) -> nat
    decreases tabs.len(),
{
    if tabs.len() == 0 {
        0
    } else {
        background_count(tabs.drop_last()) + if is_background(tabs.last()) {
            1nat
        } else {
            0nat
        }
    }
}

/// Position, among the first `n` tabs, of the least recently accessed
/// background tab (the earliest one on ties); -1 when there is none.
pub open spec fn lru_among(tabs: Seq<TabView>, n: int) -> int
    decreases n,
{
    if n <= 0 {
        -1
    } else {
        let best = lru_among(tabs, n - 1);
        if is_background(tabs[n - 1]) && (best < 0 || tabs[n - 1].last_accessed
            < tabs[best].last_accessed) {
            n - 1
        } else {
            best
        }
    }
}

/// Suspends the least recently accessed background tab, `k` times over.
pub open spec fn suspend_lru(tabs: Seq<TabView>, k: nat) -> Seq<TabView>
    decreases k,
{
    if k == 0 {
        tabs
    } else {
        let i = lru_among(tabs, tabs.len() as int);
        if i < 0 {
            tabs
        } else {
            suspend_lru(tabs.update(i, suspended_view(tabs[i])), (k - 1) as nat)
        }
    }
}

/// Suspends least recently accessed background tabs until at most `max`
/// remain.
pub open spec fn enforce_background_limit(tabs: Seq<TabView>, max: nat) -> Seq<TabView> {
    let count = background_count(tabs);
    if count <= max {
        tabs
    } else {
        suspend_lru(tabs, (count - max) as nat)
    }
}

/// Idle suspension followed by the background-tab limit.
pub open spec fn suspension_policies(tabs: Seq<TabView>, now: u64) -> Seq<TabView> {
    enforce_background_limit(idle_suspended(tabs, now), DEFAULT_MAX_BACKGROUND_TABS as nat)
}

/// Clears the active flag of the tab named by `active`.
pub open spec fn deactivated(tabs: Seq<TabView>, active: Option<Seq<char>>) -> Seq<TabView> {
    match active {
        Some(a) => map_tab(tabs, a, |t: TabView| TabView { is_active: false, ..t }),
        None => tabs,
    }
}

/// The record of a freshly created tab.
pub open spec fn created_tab_view(id: Seq<char>, now: u64) -> TabView {
    TabView {
        id,
        title: Seq::empty(),
        favicon_url: None,
        url: "about"@,
        is_active: true,
        is_loading: false,
        can_go_back: false,
        can_go_forward: false,
        is_suspended: false,
        blocked_count: 0,
        sequence_number: 0,
        last_accessed: now,
    }
}

/// `u32` successor that wraps to 0.
pub open spec fn wrapping_next(n: u32) -> u32 {
    if n == u32::MAX {
        0
    } else {
        (n + 1) as u32
    }
}

/// Invariant of a tab manager's state: identifiers are unique, at most the
/// tab limit is held, exactly the tab named active carries the active flag,
/// the active tab is never suspended, the active identifier names a tab, and
/// some tab is active whenever any tab exists.
pub open spec fn manager_wf(v: TabManagerView) -> bool {
    &&& ids_distinct(v.tabs)
    &&& v.tabs.len() <= DEFAULT_MAX_TABS
    &&& forall|i: int|
        0 <= i < v.tabs.len() ==> (#[trigger] v.tabs[i].is_active <==> v.active == Some(
            v.tabs[i].id,
        ))
    &&& forall|i: int| 0 <= i < v.tabs.len() && #[trigger] v.tabs[i].is_active ==> !v.tabs[i].is_suspended
    &&& (v.active matches Some(a) ==> has_tab(v.tabs, a))
    &&& (v.tabs.len() > 0 ==> v.active is Some)
}

// ---------------------------------------------------------------------------
// Lemmas on the model
// ---------------------------------------------------------------------------

/// With unique identifiers, changing the tab at the position of `id` is the
/// same as mapping over `id`.
pub proof fn lemma_map_tab_at(tabs: Seq<TabView>, id: Seq<char>, f: spec_fn(TabView) -> TabView, i: int)
    requires
        ids_distinct(tabs),
        0 <= i < tabs.len(),
        tabs[i].id == id,
    ensures
        map_tab(tabs, id, f) == tabs.update(i, f(tabs[i])),
        tab_index(tabs, id) == i,
{
    assert(map_tab(tabs, id, f) =~= tabs.update(i, f(tabs[i])));
}

/// Mapping over an identifier that no tab carries changes nothing.
pub proof fn lemma_map_tab_absent(tabs: Seq<TabView>, id: Seq<char>, f: spec_fn(TabView) -> TabView)
    requires
        !has_tab(tabs, id),
    ensures
        map_tab(tabs, id, f) == tabs,
{
    assert(map_tab(tabs, id, f) =~= tabs);
}

/// A change that keeps every identifier, active flag and the
/// active-not-suspended rule keeps the invariant.
pub proof fn lemma_wf_pointwise(old_tabs: Seq<TabView>, new_tabs: Seq<TabView>, active: Option<Seq<char>>)
    requires
        manager_wf(TabManagerView { tabs: old_tabs, active }),
        new_tabs.len() == old_tabs.len(),
        forall|i: int|
            0 <= i < new_tabs.len() ==> #[trigger] new_tabs[i].id == old_tabs[i].id
                && new_tabs[i].is_active == old_tabs[i].is_active && (new_tabs[i].is_active
                ==> !new_tabs[i].is_suspended),
    ensures
        manager_wf(TabManagerView { tabs: new_tabs, active }),
{
    let v = TabManagerView { tabs: new_tabs, active };
    assert forall|i: int, j: int|
        0 <= i < new_tabs.len() && 0 <= j < new_tabs.len() && i != j implies new_tabs[i].id
        != new_tabs[j].id by {
        assert(new_tabs[i].id == old_tabs[i].id);
        assert(new_tabs[j].id == old_tabs[j].id);
    }
    assert forall|i: int| 0 <= i < new_tabs.len() implies (#[trigger] new_tabs[i].is_active <==> active
        == Some(new_tabs[i].id)) by {
        assert(new_tabs[i].id == old_tabs[i].id);
    }
    if let Some(a) = active {
        let k = choose|k: int| 0 <= k < old_tabs.len() && old_tabs[k].id == a;
        assert(new_tabs[k].id == old_tabs[k].id);
    }
}


/// Updating one tab changes the background count by the change in that
/// tab's background status.
pub proof fn lemma_count_update(tabs: Seq<TabView>, i: int, t: TabView)
    requires
        0 <= i < tabs.len(),
    ensures
        background_count(tabs.update(i, t)) + (if is_background(tabs[i]) { 1int } else { 0int })
            == background_count(tabs) + (if is_background(t) { 1int } else { 0int }),
    decreases tabs.len(),
{
    let u = tabs.update(i, t);
    if i == tabs.len() - 1 {
        assert(u.drop_last() =~= tabs.drop_last());
    } else {
        assert(u.drop_last() =~= tabs.drop_last().update(i, t));
        lemma_count_update(tabs.drop_last(), i, t);
    }
}

/// The background count never exceeds the number of tabs, and a positive
/// count means some tab is in the background.
pub proof fn lemma_count_bounds(tabs: Seq<TabView>)
    ensures
        background_count(tabs) <= tabs.len(),
        background_count(tabs) > 0 ==> exists|i: int| 0 <= i < tabs.len() && is_background(#[trigger] tabs[i]),
        (forall|i: int| 0 <= i < tabs.len() ==> !is_background(#[trigger] tabs[i])) ==> background_count(tabs) == 0,
    decreases tabs.len(),
{
    if tabs.len() > 0 {
        lemma_count_bounds(tabs.drop_last());
        if background_count(tabs.drop_last()) > 0 {
            let i = choose|i: int| 0 <= i < tabs.drop_last().len() && is_background(#[trigger] tabs.drop_last()[i]);
            assert(tabs[i] == tabs.drop_last()[i]);
        }
        if forall|i: int| 0 <= i < tabs.len() ==> !is_background(#[trigger] tabs[i]) {
            assert forall|i: int| 0 <= i < tabs.drop_last().len() implies !is_background(#[trigger] tabs.drop_last()[i]) by {
                assert(tabs[i] == tabs.drop_last()[i]);
            }
        }
    }
}

/// `lru_among` names a background tab among the first `n` (when it names
/// one), the least recently accessed of them, the earliest on ties; it
/// names none only when there is no background tab among them.
pub proof fn lemma_lru_among(tabs: Seq<TabView>, n: int)
    requires
        0 <= n <= tabs.len(),
    ensures
        -1 <= lru_among(tabs, n) < n,
        lru_among(tabs, n) >= 0 ==> is_background(tabs[lru_among(tabs, n)]),
        lru_among(tabs, n) < 0 ==> forall|j: int| 0 <= j < n ==> !is_background(#[trigger] tabs[j]),
        lru_among(tabs, n) >= 0 ==> forall|j: int|
            0 <= j < n && is_background(#[trigger] tabs[j]) ==> tabs[lru_among(tabs, n)].last_accessed
                <= tabs[j].last_accessed,
        lru_among(tabs, n) >= 0 ==> forall|j: int|
            0 <= j < lru_among(tabs, n) && is_background(#[trigger] tabs[j]) ==> tabs[lru_among(tabs, n)].last_accessed
                < tabs[j].last_accessed,
    decreases n,
{
    if n > 0 {
        lemma_lru_among(tabs, n - 1);
    }
}

/// Suspending least recently used tabs keeps identifiers and active flags,
/// only ever suspends background tabs, and (when there are at least `k`
/// background tabs) lowers the background count by exactly `k`.
pub proof fn lemma_suspend_lru(tabs: Seq<TabView>, k: nat)
    ensures
        suspend_lru(tabs, k).len() == tabs.len(),
        forall|i: int|
            #![trigger suspend_lru(tabs, k)[i]]
            0 <= i < tabs.len() ==> suspend_lru(tabs, k)[i].id == tabs[i].id
                && suspend_lru(tabs, k)[i].is_active == tabs[i].is_active
                && (suspend_lru(tabs, k)[i] == tabs[i] || (is_background(tabs[i]) && suspend_lru(tabs, k)[i]
                == suspended_view(tabs[i]))),
        k <= background_count(tabs) ==> background_count(suspend_lru(tabs, k)) == background_count(tabs) - k,
    decreases k,
{
    if k > 0 {
        let i = lru_among(tabs, tabs.len() as int);
        lemma_lru_among(tabs, tabs.len() as int);
        if i < 0 {
            lemma_count_bounds(tabs);
        } else {
            let u = tabs.update(i, suspended_view(tabs[i]));
            lemma_suspend_lru(u, (k - 1) as nat);
            lemma_count_update(tabs, i, suspended_view(tabs[i]));
            assert(suspend_lru(tabs, k) == suspend_lru(u, (k - 1) as nat));
            assert forall|j: int| 0 <= j < tabs.len() implies #[trigger] suspend_lru(tabs, k)[j].id == tabs[j].id
                && suspend_lru(tabs, k)[j].is_active == tabs[j].is_active
                && (suspend_lru(tabs, k)[j] == tabs[j] || (is_background(tabs[j]) && suspend_lru(tabs, k)[j]
                == suspended_view(tabs[j]))) by {
                let r = suspend_lru(u, (k - 1) as nat)[j];
                assert(r.id == u[j].id && r.is_active == u[j].is_active && (r == u[j] || (is_background(u[j]) && r == suspended_view(u[j]))));
                if j != i {
                    assert(u[j] == tabs[j]);
                } else {
                    assert(suspended_view(suspended_view(tabs[j])) == suspended_view(tabs[j]));
                }
            }
        }
    }
}

/// After the background-tab limit is enforced, at most `max` background
/// tabs remain, and every other change is the suspension of a background tab.
pub proof fn lemma_enforce_limit(tabs: Seq<TabView>, max: nat)
    ensures
        background_count(enforce_background_limit(tabs, max)) <= max,
        background_count(tabs) > max ==> background_count(enforce_background_limit(tabs, max)) == max,
        enforce_background_limit(tabs, max).len() == tabs.len(),
        forall|i: int|
            0 <= i < tabs.len() ==> #[trigger] enforce_background_limit(tabs, max)[i].id == tabs[i].id
                && enforce_background_limit(tabs, max)[i].is_active == tabs[i].is_active
                && (enforce_background_limit(tabs, max)[i] == tabs[i] || (is_background(tabs[i])
                && enforce_background_limit(tabs, max)[i] == suspended_view(tabs[i]))),
{
    let count = background_count(tabs);
    if count > max {
        lemma_suspend_lru(tabs, (count - max) as nat);
    }
}

// ---------------------------------------------------------------------------
// Executable helpers over the tab vector
// ---------------------------------------------------------------------------

/// Position of the tab with identifier `id`, if any.
fn find_index(tabs: &Vec<Tab>, id: &String) -> (r: Option<usize>)
    ensures
        match r {
            Some(i) => i < tabs.len() && tabs@[i as int]@.id == id@,
            None => !has_tab(views_of(tabs@), id@),
        },
{
    let mut i: usize = 0;
    while i < tabs.len()
        invariant
            i <= tabs.len(),
            forall|j: int| 0 <= j < i ==> tabs@[j]@.id != id@,
        decreases tabs.len() - i,
    {
        if tabs[i].id == *id {
            return Some(i);
        }
        i += 1;
    }
    assert(!has_tab(views_of(tabs@), id@)) by {
        assert forall|j: int| 0 <= j < tabs@.len() implies views_of(tabs@)[j].id != id@ by {
            assert(views_of(tabs@)[j] == tabs@[j]@);
        }
    }
    None
}

/// Suspends every idle background tab.
fn suspend_idle_tabs(tabs: &mut Vec<Tab>, now: u64)
    ensures
        views_of(final(tabs)@) == idle_suspended(views_of(old(tabs)@), now),
{
    let ghost old_views = views_of(tabs@);
    let n = tabs.len();
    for i in 0..n
        invariant
            n == tabs.len(),
            old_views.len() == n,
            forall|j: int|
                0 <= j < n ==> #[trigger] views_of(tabs@)[j] == if j < i {
                    idle_suspended(old_views, now)[j]
                } else {
                    old_views[j]
                },
    {
        let ghost prev = tabs@;
        assert(views_of(prev)[i as int] == prev[i as int]@);
        let t = &tabs[i];
        if !t.is_active && !t.is_suspended && now > t.last_accessed && now - t.last_accessed
            > IDLE_SUSPEND_AFTER_MS {
            let mut s = t.clone();
            s.is_suspended = true;
            s.is_loading = false;
            tabs.set(i, s);
            assert(tabs@[i as int]@ == suspended_view(old_views[i as int]));
        }
        assert forall|j: int|
            0 <= j < n implies #[trigger] views_of(tabs@)[j] == if j < i + 1 {
                idle_suspended(old_views, now)[j]
            } else {
                old_views[j]
            } by {
            assert(views_of(tabs@)[j] == tabs@[j]@);
            assert(views_of(prev)[j] == prev[j]@);
            if j != i {
                assert(tabs@[j] == prev[j]);
            }
        }
    }
    assert(views_of(tabs@) =~= idle_suspended(old_views, now));
}


/// Number of background tabs.
fn count_background(tabs: &Vec<Tab>) -> (c: usize)
    ensures
        c == background_count(views_of(tabs@)),
{
    let ghost views = views_of(tabs@);
    let mut c: usize = 0;
    let n = tabs.len();
    for i in 0..n
        invariant
            n == tabs.len(),
            views == views_of(tabs@),
            c == background_count(views.take(i as int)),
            c <= i,
    {
        assert(views.take(i + 1).drop_last() =~= views.take(i as int));
        assert(views[i as int] == tabs@[i as int]@);
        if !tabs[i].is_active && !tabs[i].is_suspended {
            c += 1;
        }
    }
    assert(views.take(n as int) =~= views);
    c
}

pub open spec fn opt_index(r: Option<usize>) -> int {
    match r {
        Some(i) => i as int,
        None => -1,
    }
}

/// Position of the least recently accessed background tab, the earliest on
/// ties.
fn lru_index(tabs: &Vec<Tab>) -> (r: Option<usize>)
    ensures
        opt_index(r) == lru_among(views_of(tabs@), tabs@.len() as int),
{
    let ghost views = views_of(tabs@);
    let mut best: Option<usize> = None;
    let n = tabs.len();
    for i in 0..n
        invariant
            n == tabs.len(),
            views == views_of(tabs@),
            opt_index(best) == lru_among(views, i as int),
            best matches Some(b) ==> b < i,
    {
        proof {
            lemma_lru_among(views, i as int);
        }
        assert(views[i as int] == tabs@[i as int]@);
        let t = &tabs[i];
        if !t.is_active && !t.is_suspended {
            match best {
                None => {
                    best = Some(i);
                },
                Some(b) => {
                    assert(views[b as int] == tabs@[b as int]@);
                    if t.last_accessed < tabs[b].last_accessed {
                        best = Some(i);
                    }
                },
            }
        }
    }
    best
}

/// Suspends least recently accessed background tabs until at most `max`
/// remain in the background.
fn enforce_limit(tabs: &mut Vec<Tab>, max: usize)
    ensures
        views_of(final(tabs)@) == enforce_background_limit(views_of(old(tabs)@), max as nat),
{
    let ghost start = views_of(tabs@);
    let count = count_background(tabs);
    if count <= max {
        return;
    }
    let k = count - max;
    let ghost target = suspend_lru(start, k as nat);
    for step in 0..k
        invariant
            k == count - max,
            suspend_lru(views_of(tabs@), (k - step) as nat) == target,
    {
        let ghost prev = views_of(tabs@);
        match lru_index(tabs) {
            Some(i) => {
                proof {
                    lemma_lru_among(prev, prev.len() as int);
                }
                assert(prev[i as int] == tabs@[i as int]@);
                let mut s = tabs[i].clone();
                s.is_suspended = true;
                s.is_loading = false;
                tabs.set(i, s);
                assert(views_of(tabs@) =~= prev.update(i as int, suspended_view(prev[i as int])));
            },
            None => {
                assert(suspend_lru(prev, (k - step - 1) as nat) == prev) by {
                    if k - step - 1 > 0 {
                        assert(lru_among(prev, prev.len() as int) < 0);
                    }
                }
            },
        }
    }
}


/// Replaces the tab at position `i`.
fn set_tab(tabs: &mut Vec<Tab>, i: usize, t: Tab)
    requires
        i < old(tabs).len(),
    ensures
        views_of(final(tabs)@) == views_of(old(tabs)@).update(i as int, t@),
{
    let ghost tv = t@;
    tabs.set(i, t);
    assert(views_of(tabs@) =~= views_of(old(tabs)@).update(i as int, tv));
}

/// Idle suspension and the background limit keep the manager invariant.
pub proof fn lemma_policies_wf(tabs: Seq<TabView>, active: Option<Seq<char>>, now: u64)
    requires
        manager_wf(TabManagerView { tabs, active }),
    ensures
        manager_wf(TabManagerView { tabs: idle_suspended(tabs, now), active }),
        manager_wf(TabManagerView { tabs: suspension_policies(tabs, now), active }),
        background_count(suspension_policies(tabs, now)) <= DEFAULT_MAX_BACKGROUND_TABS,
{
    let idle = idle_suspended(tabs, now);
    lemma_wf_pointwise(tabs, idle, active);
    lemma_enforce_limit(idle, DEFAULT_MAX_BACKGROUND_TABS as nat);
    let lim = suspension_policies(tabs, now);
    assert forall|i: int| 0 <= i < lim.len() implies #[trigger] lim[i].id == idle[i].id
        && lim[i].is_active == idle[i].is_active && (lim[i].is_active ==> !lim[i].is_suspended) by {
        assert(lim[i] == enforce_background_limit(idle, DEFAULT_MAX_BACKGROUND_TABS as nat)[i]);
    }
    lemma_wf_pointwise(idle, lim, active);
}

/// Owns tab lifecycle, active-tab transitions, suspension, and the LRU
/// background policy.
///
/// Rules kept:
/// - only one tab is active at a time
/// - background (non-active, non-suspended) tabs are limited by LRU policy
/// - idle background tabs are suspended after two minutes
/// - at most [DEFAULT_MAX_TABS] tabs exist at once
pub struct TabManager {
    /// Tabs in creation order.
    tabs: Vec<Tab>,
    active_tab_id: Option<TabId>,
    max_tabs: usize,
    max_background_tabs: usize,
    /// The clock that stamps and ages the tabs; it does not jump with the
    /// system clock.
    clock: MonotonicClock,
}

impl View for TabManager {
    type V = TabManagerView;

    closed spec fn view(&self) -> TabManagerView {
        TabManagerView { tabs: views_of(self.tabs@), active: opt_text(self.active_tab_id) }
    }
}

/// The tab with identifier `id`, if any.
pub open spec fn lookup(tabs: Seq<TabView>, id: Seq<char>) -> Option<TabView> {
    if has_tab(tabs, id) {
        Some(tabs[tab_index(tabs, id)])
    } else {
        None
    }
}

pub open spec fn opt_tab_view(t: Option<Tab>) -> Option<TabView> {
    match t {
        Some(v) => Some(v@),
        None => None,
    }
}

/// The text of the error returned when the tab limit is reached.
pub open spec fn tab_limit_message() -> Seq<char> {
    "maximum tab limit of "@ + crate::text::decimal(DEFAULT_MAX_TABS as nat) + " reached"@
}

/// The text of the error returned when a new identifier is already taken.
pub open spec fn duplicate_id_message(id: Seq<char>) -> Seq<char> {
    "tab id `"@ + id + "` is already in use"@
}

/// Whether `e` is the tab-limit error.
pub open spec fn is_tab_limit_error(e: NetraError) -> bool {
    e matches NetraError::OperationFailed(m) && m@ == tab_limit_message()
}

/// Whether `e` is the error for a new identifier that one of `tabs` already
/// carries.
pub open spec fn is_duplicate_id_error(e: NetraError, tabs: Seq<TabView>) -> bool {
    e matches NetraError::OperationFailed(m) && exists|id: Seq<char>|
        has_tab(tabs, id) && m@ == #[trigger] duplicate_id_message(id)
}

/// The duplicate-identifier error never reads as the tab-limit error.
pub proof fn lemma_creation_errors_differ(id: Seq<char>)
    ensures
        duplicate_id_message(id) != tab_limit_message(),
{
    reveal_strlit("tab id `");
    reveal_strlit("maximum tab limit of ");
    assert(duplicate_id_message(id)[0] == 't');
    assert(tab_limit_message()[0] == 'm');
}

/// Manager state after `create_tab_with(id, now)` succeeds on `v` (idle
/// suspension already applied to `tabs`).
pub open spec fn state_after_create(tabs: Seq<TabView>, active: Option<Seq<char>>, id: Seq<char>, now: u64) -> TabManagerView {
    TabManagerView {
        tabs: suspension_policies(deactivated(tabs, active).push(created_tab_view(id, now)), now),
        active: Some(id),
    }
}

/// A tab brought to the front at `now`.
pub open spec fn activated_view(t: TabView, now: u64) -> TabView {
    TabView { is_active: true, is_suspended: false, last_accessed: now, ..t }
}

/// Manager state after closing the existing tab `id` at `now`.
pub open spec fn state_after_close(v: TabManagerView, id: Seq<char>, now: u64) -> TabManagerView {
    let rest = v.tabs.remove(tab_index(v.tabs, id));
    if v.active != Some(id) {
        TabManagerView { tabs: rest, active: v.active }
    } else if rest.len() > 0 {
        TabManagerView { tabs: rest.update(0, activated_view(rest[0], now)), active: Some(rest[0].id) }
    } else {
        TabManagerView { tabs: rest, active: None }
    }
}

/// The tabs once idle tabs are suspended, the previously active tab is
/// deactivated and `id` is activated at `now`, before the suspension
/// policies run again.
pub open spec fn activated_tabs(v: TabManagerView, id: Seq<char>, now: u64) -> Seq<TabView> {
    map_tab(deactivated(idle_suspended(v.tabs, now), v.active), id, |t: TabView| activated_view(t, now))
}

/// Manager state after activating the existing tab `id` at `now`.
pub open spec fn state_after_activate(v: TabManagerView, id: Seq<char>, now: u64) -> TabManagerView {
    TabManagerView { tabs: suspension_policies(activated_tabs(v, id, now), now), active: Some(id) }
}

pub open spec fn resumed_view(t: TabView, now: u64) -> TabView {
    if t.is_suspended {
        TabView { is_suspended: false, last_accessed: now, ..t }
    } else {
        t
    }
}

/// Manager state after resuming tab `id` at `now`.
pub open spec fn state_after_resume(v: TabManagerView, id: Seq<char>, now: u64) -> TabManagerView {
    TabManagerView { tabs: map_tab(v.tabs, id, |t: TabView| resumed_view(t, now)), ..v }
}

pub open spec fn suspend_if_background(t: TabView) -> TabView {
    if is_background(t) {
        suspended_view(t)
    } else {
        t
    }
}

impl TabManager {
    /// Hard limit on the number of tabs.
    pub const DEFAULT_MAX_TABS: usize = 20;
    /// Limit on background tabs.
    pub const DEFAULT_MAX_BACKGROUND_TABS: usize = 10;

    /// The manager invariant (see [manager_wf]), with the default limits.
    pub closed spec fn wf(&self) -> bool {
        &&& manager_wf(self@)
        &&& self.max_tabs == DEFAULT_MAX_TABS
        &&& self.max_background_tabs == DEFAULT_MAX_BACKGROUND_TABS
    }

    /// Creates an empty manager with the default limits.
    pub fn new() -> (m: Self)
        ensures
            m.wf(),
            m@.tabs == Seq::<TabView>::empty(),
            m@.active is None,
    {
        let m = TabManager {
            tabs: Vec::new(),
            active_tab_id: None,
            max_tabs: DEFAULT_MAX_TABS,
            max_background_tabs: DEFAULT_MAX_BACKGROUND_TABS,
            clock: MonotonicClock::start(),
        };
        assert(views_of(m.tabs@) =~= Seq::<TabView>::empty());
        m
    }

    /// The manager's current time in milliseconds, read from its monotonic
    /// clock; the operations that take no time argument use it.
    pub fn now_millis(&self) -> u64 {
        self.clock.now_millis()
    }

    /// Returns whether the target tab exists in the manager.
    pub fn contains_tab(&self, tab_id: &str) -> (r: bool)
        ensures
            r == has_tab(self@.tabs, tab_id@),
    {
        let key = tab_id.to_string();
        match find_index(&self.tabs, &key) {
            Some(i) => {
                assert(views_of(self.tabs@)[i as int] == self.tabs@[i as int]@);
                true
            },
            None => false,
        }
    }

    /// Returns a copy of the specified tab when it exists.
    pub fn get_tab(&self, tab_id: &str) -> (r: Option<Tab>)
        requires
            self.wf(),
        ensures
            opt_tab_view(r) == lookup(self@.tabs, tab_id@),
    {
        let key = tab_id.to_string();
        match find_index(&self.tabs, &key) {
            Some(i) => {
                proof {
                    lemma_map_tab_at(self@.tabs, key@, |t: TabView| t, i as int);
                }
                Some(self.tabs[i].clone())
            },
            None => None,
        }
    }

    /// Returns whether the specified tab is currently suspended.
    pub fn is_tab_suspended(&self, tab_id: &str) -> (r: bool)
        requires
            self.wf(),
        ensures
            r == (lookup(self@.tabs, tab_id@) matches Some(t) && t.is_suspended),
    {
        let key = tab_id.to_string();
        match find_index(&self.tabs, &key) {
            Some(i) => {
                proof {
                    lemma_map_tab_at(self@.tabs, key@, |t: TabView| t, i as int);
                }
                self.tabs[i].is_suspended
            },
            None => false,
        }
    }

    /// Returns the number of tabs currently tracked.
    pub fn tab_count(&self) -> (r: usize)
        ensures
            r == self@.tabs.len(),
    {
        self.tabs.len()
    }

    /// Returns the identifier of the currently active tab, if any.
    pub fn get_active_tab_id(&self) -> (r: Option<TabId>)
        ensures
            opt_text(r) == self@.active,
            self.wf() ==> (r is Some <==> self@.tabs.len() > 0),
    {
        crate::domain::tab::clone_opt_text(&self.active_tab_id)
    }

    /// Returns copies of all tabs in creation order.
    pub fn get_all_tabs(&self) -> (r: Vec<Tab>)
        ensures
            views_of(r@) == self@.tabs,
    {
        let mut r: Vec<Tab> = Vec::new();
        for i in 0..self.tabs.len()
            invariant
                r@.len() == i,
                views_of(r@) == views_of(self.tabs@).take(i as int),
        {
            let t = self.tabs[i].clone();
            assert(views_of(self.tabs@)[i as int] == self.tabs@[i as int]@);
            let ghost prev = r@;
            r.push(t);
            assert forall|j: int| 0 <= j < r@.len() implies #[trigger] views_of(r@)[j] == views_of(self.tabs@).take(i + 1)[j] by {
                if j < i {
                    assert(views_of(prev)[j] == prev[j]@);
                    assert(r@[j] == prev[j]);
                }
            }
            assert(views_of(r@) =~= views_of(self.tabs@).take(i + 1));
        }
        assert(views_of(self.tabs@).take(self.tabs@.len() as int) =~= views_of(self.tabs@));
        r
    }

    /// Clears the active flag of the current active tab.
    fn deactivate_current_active(&mut self)
        requires
            ids_distinct(old(self)@.tabs),
        ensures
            final(self)@ == (TabManagerView { tabs: deactivated(old(self)@.tabs, old(self)@.active), ..old(self)@ }),
            final(self).max_tabs == old(self).max_tabs,
            final(self).max_background_tabs == old(self).max_background_tabs,
    {
        let active = crate::domain::tab::clone_opt_text(&self.active_tab_id);
        if let Some(a) = active {
            match find_index(&self.tabs, &a) {
                Some(i) => {
                    let mut t = self.tabs[i].clone();
                    t.is_active = false;
                    set_tab(&mut self.tabs, i, t);
                    proof {
                        lemma_map_tab_at(
                            old(self)@.tabs,
                            a@,
                            |t: TabView| TabView { is_active: false, ..t },
                            i as int,
                        );
                    }
                },
                None => {
                    proof {
                        lemma_map_tab_absent(old(self)@.tabs, a@, |t: TabView| TabView { is_active: false, ..t });
                    }
                },
            }
        }
    }
}


pub open spec fn saturating_next(n: u32) -> u32 {
    if n == u32::MAX {
        u32::MAX
    } else {
        (n + 1) as u32
    }
}

/// Replacing one tab by a record with the same identifier and active flag
/// (and not suspended when active) keeps the manager invariant.
pub proof fn lemma_update_keeps_wf(tabs: Seq<TabView>, active: Option<Seq<char>>, i: int, t: TabView)
    requires
        manager_wf(TabManagerView { tabs, active }),
        0 <= i < tabs.len(),
        t.id == tabs[i].id,
        t.is_active == tabs[i].is_active,
        t.is_active ==> !t.is_suspended,
    ensures
        manager_wf(TabManagerView { tabs: tabs.update(i, t), active }),
{
    lemma_wf_pointwise(tabs, tabs.update(i, t), active);
}

impl TabManager {
    /// Synchronizes navigation-derived state (URL and history affordances) onto
    /// an existing tab; nothing happens when the tab is unknown.
    pub fn update_navigation_state(&mut self, tab_id: &str, url: String, can_go_back: bool, can_go_forward: bool)
        requires
            old(self).wf(),
        ensures
            final(self).wf(),
            final(self)@ == (TabManagerView {
                tabs: map_tab(old(self)@.tabs, tab_id@, |t: TabView| TabView { url: url@, can_go_back: can_go_back, can_go_forward: can_go_forward, ..t }),
                ..old(self)@
            }),
    {
        let ghost url_v = url@;
        let key = tab_id.to_string();
        let ghost f = |t: TabView| TabView { url: url_v, can_go_back: can_go_back, can_go_forward: can_go_forward, ..t };
        match find_index(&self.tabs, &key) {
            Some(i) => {
                let mut t = self.tabs[i].clone();
                assert(views_of(self.tabs@)[i as int] == self.tabs@[i as int]@);
                t.url = url;
                t.can_go_back = can_go_back;
                t.can_go_forward = can_go_forward;
                assert(t@ == f(old(self)@.tabs[i as int]));
                set_tab(&mut self.tabs, i, t);
                proof {
                    lemma_map_tab_at(old(self)@.tabs, key@, f, i as int);
                    lemma_update_keeps_wf(old(self)@.tabs, old(self)@.active, i as int, f(old(self)@.tabs[i as int]));
                }
            },
            None => {
                proof {
                    lemma_map_tab_absent(old(self)@.tabs, key@, f);
                }
            },
        }
        assert(self@.tabs =~= map_tab(old(self)@.tabs, tab_id@, f));
    }

    /// Updates only the visible URL of a tab; nothing happens when the tab is
    /// unknown.
    pub fn update_url(&mut self, tab_id: &str, url: String)
        requires
            old(self).wf(),
        ensures
            final(self).wf(),
            final(self)@ == (TabManagerView {
                tabs: map_tab(old(self)@.tabs, tab_id@, |t: TabView| TabView { url: url@, ..t }),
                ..old(self)@
            }),
    {
        let ghost url_v = url@;
        let key = tab_id.to_string();
        let ghost f = |t: TabView| TabView { url: url_v, ..t };
        match find_index(&self.tabs, &key) {
            Some(i) => {
                let mut t = self.tabs[i].clone();
                assert(views_of(self.tabs@)[i as int] == self.tabs@[i as int]@);
                t.url = url;
                assert(t@ == f(old(self)@.tabs[i as int]));
                set_tab(&mut self.tabs, i, t);
                proof {
                    lemma_map_tab_at(old(self)@.tabs, key@, f, i as int);
                    lemma_update_keeps_wf(old(self)@.tabs, old(self)@.active, i as int, f(old(self)@.tabs[i as int]));
                }
            },
            None => {
                proof {
                    lemma_map_tab_absent(old(self)@.tabs, key@, f);
                }
            },
        }
        assert(self@.tabs =~= map_tab(old(self)@.tabs, tab_id@, f));
    }

    /// Updates only the visible title of a tab; nothing happens when the tab is
    /// unknown.
    pub fn update_title(&mut self, tab_id: &str, title: String)
        requires
            old(self).wf(),
        ensures
            final(self).wf(),
            final(self)@ == (TabManagerView {
                tabs: map_tab(old(self)@.tabs, tab_id@, |t: TabView| TabView { title: title@, ..t }),
                ..old(self)@
            }),
    {
        let ghost title_v = title@;
        let key = tab_id.to_string();
        let ghost f = |t: TabView| TabView { title: title_v, ..t };
        match find_index(&self.tabs, &key) {
            Some(i) => {
                let mut t = self.tabs[i].clone();
                assert(views_of(self.tabs@)[i as int] == self.tabs@[i as int]@);
                t.title = title;
                assert(t@ == f(old(self)@.tabs[i as int]));
                set_tab(&mut self.tabs, i, t);
                proof {
                    lemma_map_tab_at(old(self)@.tabs, key@, f, i as int);
                    lemma_update_keeps_wf(old(self)@.tabs, old(self)@.active, i as int, f(old(self)@.tabs[i as int]));
                }
            },
            None => {
                proof {
                    lemma_map_tab_absent(old(self)@.tabs, key@, f);
                }
            },
        }
        assert(self@.tabs =~= map_tab(old(self)@.tabs, tab_id@, f));
    }

    /// Updates only the favicon URL of a tab; nothing happens when the tab is
    /// unknown.
    pub fn update_favicon_url(&mut self, tab_id: &str, favicon_url: Option<String>)
        requires
            old(self).wf(),
        ensures
            final(self).wf(),
            final(self)@ == (TabManagerView {
                tabs: map_tab(old(self)@.tabs, tab_id@, |t: TabView| TabView { favicon_url: opt_text(favicon_url), ..t }),
                ..old(self)@
            }),
    {
        let ghost fav_v = opt_text(favicon_url);
        let key = tab_id.to_string();
        let ghost f = |t: TabView| TabView { favicon_url: fav_v, ..t };
        match find_index(&self.tabs, &key) {
            Some(i) => {
                let mut t = self.tabs[i].clone();
                assert(views_of(self.tabs@)[i as int] == self.tabs@[i as int]@);
                t.favicon_url = favicon_url;
                assert(t@ == f(old(self)@.tabs[i as int]));
                set_tab(&mut self.tabs, i, t);
                proof {
                    lemma_map_tab_at(old(self)@.tabs, key@, f, i as int);
                    lemma_update_keeps_wf(old(self)@.tabs, old(self)@.active, i as int, f(old(self)@.tabs[i as int]));
                }
            },
            None => {
                proof {
                    lemma_map_tab_absent(old(self)@.tabs, key@, f);
                }
            },
        }
        assert(self@.tabs =~= map_tab(old(self)@.tabs, tab_id@, f));
    }

    /// Updates the loading flag of a tab; nothing happens when the tab is unknown.
    pub fn set_loading_state(&mut self, tab_id: &str, is_loading: bool)
        requires
            old(self).wf(),
        ensures
            final(self).wf(),
            final(self)@ == (TabManagerView {
                tabs: map_tab(old(self)@.tabs, tab_id@, |t: TabView| TabView { is_loading: is_loading, ..t }),
                ..old(self)@
            }),
    {
        
        let key = tab_id.to_string();
        let ghost f = |t: TabView| TabView { is_loading: is_loading, ..t };
        match find_index(&self.tabs, &key) {
            Some(i) => {
                let mut t = self.tabs[i].clone();
                assert(views_of(self.tabs@)[i as int] == self.tabs@[i as int]@);
                t.is_loading = is_loading;
                assert(t@ == f(old(self)@.tabs[i as int]));
                set_tab(&mut self.tabs, i, t);
                proof {
                    lemma_map_tab_at(old(self)@.tabs, key@, f, i as int);
                    lemma_update_keeps_wf(old(self)@.tabs, old(self)@.active, i as int, f(old(self)@.tabs[i as int]));
                }
            },
            None => {
                proof {
                    lemma_map_tab_absent(old(self)@.tabs, key@, f);
                }
            },
        }
        assert(self@.tabs =~= map_tab(old(self)@.tabs, tab_id@, f));
    }

    /// Counts one more blocked request for a tab (saturating); nothing happens
    /// when the tab is unknown.
    pub fn increment_blocked_count(&mut self, tab_id: &str)
        requires
            old(self).wf(),
        ensures
            final(self).wf(),
            final(self)@ == (TabManagerView {
                tabs: map_tab(old(self)@.tabs, tab_id@, |t: TabView| TabView { blocked_count: saturating_next(t.blocked_count), ..t }),
                ..old(self)@
            }),
    {
        
        let key = tab_id.to_string();
        let ghost f = |t: TabView| TabView { blocked_count: saturating_next(t.blocked_count), ..t };
        match find_index(&self.tabs, &key) {
            Some(i) => {
                let mut t = self.tabs[i].clone();
                assert(views_of(self.tabs@)[i as int] == self.tabs@[i as int]@);
                t.increment_blocked_count();
                assert(t@ == f(old(self)@.tabs[i as int]));
                set_tab(&mut self.tabs, i, t);
                proof {
                    lemma_map_tab_at(old(self)@.tabs, key@, f, i as int);
                    lemma_update_keeps_wf(old(self)@.tabs, old(self)@.active, i as int, f(old(self)@.tabs[i as int]));
                }
            },
            None => {
                proof {
                    lemma_map_tab_absent(old(self)@.tabs, key@, f);
                }
            },
        }
        assert(self@.tabs =~= map_tab(old(self)@.tabs, tab_id@, f));
    }

    /// Suspends a tab when it is a background tab (neither active nor already
    /// suspended); otherwise nothing happens.
    pub fn suspend_tab(&mut self, tab_id: String)
        requires
            old(self).wf(),
        ensures
            final(self).wf(),
            final(self)@ == (TabManagerView {
                tabs: map_tab(old(self)@.tabs, tab_id@, |t: TabView| suspend_if_background(t)),
                ..old(self)@
            }),
    {
        
        let key = tab_id;
        let ghost f = |t: TabView| suspend_if_background(t);
        match find_index(&self.tabs, &key) {
            Some(i) => {
                let mut t = self.tabs[i].clone();
                assert(views_of(self.tabs@)[i as int] == self.tabs@[i as int]@);
                if !t.is_active && !t.is_suspended {
                    t.is_suspended = true;
                    t.is_loading = false;
                }
                assert(t@ == f(old(self)@.tabs[i as int]));
                set_tab(&mut self.tabs, i, t);
                proof {
                    lemma_map_tab_at(old(self)@.tabs, key@, f, i as int);
                    lemma_update_keeps_wf(old(self)@.tabs, old(self)@.active, i as int, f(old(self)@.tabs[i as int]));
                }
            },
            None => {
                proof {
                    lemma_map_tab_absent(old(self)@.tabs, key@, f);
                }
            },
        }
        assert(self@.tabs =~= map_tab(old(self)@.tabs, tab_id@, f));
    }

    /// Resumes a suspended tab, stamping it with `now`; the active tab does not
    /// change. Nothing happens when the tab is unknown or not suspended.
    pub fn resume_tab_at(&mut self, tab_id: String, now: u64)
        requires
            old(self).wf(),
        ensures
            final(self).wf(),
            final(self)@ == (TabManagerView {
                tabs: map_tab(old(self)@.tabs, tab_id@, |t: TabView| resumed_view(t, now)),
                ..old(self)@
            }),
    {
        
        let key = tab_id;
        let ghost f = |t: TabView| resumed_view(t, now);
        match find_index(&self.tabs, &key) {
            Some(i) => {
                let mut t = self.tabs[i].clone();
                assert(views_of(self.tabs@)[i as int] == self.tabs@[i as int]@);
                if t.is_suspended {
                    t.is_suspended = false;
                    t.last_accessed = now;
                }
                assert(t@ == f(old(self)@.tabs[i as int]));
                set_tab(&mut self.tabs, i, t);
                proof {
                    lemma_map_tab_at(old(self)@.tabs, key@, f, i as int);
                    lemma_update_keeps_wf(old(self)@.tabs, old(self)@.active, i as int, f(old(self)@.tabs[i as int]));
                }
            },
            None => {
                proof {
                    lemma_map_tab_absent(old(self)@.tabs, key@, f);
                }
            },
        }
        assert(self@.tabs =~= map_tab(old(self)@.tabs, tab_id@, f));
    }

    /// Resumes a suspended tab, stamping it with the current clock reading.
    pub fn resume_tab(&mut self, tab_id: String)
        requires
            old(self).wf(),
        ensures
            final(self).wf(),
            exists|now: u64| final(self)@ == #[trigger] state_after_resume(old(self)@, tab_id@, now),
    {
        let now = self.clock.now_millis();
        self.resume_tab_at(tab_id, now);
        assert(self@ == state_after_resume(old(self)@, tab_id@, now));
    }

    /// Suspends every background tab idle for more than two minutes at `now`.
    pub fn check_idle_suspension_at(&mut self, now: u64)
        requires
            old(self).wf(),
        ensures
            final(self).wf(),
            final(self)@ == (TabManagerView { tabs: idle_suspended(old(self)@.tabs, now), ..old(self)@ }),
    {
        suspend_idle_tabs(&mut self.tabs, now);
        proof {
            lemma_policies_wf(old(self)@.tabs, old(self)@.active, now);
        }
    }

    /// Suspends every background tab idle for more than two minutes, by the
    /// current clock reading.
    pub fn check_idle_suspension(&mut self)
        requires
            old(self).wf(),
        ensures
            final(self).wf(),
            exists|now: u64|
                final(self)@ == (TabManagerView { tabs: #[trigger] idle_suspended(old(self)@.tabs, now), ..old(self)@ }),
    {
        let now = self.clock.now_millis();
        self.check_idle_suspension_at(now);
    }

    /// Advances the tab's event sequence number (wrapping past `u32::MAX`) and
    /// returns the new value; returns 0 and changes nothing for an unknown tab.
    pub fn increment_sequence(&mut self, tab_id: &str) -> (r: u32)
        requires
            old(self).wf(),
        ensures
            final(self).wf(),
            final(self)@ == (TabManagerView {
                tabs: map_tab(
                    old(self)@.tabs,
                    tab_id@,
                    |t: TabView| TabView { sequence_number: wrapping_next(t.sequence_number), ..t },
                ),
                ..old(self)@
            }),
            r == match lookup(old(self)@.tabs, tab_id@) {
                Some(t) => wrapping_next(t.sequence_number),
                None => 0,
            },
    {
        let key = tab_id.to_string();
        let ghost f = |t: TabView| TabView { sequence_number: wrapping_next(t.sequence_number), ..t };
        match find_index(&self.tabs, &key) {
            Some(i) => {
                let mut t = self.tabs[i].clone();
                assert(views_of(self.tabs@)[i as int] == self.tabs@[i as int]@);
                t.sequence_number = t.sequence_number.wrapping_add(1);
                let r = t.sequence_number;
                assert(t@ == f(old(self)@.tabs[i as int]));
                set_tab(&mut self.tabs, i, t);
                proof {
                    lemma_map_tab_at(old(self)@.tabs, key@, f, i as int);
                    lemma_update_keeps_wf(old(self)@.tabs, old(self)@.active, i as int, f(old(self)@.tabs[i as int]));
                }
                assert(self@.tabs =~= map_tab(old(self)@.tabs, tab_id@, f));
                r
            },
            None => {
                proof {
                    lemma_map_tab_absent(old(self)@.tabs, key@, f);
                }
                0
            },
        }
    }

    /// Creates a new tab with identifier `id` at time `now`, activates it,
    /// and applies the suspension policies.
    ///
    /// Idle background tabs are suspended first, even when creation then
    /// fails; creation fails when the tab limit is reached or when `id` is
    /// already taken.
    pub fn create_tab_with(&mut self, id: TabId, now: u64) -> (r: Result<Tab, NetraError>)
        requires
            old(self).wf(),
        ensures
            final(self).wf(),
            (r matches Err(e) && is_tab_limit_error(e)) <==> old(self)@.tabs.len() >= DEFAULT_MAX_TABS,
            old(self)@.tabs.len() < DEFAULT_MAX_TABS && has_tab(old(self)@.tabs, id@) ==> (r matches Err(
                NetraError::OperationFailed(m),
            ) && m@ == duplicate_id_message(id@)),
            r is Err ==> final(self)@ == (TabManagerView {
                tabs: idle_suspended(old(self)@.tabs, now),
                ..old(self)@
            }),
            old(self)@.tabs.len() < DEFAULT_MAX_TABS && !has_tab(old(self)@.tabs, id@) ==> (r matches Ok(t)
                && t@ == created_tab_view(id@, now) && final(self)@ == state_after_create(
                idle_suspended(old(self)@.tabs, now),
                old(self)@.active,
                id@,
                now,
            )),
    {
        let ghost old_v = self@;
        suspend_idle_tabs(&mut self.tabs, now);
        let ghost idle = self@.tabs;
        proof {
            lemma_policies_wf(old_v.tabs, old_v.active, now);
            lemma_same_ids_has_tab(old_v.tabs, idle, id@);
        }
        if self.tabs.len() >= self.max_tabs {
            return Err(tab_limit_error());
        }
        if let Some(i) = find_index(&self.tabs, &id) {
            assert(views_of(self.tabs@)[i as int] == self.tabs@[i as int]@);
            proof {
                lemma_creation_errors_differ(id@);
            }
            return Err(duplicate_id_error(&id));
        }
        self.deactivate_current_active();
        proof {
            lemma_deactivated(idle, old_v.active);
        }
        let tab = Tab {
            id: id.clone(),
            title: String::new(),
            favicon_url: None,
            url: "about".to_string(),
            is_active: true,
            is_loading: false,
            can_go_back: false,
            can_go_forward: false,
            is_suspended: false,
            blocked_count: 0,
            sequence_number: 0,
            last_accessed: now,
        };
        let copy = tab.clone();
        let ghost before_push = self.tabs@;
        self.tabs.push(tab);
        self.active_tab_id = Some(id);
        let ghost pushed = deactivated(idle, old_v.active).push(created_tab_view(id@, now));
        assert(views_of(self.tabs@) =~= pushed) by {
            assert(views_of(before_push) == deactivated(idle, old_v.active));
        }
        proof {
            lemma_fresh_tab_wf(deactivated(idle, old_v.active), id@, now);
            lemma_policies_wf(pushed, Some(id@), now);
        }
        suspend_idle_tabs(&mut self.tabs, now);
        enforce_limit(&mut self.tabs, self.max_background_tabs);
        Ok(copy)
    }

    /// Creates a new tab with a fresh random identifier at the current clock
    /// reading (see [Self::create_tab_with]).
    pub fn create_tab(&mut self) -> (r: Result<Tab, NetraError>)
        requires
            old(self).wf(),
        ensures
            final(self).wf(),
            (r matches Err(e) && is_tab_limit_error(e)) <==> old(self)@.tabs.len() >= DEFAULT_MAX_TABS,
            old(self)@.tabs.len() < DEFAULT_MAX_TABS ==> (r is Ok || (r matches Err(e)
                && is_duplicate_id_error(e, old(self)@.tabs))),
            old(self)@.tabs.len() == 0 ==> r is Ok,
            r is Err ==> exists|now: u64|
                final(self)@ == (TabManagerView {
                    tabs: #[trigger] idle_suspended(old(self)@.tabs, now),
                    ..old(self)@
                }),
            r matches Ok(t) ==> is_hyphenated_v4(t@.id) && final(self)@ == state_after_create(
                idle_suspended(old(self)@.tabs, t@.last_accessed),
                old(self)@.active,
                t@.id,
                t@.last_accessed,
            ) && t@ == created_tab_view(t@.id, t@.last_accessed),
    {
        let now = self.clock.now_millis();
        let id = new_tab_id();
        self.create_tab_with(id, now)
    }

    /// Closes the tab `tab_id`; when it was the active tab, the first
    /// remaining tab (if any) becomes active, resumed and stamped with `now`.
    /// Returns whether a tab was removed.
    pub fn close_tab_at(&mut self, tab_id: String, now: u64) -> (r: bool)
        requires
            old(self).wf(),
        ensures
            final(self).wf(),
            r == has_tab(old(self)@.tabs, tab_id@),
            !r ==> final(self)@ == old(self)@,
            r ==> final(self)@ == state_after_close(old(self)@, tab_id@, now),
    {
        let ghost old_v = self@;
        match find_index(&self.tabs, &tab_id) {
            None => false,
            Some(i) => {
                proof {
                    lemma_map_tab_at(old_v.tabs, tab_id@, |t: TabView| t, i as int);
                }
                let was_active = match &self.active_tab_id {
                    Some(a) => *a == tab_id,
                    None => false,
                };
                let ghost before = self.tabs@;
                self.tabs.remove(i);
                let ghost rest = old_v.tabs.remove(i as int);
                assert(views_of(self.tabs@) =~= rest) by {
                    assert(self.tabs@ == before.remove(i as int));
                }
                proof {
                    lemma_remove_wf(old_v.tabs, old_v.active, i as int);
                }
                if !was_active {
                    return true;
                }
                self.active_tab_id = None;
                if self.tabs.len() > 0 {
                    let mut t = self.tabs[0].clone();
                    assert(views_of(self.tabs@)[0] == self.tabs@[0]@);
                    t.is_active = true;
                    t.is_suspended = false;
                    t.last_accessed = now;
                    let next_id = t.id.clone();
                    set_tab(&mut self.tabs, 0, t);
                    self.active_tab_id = Some(next_id);
                    proof {
                        lemma_promote_wf(rest, now);
                    }
                }
                true
            },
        }
    }

    /// Closes the tab `tab_id`, stamping a promoted tab with the current
    /// clock reading (see [Self::close_tab_at]).
    pub fn close_tab(&mut self, tab_id: String) -> (r: bool)
        requires
            old(self).wf(),
        ensures
            final(self).wf(),
            r == has_tab(old(self)@.tabs, tab_id@),
            !r ==> final(self)@ == old(self)@,
            r ==> exists|now: u64| final(self)@ == #[trigger] state_after_close(old(self)@, tab_id@, now),
    {
        let now = self.clock.now_millis();
        let ghost id = tab_id@;
        let r = self.close_tab_at(tab_id, now);
        assert(r ==> self@ == state_after_close(old(self)@, id, now));
        r
    }

    /// Makes `tab_id` the active tab at time `now`.
    ///
    /// Idle background tabs are suspended first. When the tab exists, the
    /// previous active tab is deactivated, the target becomes active,
    /// resumed and stamped with `now`, and the suspension policies run again.
    /// Returns whether the tab exists.
    pub fn set_active_tab_at(&mut self, tab_id: String, now: u64) -> (r: bool)
        requires
            old(self).wf(),
        ensures
            final(self).wf(),
            r == has_tab(old(self)@.tabs, tab_id@),
            !r ==> final(self)@ == (TabManagerView {
                tabs: idle_suspended(old(self)@.tabs, now),
                ..old(self)@
            }),
            r ==> final(self)@ == state_after_activate(old(self)@, tab_id@, now),
    {
        let ghost old_v = self@;
        suspend_idle_tabs(&mut self.tabs, now);
        let ghost idle = self@.tabs;
        proof {
            lemma_policies_wf(old_v.tabs, old_v.active, now);
            lemma_same_ids_has_tab(old_v.tabs, idle, tab_id@);
        }
        match find_index(&self.tabs, &tab_id) {
            None => false,
            Some(i) => {
                self.deactivate_current_active();
                proof {
                    lemma_deactivated(idle, old_v.active);
                }
                let ghost deact = self@.tabs;
                assert(deact[i as int].id == tab_id@);
                let mut t = self.tabs[i].clone();
                assert(views_of(self.tabs@)[i as int] == self.tabs@[i as int]@);
                t.is_active = true;
                t.last_accessed = now;
                t.is_suspended = false;
                set_tab(&mut self.tabs, i, t);
                self.active_tab_id = Some(tab_id);
                let ghost act = map_tab(deact, tab_id@, |t: TabView| activated_view(t, now));
                proof {
                    lemma_map_tab_at(deact, tab_id@, |t: TabView| activated_view(t, now), i as int);
                    lemma_activate_wf(deact, i as int, now);
                    lemma_policies_wf(act, Some(tab_id@), now);
                }
                assert(self@.tabs == act);
                suspend_idle_tabs(&mut self.tabs, now);
                enforce_limit(&mut self.tabs, self.max_background_tabs);
                true
            },
        }
    }

    /// Makes `tab_id` the active tab at the current clock reading (see
    /// [Self::set_active_tab_at]).
    pub fn set_active_tab(&mut self, tab_id: String) -> (r: bool)
        requires
            old(self).wf(),
        ensures
            final(self).wf(),
            r == has_tab(old(self)@.tabs, tab_id@),
            !r ==> exists|now: u64|
                final(self)@ == (TabManagerView {
                    tabs: #[trigger] idle_suspended(old(self)@.tabs, now),
                    ..old(self)@
                }),
            r ==> exists|now: u64| final(self)@ == #[trigger] state_after_activate(old(self)@, tab_id@, now),
    {
        let now = self.clock.now_millis();
        let ghost id = tab_id@;
        let r = self.set_active_tab_at(tab_id, now);
        assert(r ==> self@ == state_after_activate(old(self)@, id, now));
        assert(!r ==> self@ == (TabManagerView { tabs: idle_suspended(old(self)@.tabs, now), ..old(self)@ }));
        r
    }
}

/// The error returned when the tab limit is reached.
fn tab_limit_error() -> (e: NetraError)
    ensures
        e matches NetraError::OperationFailed(m) && m@ == tab_limit_message(),
{
    let mut v: Vec<char> = Vec::new();
    crate::text::push_str(&mut v, "maximum tab limit of ");
    crate::text::push_decimal(&mut v, DEFAULT_MAX_TABS as u64);
    crate::text::push_str(&mut v, " reached");
    assert(v@ =~= tab_limit_message());
    NetraError::OperationFailed(crate::text::string_from_chars(&v))
}

/// The error returned when a new identifier is already taken.
fn duplicate_id_error(id: &String) -> (e: NetraError)
    ensures
        e matches NetraError::OperationFailed(m) && m@ == duplicate_id_message(id@),
{
    let mut v: Vec<char> = Vec::new();
    crate::text::push_str(&mut v, "tab id `");
    crate::text::push_str(&mut v, id.as_str());
    crate::text::push_str(&mut v, "` is already in use");
    assert(v@ =~= duplicate_id_message(id@));
    NetraError::OperationFailed(crate::text::string_from_chars(&v))
}

/// Two tab lists with the same identifiers at each position hold the same
/// identifiers.
pub proof fn lemma_same_ids_has_tab(a: Seq<TabView>, b: Seq<TabView>, id: Seq<char>)
    requires
        a.len() == b.len(),
        forall|i: int| 0 <= i < a.len() ==> #[trigger] a[i].id == b[i].id,
    ensures
        has_tab(a, id) == has_tab(b, id),
{
    if has_tab(a, id) {
        let i = choose|i: int| 0 <= i < a.len() && a[i].id == id;
        assert(b[i].id == id);
    }
    if has_tab(b, id) {
        let i = choose|i: int| 0 <= i < b.len() && b[i].id == id;
        assert(a[i].id == id);
    }
}

/// Deactivating the active tab leaves no tab flagged active and changes
/// nothing else.
pub proof fn lemma_deactivated(tabs: Seq<TabView>, active: Option<Seq<char>>)
    requires
        manager_wf(TabManagerView { tabs, active }),
    ensures
        deactivated(tabs, active).len() == tabs.len(),
        forall|i: int|
            0 <= i < tabs.len() ==> #[trigger] deactivated(tabs, active)[i] == (TabView {
                is_active: false,
                ..tabs[i]
            }),
{
    assert forall|i: int| 0 <= i < tabs.len() implies #[trigger] deactivated(tabs, active)[i] == (TabView {
        is_active: false,
        ..tabs[i]
    }) by {
        assert(tabs[i].is_active <==> active == Some(tabs[i].id));
    }
}

/// Appending a fresh, active, unsuspended tab to tabs of which none is
/// active gives a well-formed state with the new tab active.
pub proof fn lemma_fresh_tab_wf(tabs: Seq<TabView>, id: Seq<char>, now: u64)
    requires
        ids_distinct(tabs),
        tabs.len() < DEFAULT_MAX_TABS,
        !has_tab(tabs, id),
        forall|i: int| 0 <= i < tabs.len() ==> !(#[trigger] tabs[i].is_active),
    ensures
        manager_wf(TabManagerView { tabs: tabs.push(created_tab_view(id, now)), active: Some(id) }),
{
    let p = tabs.push(created_tab_view(id, now));
    assert forall|i: int, j: int| 0 <= i < p.len() && 0 <= j < p.len() && i != j implies p[i].id != p[j].id by {
        if i < tabs.len() && j < tabs.len() {
            assert(p[i] == tabs[i] && p[j] == tabs[j]);
        } else if i < tabs.len() {
            assert(p[i] == tabs[i]);
        } else if j < tabs.len() {
            assert(p[j] == tabs[j]);
        }
    }
    assert forall|i: int| 0 <= i < p.len() implies (#[trigger] p[i].is_active <==> Some(id) == Some(p[i].id)) by {
        if i < tabs.len() {
            assert(p[i] == tabs[i]);
            assert(tabs[i].id != id);
        }
    }
    assert(p[p.len() - 1].id == id);
}

/// Removing a tab keeps identifiers unique and the length within the
/// limit; when the removed tab was not active the state stays well formed,
/// and when it was, no remaining tab is flagged active.
pub proof fn lemma_remove_wf(tabs: Seq<TabView>, active: Option<Seq<char>>, i: int)
    requires
        manager_wf(TabManagerView { tabs, active }),
        0 <= i < tabs.len(),
    ensures
        ids_distinct(tabs.remove(i)),
        tabs.remove(i).len() < DEFAULT_MAX_TABS,
        active != Some(tabs[i].id) ==> manager_wf(TabManagerView { tabs: tabs.remove(i), active }),
        active == Some(tabs[i].id) ==> forall|j: int|
            0 <= j < tabs.remove(i).len() ==> !(#[trigger] tabs.remove(i)[j].is_active)
                && (tabs.remove(i)[j].is_active ==> !tabs.remove(i)[j].is_suspended),
{
    let r = tabs.remove(i);
    assert forall|j: int| 0 <= j < r.len() implies #[trigger] r[j] == if j < i {
        tabs[j]
    } else {
        tabs[j + 1]
    } by {}
    assert forall|a: int, b: int| 0 <= a < r.len() && 0 <= b < r.len() && a != b implies r[a].id != r[b].id by {
        let a2 = if a < i { a } else { a + 1 };
        let b2 = if b < i { b } else { b + 1 };
        assert(r[a] == tabs[a2] && r[b] == tabs[b2]);
    }
    if active != Some(tabs[i].id) {
        if let Some(x) = active {
            let k = choose|k: int| 0 <= k < tabs.len() && tabs[k].id == x;
            assert(k != i);
            let k2 = if k < i { k } else { k - 1 };
            assert(r[k2].id == x);
        }
        assert forall|j: int| 0 <= j < r.len() implies (#[trigger] r[j].is_active <==> active == Some(r[j].id)) by {
            let j2 = if j < i { j } else { j + 1 };
            assert(r[j] == tabs[j2]);
        }
        assert forall|j: int| 0 <= j < r.len() && #[trigger] r[j].is_active implies !r[j].is_suspended by {
            let j2 = if j < i { j } else { j + 1 };
            assert(r[j] == tabs[j2]);
        }
    } else {
        assert forall|j: int| 0 <= j < r.len() implies !(#[trigger] r[j].is_active) by {
            let j2 = if j < i { j } else { j + 1 };
            assert(r[j] == tabs[j2]);
            assert(j2 != i);
        }
    }
}

/// Promoting the first of the remaining tabs (none of them active) gives
/// a well-formed state.
pub proof fn lemma_promote_wf(rest: Seq<TabView>, now: u64)
    requires
        ids_distinct(rest),
        rest.len() < DEFAULT_MAX_TABS,
        rest.len() > 0,
        forall|j: int| 0 <= j < rest.len() ==> !(#[trigger] rest[j].is_active),
    ensures
        manager_wf(TabManagerView { tabs: rest.update(0, activated_view(rest[0], now)), active: Some(rest[0].id) }),
{
    let u = rest.update(0, activated_view(rest[0], now));
    assert forall|a: int, b: int| 0 <= a < u.len() && 0 <= b < u.len() && a != b implies u[a].id != u[b].id by {
        assert(u[a].id == rest[a].id && u[b].id == rest[b].id);
    }
    assert forall|j: int| 0 <= j < u.len() implies (#[trigger] u[j].is_active <==> Some(rest[0].id) == Some(u[j].id)) by {
        if j != 0 {
            assert(u[j] == rest[j]);
            assert(rest[j].id != rest[0].id);
        }
    }
    assert(u[0].id == rest[0].id);
}

/// Activating one tab of a list with no active tab gives a well-formed
/// state with that tab active.
pub proof fn lemma_activate_wf(tabs: Seq<TabView>, i: int, now: u64)
    requires
        ids_distinct(tabs),
        tabs.len() <= DEFAULT_MAX_TABS,
        0 <= i < tabs.len(),
        forall|j: int| 0 <= j < tabs.len() ==> !(#[trigger] tabs[j].is_active),
    ensures
        manager_wf(TabManagerView { tabs: tabs.update(i, activated_view(tabs[i], now)), active: Some(tabs[i].id) }),
{
    let u = tabs.update(i, activated_view(tabs[i], now));
    assert forall|a: int, b: int| 0 <= a < u.len() && 0 <= b < u.len() && a != b implies u[a].id != u[b].id by {
        assert(u[a].id == tabs[a].id && u[b].id == tabs[b].id);
    }
    assert forall|j: int| 0 <= j < u.len() implies (#[trigger] u[j].is_active <==> Some(tabs[i].id) == Some(u[j].id)) by {
        if j != i {
            assert(u[j] == tabs[j]);
            assert(tabs[j].id != tabs[i].id);
        }
    }
    assert(u[i].id == tabs[i].id);
}


/// The invariant of every manager: identifiers are unique, at most
/// [DEFAULT_MAX_TABS] tabs exist, exactly the tab named active carries the
/// active flag (so at most one tab is active), the active tab is never
/// suspended, the active identifier names an existing tab, and there is an
/// active tab exactly when there is any tab.
pub proof fn lemma_manager_invariant(m: TabManager)
    requires
        m.wf(),
    ensures
        manager_wf(m@),
        ids_distinct(m@.tabs),
        m@.tabs.len() <= DEFAULT_MAX_TABS,
        forall|i: int, j: int|
            0 <= i < m@.tabs.len() && 0 <= j < m@.tabs.len() && #[trigger] m@.tabs[i].is_active
                && #[trigger] m@.tabs[j].is_active ==> i == j,
        forall|i: int| 0 <= i < m@.tabs.len() && #[trigger] m@.tabs[i].is_active ==> !m@.tabs[i].is_suspended,
        m@.active matches Some(a) ==> has_tab(m@.tabs, a),
        m@.active is Some <==> m@.tabs.len() > 0,
{
    let v = m@;
    assert forall|i: int, j: int|
        0 <= i < v.tabs.len() && 0 <= j < v.tabs.len() && #[trigger] v.tabs[i].is_active
            && #[trigger] v.tabs[j].is_active implies i == j by {
        assert(v.active == Some(v.tabs[i].id));
        assert(v.active == Some(v.tabs[j].id));
    }
}


/// Looking up a tab after mapping over it gives the mapped record.
pub proof fn lemma_lookup_map_tab(tabs: Seq<TabView>, id: Seq<char>, f: spec_fn(TabView) -> TabView)
    requires
        ids_distinct(tabs),
        forall|t: TabView| #[trigger] f(t).id == t.id,
    ensures
        lookup(map_tab(tabs, id, f), id) == match lookup(tabs, id) {
            Some(t) => Some(f(t)),
            None => None,
        },
        has_tab(map_tab(tabs, id, f), id) == has_tab(tabs, id),
{
    let m = map_tab(tabs, id, f);
    if has_tab(tabs, id) {
        let i = tab_index(tabs, id);
        lemma_map_tab_at(tabs, id, f, i);
        assert(m[i].id == id);
        assert(ids_distinct(m)) by {
            assert forall|a: int, b: int| 0 <= a < m.len() && 0 <= b < m.len() && a != b implies m[a].id
                != m[b].id by {
                assert(m[a].id == tabs[a].id);
                assert(m[b].id == tabs[b].id);
            }
        }
        lemma_map_tab_at(m, id, |t: TabView| t, i);
    } else {
        lemma_map_tab_absent(tabs, id, f);
    }
}


/// The suspension policies keep every tab's position, identifier and active
/// flag; a tab they change was a background tab and becomes suspended (and
/// not loading).
pub proof fn lemma_policies_shape(tabs: Seq<TabView>, now: u64)
    ensures
        suspension_policies(tabs, now).len() == tabs.len(),
        forall|i: int|
            0 <= i < tabs.len() ==> #[trigger] suspension_policies(tabs, now)[i].id == tabs[i].id
                && suspension_policies(tabs, now)[i].is_active == tabs[i].is_active
                && (suspension_policies(tabs, now)[i] == tabs[i] || (is_background(tabs[i])
                && suspension_policies(tabs, now)[i] == suspended_view(tabs[i]))),
{
    let idle = idle_suspended(tabs, now);
    lemma_enforce_limit(idle, DEFAULT_MAX_BACKGROUND_TABS as nat);
    assert forall|i: int| 0 <= i < tabs.len() implies #[trigger] suspension_policies(tabs, now)[i].id
        == tabs[i].id && suspension_policies(tabs, now)[i].is_active == tabs[i].is_active
        && (suspension_policies(tabs, now)[i] == tabs[i] || (is_background(tabs[i])
        && suspension_policies(tabs, now)[i] == suspended_view(tabs[i]))) by {
        let e = enforce_background_limit(idle, DEFAULT_MAX_BACKGROUND_TABS as nat);
        assert(e[i] == suspension_policies(tabs, now)[i]);
        assert(0 <= i < idle.len());
        assert(e[i].id == idle[i].id);
        assert(e[i] == idle[i] || (is_background(idle[i]) && e[i] == suspended_view(idle[i])));
        if is_background(tabs[i]) && is_idle(tabs[i], now) {
            assert(idle[i] == suspended_view(tabs[i]));
            assert(suspended_view(suspended_view(tabs[i])) == suspended_view(tabs[i]));
        } else {
            assert(idle[i] == tabs[i]);
        }
    }
}

/// After a successful creation the new tab exists, is the active tab, and
/// is the last tab.
pub proof fn lemma_created_tab_present(tabs: Seq<TabView>, active: Option<Seq<char>>, id: Seq<char>, now: u64)
    ensures
        state_after_create(tabs, active, id, now).tabs.len() == tabs.len() + 1,
        state_after_create(tabs, active, id, now).tabs[tabs.len() as int].id == id,
        state_after_create(tabs, active, id, now).tabs[tabs.len() as int].is_active,
        has_tab(state_after_create(tabs, active, id, now).tabs, id),
        state_after_create(tabs, active, id, now).active == Some(id),
{
    let pushed = deactivated(tabs, active).push(created_tab_view(id, now));
    lemma_policies_shape(pushed, now);
    let n = tabs.len() as int;
    assert(pushed[n] == created_tab_view(id, now));
    assert(suspension_policies(pushed, now)[n].id == id);
}


// ---------------------------------------------------------------------------
// Laws
// ---------------------------------------------------------------------------

/// Identifiers of the tabs, in order.
pub open spec fn tab_ids(tabs: Seq<TabView>) -> Seq<Seq<char>> {
    tabs.map_values(|t: TabView| t.id)
}

/// The background-tab limit holds after every creation: at most
/// [DEFAULT_MAX_BACKGROUND_TABS] tabs are neither active nor suspended.
pub proof fn law_background_limit_after_create(tabs: Seq<TabView>, active: Option<Seq<char>>, id: Seq<char>, now: u64)
    requires
        manager_wf(TabManagerView { tabs, active }),
        tabs.len() < DEFAULT_MAX_TABS,
        !has_tab(tabs, id),
    ensures
        background_count(state_after_create(tabs, active, id, now).tabs) <= DEFAULT_MAX_BACKGROUND_TABS,
        manager_wf(state_after_create(tabs, active, id, now)),
{
    lemma_deactivated(tabs, active);
    let d = deactivated(tabs, active);
    assert(ids_distinct(d)) by {
        assert forall|i: int, j: int| 0 <= i < d.len() && 0 <= j < d.len() && i != j implies d[i].id != d[j].id by {
            assert(d[i].id == tabs[i].id && d[j].id == tabs[j].id);
        }
    }
    assert(!has_tab(d, id)) by {
        lemma_same_ids_has_tab(tabs, d, id);
    }
    lemma_fresh_tab_wf(d, id, now);
    lemma_policies_wf(d.push(created_tab_view(id, now)), Some(id), now);
}

/// The background-tab limit holds after every activation.
pub proof fn law_background_limit_after_activate(v: TabManagerView, id: Seq<char>, now: u64)
    requires
        manager_wf(v),
        has_tab(v.tabs, id),
    ensures
        background_count(state_after_activate(v, id, now).tabs) <= DEFAULT_MAX_BACKGROUND_TABS,
        manager_wf(state_after_activate(v, id, now)),
{
    let idle = idle_suspended(v.tabs, now);
    lemma_policies_wf(v.tabs, v.active, now);
    lemma_deactivated(idle, v.active);
    let d = deactivated(idle, v.active);
    let i = choose|i: int| 0 <= i < v.tabs.len() && v.tabs[i].id == id;
    assert(ids_distinct(d)) by {
        assert forall|a: int, b: int| 0 <= a < d.len() && 0 <= b < d.len() && a != b implies d[a].id != d[b].id by {
            assert(d[a].id == idle[a].id && d[b].id == idle[b].id);
        }
    }
    assert(d[i].id == id);
    lemma_map_tab_at(d, id, |t: TabView| activated_view(t, now), i);
    lemma_activate_wf(d, i, now);
    lemma_policies_wf(d.update(i, activated_view(d[i], now)), Some(id), now);
}

/// Least-recently-used suspension: a background tab suspended by the limit
/// was accessed no later than any tab left in the background.
pub proof fn law_lru_suspends_oldest(tabs: Seq<TabView>, k: nat, i: int, j: int)
    requires
        0 <= i < tabs.len(),
        0 <= j < tabs.len(),
        is_background(tabs[i]),
        !is_background(suspend_lru(tabs, k)[i]),
        is_background(suspend_lru(tabs, k)[j]),
    ensures
        tabs[i].last_accessed <= tabs[j].last_accessed,
    decreases k,
{
    lemma_suspend_lru(tabs, k);
    if k > 0 {
        let m = lru_among(tabs, tabs.len() as int);
        lemma_lru_among(tabs, tabs.len() as int);
        if m >= 0 {
            let u = tabs.update(m, suspended_view(tabs[m]));
            lemma_suspend_lru(u, (k - 1) as nat);
            assert(suspend_lru(tabs, k) == suspend_lru(u, (k - 1) as nat));
            let r = suspend_lru(u, (k - 1) as nat);
            assert(r[j].id == u[j].id);
            if j == m {
                assert(!is_background(u[j]));
                assert(r[j] == u[j] || (is_background(u[j]) && r[j] == suspended_view(u[j])));
            } else {
                assert(u[j] == tabs[j]);
                assert(r[j] == u[j] || (is_background(u[j]) && r[j] == suspended_view(u[j])));
                assert(is_background(tabs[j]));
                if i != m {
                    assert(u[i] == tabs[i]);
                    law_lru_suspends_oldest(u, (k - 1) as nat, i, j);
                }
            }
        }
    }
}

/// The background-tab limit on activation, as a whole. Take the tabs that
/// are in the background once `id` is active and idle tabs are suspended:
/// exactly as many of them as the limit allows (all, when they are fewer)
/// stay in the background, and each of the others is suspended and was
/// accessed no later than any tab left in the background. No other tab
/// changes.
pub proof fn law_activation_lru(v: TabManagerView, id: Seq<char>, now: u64)
    ensures
        ({
            let before = idle_suspended(activated_tabs(v, id, now), now);
            let after = state_after_activate(v, id, now).tabs;
            &&& after.len() == before.len()
            &&& background_count(after) == if background_count(before) <= DEFAULT_MAX_BACKGROUND_TABS {
                background_count(before)
            } else {
                DEFAULT_MAX_BACKGROUND_TABS as nat
            }
            &&& forall|i: int|
                0 <= i < before.len() && !is_background(#[trigger] before[i]) ==> after[i] == before[i]
            &&& forall|i: int, j: int|
                0 <= i < before.len() && 0 <= j < before.len() && is_background(#[trigger] before[i])
                    && !is_background(after[i]) && is_background(#[trigger] after[j]) ==> after[i]
                    == suspended_view(before[i]) && before[i].last_accessed <= after[j].last_accessed
        }),
{
    let before = idle_suspended(activated_tabs(v, id, now), now);
    let max = DEFAULT_MAX_BACKGROUND_TABS as nat;
    let after = enforce_background_limit(before, max);
    assert(state_after_activate(v, id, now).tabs == after);
    lemma_enforce_limit(before, max);
    let count = background_count(before);
    assert forall|i: int| 0 <= i < before.len() && !is_background(#[trigger] before[i]) implies after[i]
        == before[i] by {
        assert(after[i].id == before[i].id);
    }
    assert forall|i: int, j: int|
        0 <= i < before.len() && 0 <= j < before.len() && is_background(#[trigger] before[i])
            && !is_background(after[i]) && is_background(#[trigger] after[j]) implies after[i]
            == suspended_view(before[i]) && before[i].last_accessed <= after[j].last_accessed by {
        assert(after[i].id == before[i].id);
        assert(after[j].id == before[j].id);
        if count > max {
            law_lru_suspends_oldest(before, (count - max) as nat, i, j);
        }
    }
}

/// Idle suspension leaves no idle background tab behind.
pub proof fn law_no_idle_background_tab(tabs: Seq<TabView>, now: u64)
    ensures
        forall|i: int|
            0 <= i < tabs.len() ==> !(is_background(#[trigger] idle_suspended(tabs, now)[i]) && is_idle(
                idle_suspended(tabs, now)[i],
                now,
            )),
{
}

/// Creation appends the new tab after the existing ones, which keep their
/// order.
pub proof fn law_create_appends(tabs: Seq<TabView>, active: Option<Seq<char>>, id: Seq<char>, now: u64)
    ensures
        tab_ids(state_after_create(tabs, active, id, now).tabs) == tab_ids(tabs).push(id),
{
    let pushed = deactivated(tabs, active).push(created_tab_view(id, now));
    lemma_policies_shape(pushed, now);
    let r = state_after_create(tabs, active, id, now).tabs;
    assert forall|i: int| 0 <= i < r.len() implies #[trigger] tab_ids(r)[i] == tab_ids(tabs).push(id)[i] by {
        assert(r[i].id == pushed[i].id);
        if i < tabs.len() {
            assert(pushed[i] == deactivated(tabs, active)[i]);
        }
    }
    assert(tab_ids(r) =~= tab_ids(tabs).push(id));
}

/// Closing a tab removes exactly that tab; the others keep their order.
pub proof fn law_close_keeps_order(v: TabManagerView, id: Seq<char>, now: u64)
    requires
        has_tab(v.tabs, id),
    ensures
        tab_ids(state_after_close(v, id, now).tabs) == tab_ids(v.tabs).remove(tab_index(v.tabs, id)),
        !has_tab(state_after_close(v, id, now).tabs, id) || !ids_distinct(v.tabs),
{
    let k = tab_index(v.tabs, id);
    let rest = v.tabs.remove(k);
    let r = state_after_close(v, id, now).tabs;
    assert(tab_ids(r) =~= tab_ids(v.tabs).remove(k)) by {
        assert forall|i: int| 0 <= i < r.len() implies #[trigger] tab_ids(r)[i] == tab_ids(v.tabs).remove(k)[i] by {
            assert(r[i].id == rest[i].id);
        }
    }
    if ids_distinct(v.tabs) && has_tab(r, id) {
        let j = choose|j: int| 0 <= j < r.len() && r[j].id == id;
        assert(r[j].id == rest[j].id);
        let j2 = if j < k { j } else { j + 1 };
        assert(rest[j] == v.tabs[j2]);
    }
}

/// Closing the active tab while other tabs remain promotes another tab, the
/// first remaining one in creation order: it becomes the active, unsuspended
/// tab stamped with the closing time, and the rest of its record (its
/// loading flag among it) stays as it was.
pub proof fn law_close_promotes_another_tab(v: TabManagerView, id: Seq<char>, now: u64)
    requires
        manager_wf(v),
        has_tab(v.tabs, id),
        v.active == Some(id),
        v.tabs.len() > 1,
    ensures
        ({
            let r = state_after_close(v, id, now);
            &&& r.active matches Some(a)
            &&& a != id
            &&& lookup(r.tabs, a) matches Some(t)
            &&& t.is_active && !t.is_suspended && t.last_accessed == now
            &&& lookup(v.tabs, a) matches Some(before)
            &&& t.is_loading == before.is_loading
            &&& t == (TabView { is_active: true, is_suspended: false, last_accessed: now, ..before })
            &&& a == if tab_index(v.tabs, id) == 0 {
                v.tabs[1].id
            } else {
                v.tabs[0].id
            }
        }),
{
    let k = tab_index(v.tabs, id);
    let rest = v.tabs.remove(k);
    let r = state_after_close(v, id, now);
    let a = rest[0].id;
    let src = if k == 0 { 1int } else { 0int };
    assert(rest[0] == v.tabs[src]);
    assert(a != id);
    assert(r.tabs[0].id == a);
    assert(has_tab(r.tabs, a));
    let j = tab_index(r.tabs, a);
    assert(j == 0) by {
        if j != 0 {
            let j2 = if j < k { j } else { j + 1 };
            assert(r.tabs[j] == rest[j]);
            assert(rest[j] == v.tabs[j2]);
            assert(j2 != src);
        }
    }
    assert(has_tab(v.tabs, a));
    assert(tab_index(v.tabs, a) == src);
}

/// Closing a tab that is not the active one never moves the focus: the
/// active tab stays the same, and every remaining tab keeps its record and
/// its place in the order.
pub proof fn law_close_background_keeps_focus(v: TabManagerView, id: Seq<char>, now: u64)
    requires
        manager_wf(v),
        has_tab(v.tabs, id),
        v.active != Some(id),
    ensures
        state_after_close(v, id, now).active == v.active,
        state_after_close(v, id, now).tabs == v.tabs.remove(tab_index(v.tabs, id)),
        forall|x: Seq<char>| x != id ==> lookup(state_after_close(v, id, now).tabs, x) == lookup(v.tabs, x),
        v.active matches Some(a) ==> lookup(state_after_close(v, id, now).tabs, a) matches Some(t) && t.is_active,
{
    let k = tab_index(v.tabs, id);
    let rest = v.tabs.remove(k);
    assert forall|x: Seq<char>| x != id implies lookup(rest, x) == lookup(v.tabs, x) by {
        if has_tab(v.tabs, x) {
            let i = tab_index(v.tabs, x);
            assert(i != k);
            let j = if i < k { i } else { i - 1 };
            assert(rest[j] == v.tabs[i]);
            assert(has_tab(rest, x));
            let j2 = tab_index(rest, x);
            let i2 = if j2 < k { j2 } else { j2 + 1 };
            assert(rest[j2] == v.tabs[i2]);
            assert(i2 == i);
        } else {
            if has_tab(rest, x) {
                let j2 = tab_index(rest, x);
                let i2 = if j2 < k { j2 } else { j2 + 1 };
                assert(rest[j2] == v.tabs[i2]);
            }
        }
    }
    if let Some(a) = v.active {
        assert(lookup(rest, a) == lookup(v.tabs, a));
        let i = tab_index(v.tabs, a);
        assert(v.tabs[i].is_active);
    }
}

/// Activating a tab makes it the active, unsuspended tab stamped with the
/// activation time, and never starts a load: the tab is loading afterwards
/// only if it was loading before. Every other field of its record (URL,
/// title, history flags, counters) stays as it was.
pub proof fn law_activation_result(v: TabManagerView, id: Seq<char>, now: u64)
    requires
        manager_wf(v),
        has_tab(v.tabs, id),
    ensures
        state_after_activate(v, id, now).active == Some(id),
        lookup(state_after_activate(v, id, now).tabs, id) matches Some(t) && t.is_active && !t.is_suspended
            && t.last_accessed == now && (t.is_loading ==> lookup(v.tabs, id)->0.is_loading) && t == (TabView {
            is_active: true,
            is_suspended: false,
            last_accessed: now,
            is_loading: t.is_loading,
            ..lookup(v.tabs, id)->0
        }),
{
    let idle = idle_suspended(v.tabs, now);
    lemma_policies_wf(v.tabs, v.active, now);
    lemma_deactivated(idle, v.active);
    let d = deactivated(idle, v.active);
    let i = tab_index(v.tabs, id);
    lemma_map_tab_at(v.tabs, id, |t: TabView| t, i);
    assert(ids_distinct(d)) by {
        assert forall|a: int, b: int| 0 <= a < d.len() && 0 <= b < d.len() && a != b implies d[a].id != d[b].id by {
            assert(d[a].id == idle[a].id && d[b].id == idle[b].id);
        }
    }
    assert(d[i].id == id);
    let act = d.update(i, activated_view(d[i], now));
    lemma_map_tab_at(d, id, |t: TabView| activated_view(t, now), i);
    lemma_activate_wf(d, i, now);
    lemma_policies_shape(act, now);
    let r = suspension_policies(act, now);
    assert(r[i].id == id && r[i].is_active);
    assert(r[i] == act[i]);
    law_background_limit_after_activate(v, id, now);
    lemma_map_tab_at(r, id, |t: TabView| t, i);
    assert(idle[i].is_loading ==> v.tabs[i].is_loading);
}


impl Clone for TabManager {
    /// A copy with the same tabs, in the same order, and the same active tab;
    /// the copy keeps the same clock.
    fn clone(&self) -> (r: Self)
        ensures
            r@ == self@,
            self.wf() ==> r.wf(),
    {
        TabManager {
            tabs: self.get_all_tabs(),
            active_tab_id: self.get_active_tab_id(),
            max_tabs: self.max_tabs,
            max_background_tabs: self.max_background_tabs,
            clock: self.clock.clone(),
        }
    }
}

impl Default for TabManager {
    fn default() -> (m: Self)
        ensures
            m.wf(),
            m@.tabs == Seq::<TabView>::empty(),
            m@.active is None,
    {
        TabManager::new()
    }
}

} // verus!
