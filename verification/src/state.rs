//! Session state: window geometry, the ordered tab and pane lists, UI flags,
//! and the single active tab. At most one tab is ever active, and the active
//! tab identifier names exactly that tab — `state_laws` proves that every
//! mutation preserves this. A `StateManager` owns one `AppState`, applies
//! mutations to a scratch copy that is committed only when the whole
//! transformation succeeds, and queues one typed change event per successful
//! mutation for its owner to deliver.

use vstd::prelude::*;
use crate::error::AppError;
use crate::pathtext::file_name_spec;
use crate::strtext::{dec_digits_of, str_eq, u64_to_string};
use crate::trusted::{now_unix_nanos, now_unix_seconds};

verus! {

/// Window geometry and its maximized/minimized flags. Lengths are pixels.
#[derive(Debug, Clone, Copy, PartialEq, Eq, Structural)]
pub struct WindowState {
    pub width: u32,
    pub height: u32,
    pub x: Option<i32>,
    pub y: Option<i32>,
    pub maximized: bool,
    pub minimized: bool,
}

impl Default for WindowState {
    fn default() -> (r: WindowState)
        ensures
            r == (WindowState {
                width: 1200,
                height: 800,
                x: None,
                y: None,
                maximized: false,
                minimized: false,
            }),
    {
        WindowState { width: 1200, height: 800, x: None, y: None, maximized: false, minimized: false }
    }
}

/// One tab: its identifier, display name, current directory, active flag,
/// and creation time in seconds since the Unix epoch.
#[derive(Debug)]
pub struct TabState {
    pub id: String,
    pub name: String,
    pub current_path: String,
    pub active: bool,
    pub created_at: i64,
}

impl TabState {
    /// A fresh, inactive tab created now.
    pub fn new(id: String, name: String, current_path: String) -> (r: TabState)
        ensures
            r.id == id,
            r.name == name,
            r.current_path == current_path,
            !r.active,
    {
        TabState { id, name, current_path, active: false, created_at: now_unix_seconds() }
    }
}

impl Clone for TabState {
    /// A clone is equal to the original, field for field.
    fn clone(&self) -> (r: TabState)
        ensures
            r == *self,
    {
        TabState {
            id: self.id.clone(),
            name: self.name.clone(),
            current_path: self.current_path.clone(),
            active: self.active,
            created_at: self.created_at,
        }
    }
}

/// What a pane displays.
#[derive(Debug, Clone, Copy, PartialEq, Eq, Structural)]
pub enum PaneType {
    FileList,
    Preview,
    Properties,
    Log,
}

/// Where a pane sits in the window.
#[derive(Debug, Clone, Copy, PartialEq, Eq, Structural)]
pub enum PanePosition {
    Left,
    Right,
    Top,
    Bottom,
    Center,
}

/// A pane's size: fixed pixel dimensions and/or a flex weight, each optional.
#[derive(Debug, Clone, Copy, PartialEq, Eq, Structural)]
pub struct PaneSize {
    pub width: Option<u32>,
    pub height: Option<u32>,
    pub flex: Option<u32>,
}

/// One pane of the layout.
#[derive(Debug)]
pub struct PaneState {
    pub id: String,
    pub pane_type: PaneType,
    pub position: PanePosition,
    pub size: PaneSize,
    pub visible: bool,
}

impl Clone for PaneState {
    /// A clone is equal to the original, field for field.
    fn clone(&self) -> (r: PaneState)
        ensures
            r == *self,
    {
        PaneState {
            id: self.id.clone(),
            pane_type: self.pane_type,
            position: self.position,
            size: self.size,
            visible: self.visible,
        }
    }
}

/// UI chrome visibility, theme, and free-form custom properties.
#[derive(Debug)]
pub struct UiState {
    pub sidebar_visible: bool,
    pub statusbar_visible: bool,
    pub toolbar_visible: bool,
    pub theme: String,
    pub custom_properties: Vec<(String, String)>,
}

impl UiState {
    /// Sidebar, status bar and toolbar shown, default theme, no properties.
    pub fn new() -> (r: UiState)
        ensures
            r.sidebar_visible,
            r.statusbar_visible,
            r.toolbar_visible,
            r.theme@ == "default"@,
            r.custom_properties@.len() == 0,
    {
        UiState {
            sidebar_visible: true,
            statusbar_visible: true,
            toolbar_visible: true,
            theme: "default".to_owned(),
            custom_properties: Vec::new(),
        }
    }
}

impl Default for UiState {
    fn default() -> (r: UiState)
        ensures
            r.sidebar_visible,
            r.statusbar_visible,
            r.toolbar_visible,
            r.theme@ == "default"@,
            r.custom_properties@.len() == 0,
    {
        UiState::new()
    }
}

/// Two UI states agree on every field, custom properties compared by view.
pub open spec fn ui_state_eq(a: UiState, b: UiState) -> bool {
    &&& a.sidebar_visible == b.sidebar_visible
    &&& a.statusbar_visible == b.statusbar_visible
    &&& a.toolbar_visible == b.toolbar_visible
    &&& a.theme == b.theme
    &&& a.custom_properties@ == b.custom_properties@
}

impl Clone for UiState {
    /// A clone agrees with the original on every field.
    fn clone(&self) -> (r: UiState)
        ensures
            ui_state_eq(r, *self),
    {
        let mut props: Vec<(String, String)> = Vec::new();
        let n = self.custom_properties.len();
        let mut i: usize = 0;
        while i < n
            invariant
                i <= n,
                n == self.custom_properties@.len(),
                props@ == self.custom_properties@.subrange(0, i as int),
            decreases n - i,
        {
            let pair = &self.custom_properties[i];
            props.push((pair.0.clone(), pair.1.clone()));
            proof {
                assert(props@ =~= self.custom_properties@.subrange(0, i + 1));
            }
            i = i + 1;
        }
        proof {
            assert(props@ =~= self.custom_properties@);
        }
        UiState {
            sidebar_visible: self.sidebar_visible,
            statusbar_visible: self.statusbar_visible,
            toolbar_visible: self.toolbar_visible,
            theme: self.theme.clone(),
            custom_properties: props,
        }
    }
}

/// The complete session snapshot.
#[derive(Debug)]
pub struct AppState {
    pub window: WindowState,
    pub tabs: Vec<TabState>,
    pub panes: Vec<PaneState>,
    pub ui: UiState,
    pub active_tab_id: Option<String>,
    /// Seconds since the Unix epoch of the last mutation.
    pub last_saved: i64,
}

/// The identifier view of an optional identifier.
pub open spec fn opt_id_view(o: Option<String>) -> Option<Seq<char>> {
    match o {
        Option::Some(s) => Option::Some(s@),
        Option::None => Option::None,
    }
}

/// The index of the first tab with identifier `id`, or -1 when there is none.
pub open spec fn find_tab(tabs: Seq<TabState>, id: Seq<char>) -> int
    decreases tabs.len(),
{
    if tabs.len() == 0 {
        -1
    } else if tabs.first().id@ == id {
        0
    } else {
        let r = find_tab(tabs.drop_first(), id);
        if r < 0 {
            -1
        } else {
            r + 1
        }
    }
}

/// The index of the first pane with identifier `id`, or -1 when there is none.
pub open spec fn find_pane(panes: Seq<PaneState>, id: Seq<char>) -> int
    decreases panes.len(),
{
    if panes.len() == 0 {
        -1
    } else if panes.first().id@ == id {
        0
    } else {
        let r = find_pane(panes.drop_first(), id);
        if r < 0 {
            -1
        } else {
            r + 1
        }
    }
}

/// `t` with its active flag cleared.
pub open spec fn deactivated(t: TabState) -> TabState {
    TabState { id: t.id, name: t.name, current_path: t.current_path, active: false, created_at: t.created_at }
}

/// `t` with its active flag set.
pub open spec fn activated(t: TabState) -> TabState {
    TabState { id: t.id, name: t.name, current_path: t.current_path, active: true, created_at: t.created_at }
}

/// The tab list after adding `tab`: everything deactivated, the new tab
/// activated and appended.
pub open spec fn spec_tabs_after_add(tabs: Seq<TabState>, tab: TabState) -> Seq<TabState> {
    tabs.map_values(|t: TabState| deactivated(t)).push(activated(tab))
}

/// The tab list and active identifier after removing the tab at `idx`.
/// When the removed tab was the named active one, activation moves to the tab
/// before it — or the first remaining tab — and the identifier follows; when
/// the list empties, the identifier clears; removing another tab changes
/// neither flags nor identifier.
pub open spec fn spec_tabs_after_remove(
    tabs: Seq<TabState>,
    active: Option<Seq<char>>,
    idx: int,
    was_active: bool,
) -> (Seq<TabState>, Option<Seq<char>>) {
    let t1 = tabs.remove(idx);
    if was_active {
        if t1.len() > 0 {
            let nai = if idx > 0 {
                idx - 1
            } else {
                0
            };
            (t1.update(nai, activated(t1[nai])), Option::Some(t1[nai].id@))
        } else {
            (t1, Option::None)
        }
    } else {
        (t1, active)
    }
}

/// The tab list after making the tab at `idx` the only active one.
pub open spec fn spec_tabs_after_set_active(tabs: Seq<TabState>, idx: int) -> Seq<TabState> {
    tabs.map_values(|t: TabState| deactivated(t)).update(
        idx,
        activated(tabs[idx]),
    )
}

/// The first `m` tabs, deactivated.
fn deactivate_all(tabs: &Vec<TabState>) -> (r: Vec<TabState>)
    ensures
        r@ == tabs@.map_values(|t: TabState| deactivated(t)),
{
    let ghost f = |t: TabState| deactivated(t);
    let mut out: Vec<TabState> = Vec::new();
    let n = tabs.len();
    let mut i: usize = 0;
    while i < n
        invariant
            i <= n,
            n == tabs@.len(),
            out@.len() == i,
            forall|j: int| 0 <= j < i ==> out@[j] == deactivated(tabs@[j]),
        decreases n - i,
    {
        let t = &tabs[i];
        out.push(TabState {
            id: t.id.clone(),
            name: t.name.clone(),
            current_path: t.current_path.clone(),
            active: false,
            created_at: t.created_at,
        });
        i = i + 1;
    }
    proof {
        assert(out@ =~= tabs@.map_values(f));
    }
    out
}

/// The index of the first tab with identifier `id`, searched left to right.
fn find_tab_index(tabs: &Vec<TabState>, id: &str) -> (r: Option<usize>)
    ensures
        match r {
            Option::Some(i) => i < tabs@.len() && find_tab(tabs@, id@) == i as int,
            Option::None => find_tab(tabs@, id@) == -1,
        },
{
    let n = tabs.len();
    let mut i: usize = 0;
    while i < n
        invariant
            i <= n,
            n == tabs@.len(),
            forall|j: int| 0 <= j < i ==> tabs@[j].id@ != id@,
        decreases n - i,
    {
        if str_eq(tabs[i].id.as_str(), id) {
            proof {
                lemma_find_tab_at(tabs@, id@, i as int);
            }
            return Some(i);
        }
        i = i + 1;
    }
    proof {
        lemma_find_tab_missing(tabs@, id@);
    }
    None
}

/// The index of the first pane with identifier `id`, searched left to right.
fn find_pane_index(panes: &Vec<PaneState>, id: &str) -> (r: Option<usize>)
    ensures
        match r {
            Option::Some(i) => i < panes@.len() && find_pane(panes@, id@) == i as int,
            Option::None => find_pane(panes@, id@) == -1,
        },
{
    let n = panes.len();
    let mut i: usize = 0;
    while i < n
        invariant
            i <= n,
            n == panes@.len(),
            forall|j: int| 0 <= j < i ==> panes@[j].id@ != id@,
        decreases n - i,
    {
        if str_eq(panes[i].id.as_str(), id) {
            proof {
                lemma_find_pane_at(panes@, id@, i as int);
            }
            return Some(i);
        }
        i = i + 1;
    }
    proof {
        lemma_find_pane_missing(panes@, id@);
    }
    None
}

/// When `k` is the first index whose tab carries `id`, `find_tab` returns it.
proof fn lemma_find_tab_at(tabs: Seq<TabState>, id: Seq<char>, k: int)
    requires
        0 <= k < tabs.len(),
        tabs[k].id@ == id,
        forall|j: int| 0 <= j < k ==> tabs[j].id@ != id,
    ensures
        find_tab(tabs, id) == k,
    decreases tabs.len(),
{
    if k > 0 {
        lemma_find_tab_at(tabs.drop_first(), id, k - 1);
    }
}

/// When no tab carries `id`, `find_tab` returns -1.
proof fn lemma_find_tab_missing(tabs: Seq<TabState>, id: Seq<char>)
    requires
        forall|j: int| 0 <= j < tabs.len() ==> tabs[j].id@ != id,
    ensures
        find_tab(tabs, id) == -1,
    decreases tabs.len(),
{
    if tabs.len() > 0 {
        lemma_find_tab_missing(tabs.drop_first(), id);
    }
}

/// When `k` is the first index whose pane carries `id`, `find_pane` returns it.
proof fn lemma_find_pane_at(panes: Seq<PaneState>, id: Seq<char>, k: int)
    requires
        0 <= k < panes.len(),
        panes[k].id@ == id,
        forall|j: int| 0 <= j < k ==> panes[j].id@ != id,
    ensures
        find_pane(panes, id) == k,
    decreases panes.len(),
{
    if k > 0 {
        lemma_find_pane_at(panes.drop_first(), id, k - 1);
    }
}

/// When no pane carries `id`, `find_pane` returns -1.
proof fn lemma_find_pane_missing(panes: Seq<PaneState>, id: Seq<char>)
    requires
        forall|j: int| 0 <= j < panes.len() ==> panes[j].id@ != id,
    ensures
        find_pane(panes, id) == -1,
    decreases panes.len(),
{
    if panes.len() > 0 {
        lemma_find_pane_missing(panes.drop_first(), id);
    }
}

impl AppState {
    /// A fresh state: default window, no tabs, no panes, default UI flags,
    /// no active tab.
    pub fn new() -> (r: AppState)
        ensures
            r.tabs@.len() == 0,
            r.panes@.len() == 0,
            r.active_tab_id is None,
            r.window == (WindowState {
                width: 1200,
                height: 800,
                x: None,
                y: None,
                maximized: false,
                minimized: false,
            }),
            r.ui.sidebar_visible && r.ui.statusbar_visible && r.ui.toolbar_visible,
            r.ui.theme@ == "default"@,
            r.ui.custom_properties@.len() == 0,
    {
        AppState {
            window: WindowState::default(),
            tabs: Vec::new(),
            panes: Vec::new(),
            ui: UiState::new(),
            active_tab_id: None,
            last_saved: now_unix_seconds(),
        }
    }

    /// Append `tab` as the one active tab: every other tab is deactivated
    /// and the active identifier moves to the new tab.
    pub fn add_tab(&mut self, tab: TabState)
        ensures
            final(self).tabs@ == spec_tabs_after_add(old(self).tabs@, tab),
            opt_id_view(final(self).active_tab_id) == Option::Some(tab.id@),
            final(self).window == old(self).window,
            final(self).panes@ == old(self).panes@,
            final(self).ui == old(self).ui,
    {
        let tab_id = tab.id.clone();
        let mut new_tabs = deactivate_all(&self.tabs);
        new_tabs.push(TabState {
            id: tab.id,
            name: tab.name,
            current_path: tab.current_path,
            active: true,
            created_at: tab.created_at,
        });
        self.tabs = new_tabs;
        self.active_tab_id = Some(tab_id);
        self.last_saved = now_unix_seconds();
    }

    /// Remove the tab with identifier `tab_id`. Succeeds exactly when such a
    /// tab exists; the first one is removed and, when it was the named active
    /// tab, activation is reassigned per `spec_tabs_after_remove`. An unknown
    /// identifier leaves the state unchanged and reports `NotFound`.
    pub fn remove_tab(&mut self, tab_id: &str) -> (r: Result<(), AppError>)
        ensures
            r is Ok <==> find_tab(old(self).tabs@, tab_id@) >= 0,
            r is Err ==> *final(self) == *old(self) && (match r {
                Result::Err(e) => e is NotFound,
                Result::Ok(_) => false,
            }),
            r is Ok ==> {
                let idx = find_tab(old(self).tabs@, tab_id@);
                let was_active = opt_id_view(old(self).active_tab_id) == Option::Some(tab_id@);
                let after = spec_tabs_after_remove(
                    old(self).tabs@,
                    opt_id_view(old(self).active_tab_id),
                    idx,
                    was_active,
                );
                &&& final(self).tabs@ == after.0
                &&& opt_id_view(final(self).active_tab_id) == after.1
                &&& final(self).window == old(self).window
                &&& final(self).panes@ == old(self).panes@
                &&& final(self).ui == old(self).ui
            },
    {
        let found = find_tab_index(&self.tabs, tab_id);
        match found {
            None => Err(AppError::NotFound("tab not found".to_owned().concat(": ").concat(tab_id))),
            Some(idx) => {
                let was_active = match &self.active_tab_id {
                    Some(id) => str_eq(id.as_str(), tab_id),
                    None => false,
                };
                let _removed = self.tabs.remove(idx);
                if was_active {
                    if self.tabs.len() > 0 {
                        let new_active_index = if idx > 0 {
                            idx - 1
                        } else {
                            0
                        };
                        let new_id = self.tabs[new_active_index].id.clone();
                        let old_tab = self.tabs.remove(new_active_index);
                        self.tabs.insert(new_active_index, TabState {
                            id: old_tab.id,
                            name: old_tab.name,
                            current_path: old_tab.current_path,
                            active: true,
                            created_at: old_tab.created_at,
                        });
                        proof {
                            assert(self.tabs@ =~= old(self).tabs@.remove(idx as int).update(
                                new_active_index as int,
                                activated(old(self).tabs@.remove(idx as int)[new_active_index as int]),
                            ));
                        }
                        self.active_tab_id = Some(new_id);
                    } else {
                        self.active_tab_id = None;
                    }
                }
                self.last_saved = now_unix_seconds();
                Ok(())
            },
        }
    }

    /// Make the tab with identifier `tab_id` the only active one. Succeeds
    /// exactly when such a tab exists; an unknown identifier leaves the state
    /// unchanged and reports `NotFound`.
    pub fn set_active_tab(&mut self, tab_id: &str) -> (r: Result<(), AppError>)
        ensures
            r is Ok <==> find_tab(old(self).tabs@, tab_id@) >= 0,
            r is Err ==> *final(self) == *old(self) && (match r {
                Result::Err(e) => e is NotFound,
                Result::Ok(_) => false,
            }),
            r is Ok ==> {
                &&& final(self).tabs@ == spec_tabs_after_set_active(
                    old(self).tabs@,
                    find_tab(old(self).tabs@, tab_id@),
                )
                &&& opt_id_view(final(self).active_tab_id) == Option::Some(tab_id@)
                &&& final(self).window == old(self).window
                &&& final(self).panes@ == old(self).panes@
                &&& final(self).ui == old(self).ui
            },
    {
        let found = find_tab_index(&self.tabs, tab_id);
        match found {
            None => Err(AppError::NotFound("tab not found".to_owned().concat(": ").concat(tab_id))),
            Some(idx) => {
                let mut new_tabs = deactivate_all(&self.tabs);
                let old_tab = new_tabs.remove(idx);
                new_tabs.insert(idx, TabState {
                    id: old_tab.id,
                    name: old_tab.name,
                    current_path: old_tab.current_path,
                    active: true,
                    created_at: old_tab.created_at,
                });
                proof {
                    assert(deactivated(old(self).tabs@[idx as int]).id == old(self).tabs@[idx as int].id);
                    assert(new_tabs@ =~= spec_tabs_after_set_active(old(self).tabs@, idx as int));
                }
                self.tabs = new_tabs;
                self.active_tab_id = Some(tab_id.to_owned());
                self.last_saved = now_unix_seconds();
                Ok(())
            },
        }
    }

    /// The active tab — the first tab carrying the active identifier — as a
    /// copy, when the identifier is set and names an existing tab.
    pub fn get_active_tab(&self) -> (r: Option<TabState>)
        ensures
            match opt_id_view(self.active_tab_id) {
                Option::Some(id) => if find_tab(self.tabs@, id) >= 0 {
                    r == Option::Some(self.tabs@[find_tab(self.tabs@, id)])
                } else {
                    r is None
                },
                Option::None => r is None,
            },
    {
        match &self.active_tab_id {
            None => None,
            Some(id) => {
                let found = find_tab_index(&self.tabs, id.as_str());
                match found {
                    Some(idx) => Some(self.tabs[idx].clone()),
                    None => None,
                }
            },
        }
    }

    /// Append a pane.
    pub fn add_pane(&mut self, pane: PaneState)
        ensures
            final(self).panes@ == old(self).panes@.push(pane),
            final(self).tabs@ == old(self).tabs@,
            final(self).active_tab_id == old(self).active_tab_id,
            final(self).window == old(self).window,
            final(self).ui == old(self).ui,
    {
        self.panes.push(pane);
        self.last_saved = now_unix_seconds();
    }

    /// Remove the pane with identifier `pane_id`. Succeeds exactly when such
    /// a pane exists; an unknown identifier leaves the state unchanged and
    /// reports `NotFound`.
    pub fn remove_pane(&mut self, pane_id: &str) -> (r: Result<(), AppError>)
        ensures
            r is Ok <==> find_pane(old(self).panes@, pane_id@) >= 0,
            r is Err ==> *final(self) == *old(self) && (match r {
                Result::Err(e) => e is NotFound,
                Result::Ok(_) => false,
            }),
            r is Ok ==> {
                &&& final(self).panes@ == old(self).panes@.remove(
                    find_pane(old(self).panes@, pane_id@),
                )
                &&& final(self).tabs@ == old(self).tabs@
                &&& final(self).active_tab_id == old(self).active_tab_id
                &&& final(self).window == old(self).window
                &&& final(self).ui == old(self).ui
            },
    {
        let found = find_pane_index(&self.panes, pane_id);
        match found {
            None => Err(AppError::NotFound("pane not found".to_owned().concat(": ").concat(pane_id))),
            Some(idx) => {
                let _removed = self.panes.remove(idx);
                self.last_saved = now_unix_seconds();
                Ok(())
            },
        }
    }
}

impl Default for AppState {
    fn default() -> (r: AppState)
        ensures
            r.tabs@.len() == 0,
            r.panes@.len() == 0,
            r.active_tab_id is None,
            r.window == (WindowState {
                width: 1200,
                height: 800,
                x: None,
                y: None,
                maximized: false,
                minimized: false,
            }),
            r.ui.sidebar_visible && r.ui.statusbar_visible && r.ui.toolbar_visible,
            r.ui.theme@ == "default"@,
            r.ui.custom_properties@.len() == 0,
    {
        AppState::new()
    }
}

/// Two states agree on every field, lists compared by view.
pub open spec fn app_state_eq(a: AppState, b: AppState) -> bool {
    &&& a.window == b.window
    &&& a.tabs@ == b.tabs@
    &&& a.panes@ == b.panes@
    &&& ui_state_eq(a.ui, b.ui)
    &&& a.active_tab_id == b.active_tab_id
    &&& a.last_saved == b.last_saved
}

impl Clone for AppState {
    /// A clone agrees with the original on every field.
    fn clone(&self) -> (r: AppState)
        ensures
            app_state_eq(r, *self),
    {
        let tabs = self.tabs.clone();
        let panes = self.panes.clone();
        proof {
            assert forall|i: int| 0 <= i < self.tabs@.len() implies tabs@[i] == self.tabs@[i] by {}
            assert(tabs@ =~= self.tabs@);
            assert forall|i: int| 0 <= i < self.panes@.len() implies panes@[i] == self.panes@[i] by {}
            assert(panes@ =~= self.panes@);
        }
        AppState {
            window: self.window,
            tabs,
            panes,
            ui: self.ui.clone(),
            active_tab_id: match &self.active_tab_id {
                Some(id) => Some(id.clone()),
                None => None,
            },
            last_saved: self.last_saved,
        }
    }
}

/// A typed notification describing one successful mutation.
#[derive(Debug)]
pub enum StateChangeEvent {
    WindowChanged(WindowState),
    TabAdded(TabState),
    TabRemoved(String),
    ActiveTabChanged(String),
    PaneAdded(PaneState),
    PaneRemoved(String),
    UiStateChanged(UiState),
}

/// The single source of truth for one `AppState`. Mutations are applied under
/// exclusive access (`&mut self`); each successful mutation appends one typed
/// change event to a queue that the owner drains — after its own locking, if
/// any — and delivers to observers in order.
pub struct StateManager {
    state: AppState,
    pending_events: Vec<StateChangeEvent>,
}

impl StateManager {
    /// The current state.
    pub closed spec fn state_spec(self) -> AppState {
        self.state
    }

    /// The queued change events, oldest first.
    pub closed spec fn events_spec(self) -> Seq<StateChangeEvent> {
        self.pending_events@
    }

    /// A manager over a fresh default state, with no queued events.
    pub fn new() -> (r: StateManager)
        ensures
            r.state_spec().tabs@.len() == 0,
            r.state_spec().panes@.len() == 0,
            r.state_spec().active_tab_id is None,
            r.events_spec().len() == 0,
    {
        StateManager { state: AppState::new(), pending_events: Vec::new() }
    }

    /// A manager over the given initial state, with no queued events.
    pub fn with_state(initial_state: AppState) -> (r: StateManager)
        ensures
            r.state_spec() == initial_state,
            r.events_spec().len() == 0,
    {
        StateManager { state: initial_state, pending_events: Vec::new() }
    }

    /// A full copy of the current state. Never fails here: the fallible
    /// signature is kept for callers that wrap this store in a lock whose
    /// poisoning they surface as an `Internal` error.
    pub fn get_state(&self) -> (r: Result<AppState, AppError>)
        ensures
            r is Ok,
            match r {
                Result::Ok(s) => app_state_eq(s, self.state_spec()),
                Result::Err(_) => false,
            },
    {
        Ok(self.state.clone())
    }

    /// Apply a caller-supplied transformation. The transformation receives a
    /// scratch copy of the state; only when it succeeds is its result
    /// committed, so a failing transformation never leaves a partial
    /// mutation behind. Its optional event is queued after the commit.
    pub fn update_state<F: FnOnce(AppState) -> Result<
        (AppState, Option<StateChangeEvent>),
        AppError,
    >>(&mut self, updater: F) -> (r: Result<(), AppError>)
        requires
            forall|s: AppState| app_state_eq(s, old(self).state_spec()) ==> #[trigger] updater.requires((s,)),
        ensures
            match r {
                Result::Ok(_) => exists|s: AppState, ev: Option<StateChangeEvent>|
                    {
                        &&& app_state_eq(s, old(self).state_spec())
                        &&& #[trigger] updater.ensures(
                            (s,),
                            Result::Ok((final(self).state_spec(), ev)),
                        )
                        &&& (match ev {
                            Option::Some(e) => final(self).events_spec() == old(
                                self,
                            ).events_spec().push(e),
                            Option::None => final(self).events_spec() == old(self).events_spec(),
                        })
                    },
                Result::Err(e) => *final(self) == *old(self) && (exists|s: AppState|
                    app_state_eq(s, old(self).state_spec()) && #[trigger] updater.ensures(
                        (s,),
                        Result::<(AppState, Option<StateChangeEvent>), AppError>::Err(e),
                    )),
            },
    {
        let scratch = self.state.clone();
        let ghost scratch_ghost = scratch;
        let result = updater(scratch);
        match result {
            Ok(pair) => {
                let (new_state, event) = pair;
                let ghost ev_ghost = event;
                self.state = new_state;
                match event {
                    Some(e) => {
                        self.pending_events.push(e);
                    },
                    None => {},
                }
                proof {
                    assert(app_state_eq(scratch_ghost, old(self).state_spec()));
                    assert(updater.ensures(
                        (scratch_ghost,),
                        Result::<(AppState, Option<StateChangeEvent>), AppError>::Ok(
                            (self.state, ev_ghost),
                        ),
                    ));
                }
                Ok(())
            },
            Err(e) => {
                let ghost e_ghost = e;
                proof {
                    assert(updater.ensures(
                        (scratch_ghost,),
                        Result::<(AppState, Option<StateChangeEvent>), AppError>::Err(e_ghost),
                    ));
                }
                Err(e)
            },
        }
    }

    /// Update the window geometry and queue `WindowChanged`.
    pub fn update_window_state(&mut self, window_state: WindowState) -> (r: Result<(), AppError>)
        ensures
            r is Ok,
            final(self).state_spec().window == window_state,
            final(self).state_spec().tabs@ == old(self).state_spec().tabs@,
            final(self).state_spec().panes@ == old(self).state_spec().panes@,
            final(self).state_spec().ui == old(self).state_spec().ui,
            final(self).state_spec().active_tab_id == old(self).state_spec().active_tab_id,
            final(self).events_spec() == old(self).events_spec().push(
                StateChangeEvent::WindowChanged(window_state),
            ),
    {
        self.state.window = window_state;
        self.state.last_saved = now_unix_seconds();
        self.pending_events.push(StateChangeEvent::WindowChanged(window_state));
        Ok(())
    }

    /// Add `tab` as the one active tab and queue `TabAdded`.
    pub fn add_tab(&mut self, tab: TabState) -> (r: Result<(), AppError>)
        ensures
            r is Ok,
            final(self).state_spec().tabs@ == spec_tabs_after_add(old(self).state_spec().tabs@, tab),
            opt_id_view(final(self).state_spec().active_tab_id) == Option::Some(tab.id@),
            final(self).state_spec().window == old(self).state_spec().window,
            final(self).state_spec().panes@ == old(self).state_spec().panes@,
            final(self).state_spec().ui == old(self).state_spec().ui,
            final(self).events_spec() == old(self).events_spec().push(
                StateChangeEvent::TabAdded(tab),
            ),
    {
        let tab_clone = tab.clone();
        self.state.add_tab(tab);
        self.pending_events.push(StateChangeEvent::TabAdded(tab_clone));
        Ok(())
    }

    /// Remove the tab with identifier `tab_id`, reassigning activation per
    /// `spec_tabs_after_remove`, and queue `TabRemoved`. Succeeds exactly
    /// when such a tab exists; otherwise the state and the queue are
    /// unchanged and `NotFound` is reported.
    pub fn remove_tab(&mut self, tab_id: &str) -> (r: Result<(), AppError>)
        ensures
            r is Ok <==> find_tab(old(self).state_spec().tabs@, tab_id@) >= 0,
            r is Err ==> *final(self) == *old(self) && (match r {
                Result::Err(e) => e is NotFound,
                Result::Ok(_) => false,
            }),
            r is Ok ==> {
                let idx = find_tab(old(self).state_spec().tabs@, tab_id@);
                let was_active = opt_id_view(old(self).state_spec().active_tab_id)
                    == Option::Some(tab_id@);
                let after = spec_tabs_after_remove(
                    old(self).state_spec().tabs@,
                    opt_id_view(old(self).state_spec().active_tab_id),
                    idx,
                    was_active,
                );
                &&& final(self).state_spec().tabs@ == after.0
                &&& opt_id_view(final(self).state_spec().active_tab_id) == after.1
                &&& final(self).state_spec().window == old(self).state_spec().window
                &&& final(self).state_spec().panes@ == old(self).state_spec().panes@
                &&& final(self).state_spec().ui == old(self).state_spec().ui
                &&& exists|id: String| id@ == tab_id@ && final(self).events_spec() == old(
                    self,
                ).events_spec().push(StateChangeEvent::TabRemoved(id))
            },
    {
        let result = self.state.remove_tab(tab_id);
        match result {
            Ok(_) => {
                let id = tab_id.to_owned();
                self.pending_events.push(StateChangeEvent::TabRemoved(id));
                Ok(())
            },
            Err(e) => Err(e),
        }
    }

    /// Make the tab with identifier `tab_id` the only active one and queue
    /// `ActiveTabChanged`. Succeeds exactly when such a tab exists; otherwise
    /// the state and the queue are unchanged and `NotFound` is reported.
    pub fn set_active_tab(&mut self, tab_id: &str) -> (r: Result<(), AppError>)
        ensures
            r is Ok <==> find_tab(old(self).state_spec().tabs@, tab_id@) >= 0,
            r is Err ==> *final(self) == *old(self) && (match r {
                Result::Err(e) => e is NotFound,
                Result::Ok(_) => false,
            }),
            r is Ok ==> {
                &&& final(self).state_spec().tabs@ == spec_tabs_after_set_active(
                    old(self).state_spec().tabs@,
                    find_tab(old(self).state_spec().tabs@, tab_id@),
                )
                &&& opt_id_view(final(self).state_spec().active_tab_id) == Option::Some(tab_id@)
                &&& final(self).state_spec().window == old(self).state_spec().window
                &&& final(self).state_spec().panes@ == old(self).state_spec().panes@
                &&& final(self).state_spec().ui == old(self).state_spec().ui
                &&& exists|id: String| id@ == tab_id@ && final(self).events_spec() == old(
                    self,
                ).events_spec().push(StateChangeEvent::ActiveTabChanged(id))
            },
    {
        let result = self.state.set_active_tab(tab_id);
        match result {
            Ok(_) => {
                let id = tab_id.to_owned();
                self.pending_events.push(StateChangeEvent::ActiveTabChanged(id));
                Ok(())
            },
            Err(e) => Err(e),
        }
    }

    /// Replace the UI state and queue `UiStateChanged`.
    pub fn update_ui_state(&mut self, ui_state: UiState) -> (r: Result<(), AppError>)
        ensures
            r is Ok,
            final(self).state_spec().ui == ui_state,
            final(self).state_spec().tabs@ == old(self).state_spec().tabs@,
            final(self).state_spec().panes@ == old(self).state_spec().panes@,
            final(self).state_spec().window == old(self).state_spec().window,
            final(self).state_spec().active_tab_id == old(self).state_spec().active_tab_id,
            exists|u: UiState| ui_state_eq(u, ui_state) && final(self).events_spec() == old(
                self,
            ).events_spec().push(StateChangeEvent::UiStateChanged(u)),
    {
        let ui_clone = ui_state.clone();
        self.state.ui = ui_state;
        self.state.last_saved = now_unix_seconds();
        self.pending_events.push(StateChangeEvent::UiStateChanged(ui_clone));
        Ok(())
    }

    /// Hand out the queued change events, oldest first, and clear the queue.
    /// The owner delivers them to observers in this order, after releasing
    /// any lock it wrapped this store in.
    pub fn take_events(&mut self) -> (r: Vec<StateChangeEvent>)
        ensures
            r@ == old(self).events_spec(),
            final(self).events_spec().len() == 0,
            final(self).state_spec() == old(self).state_spec(),
    {
        let mut drained: Vec<StateChangeEvent> = Vec::new();
        core::mem::swap(&mut drained, &mut self.pending_events);
        drained
    }
}

impl Default for StateManager {
    fn default() -> (r: StateManager)
        ensures
            r.state_spec().tabs@.len() == 0,
            r.state_spec().panes@.len() == 0,
            r.state_spec().active_tab_id is None,
            r.events_spec().len() == 0,
    {
        StateManager::new()
    }
}

/// A fresh tab identifier: `tab_` followed by the clock's nanosecond count.
pub fn generate_tab_id() -> (r: String)
    ensures
        r@.len() > 4,
        r@.subrange(0, 4) == "tab_"@,
{
    proof {
        reveal_strlit("tab_");
    }
    let nanos = now_unix_nanos();
    let n: u64 = if nanos < 0 {
        0
    } else {
        nanos as u64
    };
    let r = "tab_".to_owned().concat(u64_to_string(n).as_str());
    proof {
        lemma_dec_digits_nonempty(n as nat);
        assert(r@.subrange(0, 4) =~= "tab_"@);
    }
    r
}

/// A fresh pane identifier: `pane_` followed by the clock's nanosecond count.
pub fn generate_pane_id() -> (r: String)
    ensures
        r@.len() > 5,
        r@.subrange(0, 5) == "pane_"@,
{
    proof {
        reveal_strlit("pane_");
    }
    let nanos = now_unix_nanos();
    let n: u64 = if nanos < 0 {
        0
    } else {
        nanos as u64
    };
    let r = "pane_".to_owned().concat(u64_to_string(n).as_str());
    proof {
        lemma_dec_digits_nonempty(n as nat);
        assert(r@.subrange(0, 5) =~= "pane_"@);
    }
    r
}

/// A decimal rendering is never empty.
proof fn lemma_dec_digits_nonempty(n: nat)
    ensures
        dec_digits_of(n).len() >= 1,
{
}

/// A fresh, inactive tab for `path`, named after the path's final component
/// or `New Tab` when it has none.
pub fn create_default_tab(path: String) -> (r: TabState)
    ensures
        !r.active,
        r.current_path == path,
        r.id@.len() > 4 && r.id@.subrange(0, 4) == "tab_"@,
        match file_name_spec(path@) {
            Option::Some(n) => r.name@ == n,
            Option::None => r.name@ == "New Tab"@,
        },
{
    let id = generate_tab_id();
    let name = match crate::pathtext::file_name_of(&path) {
        Some(n) => n,
        None => "New Tab".to_owned(),
    };
    TabState::new(id, name, path)
}

/// A fresh, visible pane of the given type and position, with flex weight 1.
pub fn create_default_pane(pane_type: PaneType, position: PanePosition) -> (r: PaneState)
    ensures
        r.pane_type == pane_type,
        r.position == position,
        r.size == (PaneSize { width: None, height: None, flex: Some(1u32) }),
        r.visible,
        r.id@.len() > 5 && r.id@.subrange(0, 5) == "pane_"@,
{
    PaneState {
        id: generate_pane_id(),
        pane_type,
        position,
        size: PaneSize { width: None, height: None, flex: Some(1) },
        visible: true,
    }
}

} // verus!
