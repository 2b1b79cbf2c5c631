//! Laws of the tab list: over any sequence of add, remove and set-active
//! operations, at most one tab is active, and the active-tab identifier is
//! `None` exactly when the tab list is empty. Each lemma here shows that one
//! operation's transition, as pinned down by the `ensures` of the methods in
//! `state`, preserves the invariant.
//!
//! The invariant is stated for tab lists with pairwise-distinct identifiers.
//! Adding a tab whose identifier is already in the list can leave two tabs
//! active after a later removal — the removal reactivates a neighbour of the
//! first match while the second still carries the flag — so adding requires
//! a fresh identifier, which `generate_tab_id` provides.

use vstd::prelude::*;
use crate::state::{
    activated, deactivated, find_tab, spec_tabs_after_add, spec_tabs_after_remove,
    spec_tabs_after_set_active, TabState,
};

verus! {

/// No two tabs are active.
pub open spec fn at_most_one_active(tabs: Seq<TabState>) -> bool {
    forall|i: int, j: int|
        0 <= i < tabs.len() && 0 <= j < tabs.len() && #[trigger] tabs[i].active
            && #[trigger] tabs[j].active ==> i == j
}

/// No two tabs carry the same identifier.
pub open spec fn tab_ids_unique(tabs: Seq<TabState>) -> bool {
    forall|i: int, j: int|
        #![trigger tabs[i].id, tabs[j].id]
        0 <= i < j < tabs.len() ==> tabs[i].id@ != tabs[j].id@
}

/// The tab invariant: at most one tab is active, and the active identifier
/// names an active tab when set and is clear exactly when the list is empty.
pub open spec fn tab_invariant(tabs: Seq<TabState>, active: Option<Seq<char>>) -> bool {
    &&& at_most_one_active(tabs)
    &&& match active {
        Option::Some(id) => exists|i: int|
            0 <= i < tabs.len() && #[trigger] tabs[i].active && tabs[i].id@ == id,
        Option::None => tabs.len() == 0,
    }
}

/// Under the invariant, the active identifier is `None` exactly when the tab
/// list is empty, and no two tabs are active.
pub proof fn lemma_tab_invariant_reading(tabs: Seq<TabState>, active: Option<Seq<char>>)
    requires
        tab_invariant(tabs, active),
    ensures
        at_most_one_active(tabs),
        (active is None) <==> tabs.len() == 0,
{
    if tabs.len() == 0 {
        if active is Some {
            assert(false);
        }
    }
}

/// A successful `find_tab` names the first tab with that identifier.
pub proof fn lemma_find_tab_props(tabs: Seq<TabState>, id: Seq<char>)
    requires
        find_tab(tabs, id) >= 0,
    ensures
        0 <= find_tab(tabs, id) < tabs.len(),
        tabs[find_tab(tabs, id)].id@ == id,
        forall|j: int| 0 <= j < find_tab(tabs, id) ==> #[trigger] tabs[j].id@ != id,
    decreases tabs.len(),
{
    if tabs.len() > 0 && tabs.first().id@ != id {
        lemma_find_tab_props(tabs.drop_first(), id);
        assert forall|j: int| 0 <= j < find_tab(tabs, id) implies #[trigger] tabs[j].id@ != id by {
            if j > 0 {
                assert(tabs.drop_first()[j - 1].id@ != id);
            }
        }
    }
}

/// A fresh, empty state satisfies the invariant: no tab is active and the
/// active identifier is clear.
pub proof fn lemma_initial_state_invariant()
    ensures
        tab_invariant(Seq::<TabState>::empty(), Option::<Seq<char>>::None),
        tab_ids_unique(Seq::<TabState>::empty()),
{
}

/// Adding a tab with a fresh identifier preserves the invariant and the
/// distinctness of identifiers; the new tab becomes the one active tab.
pub proof fn lemma_add_tab_preserves_invariant(tabs: Seq<TabState>, tab: TabState)
    requires
        tab_ids_unique(tabs),
        forall|i: int| 0 <= i < tabs.len() ==> #[trigger] tabs[i].id@ != tab.id@,
    ensures
        tab_invariant(spec_tabs_after_add(tabs, tab), Option::Some(tab.id@)),
        tab_ids_unique(spec_tabs_after_add(tabs, tab)),
{
    let t2 = spec_tabs_after_add(tabs, tab);
    assert(forall|i: int| 0 <= i < tabs.len() ==> t2[i] == deactivated(tabs[i]));
    assert(t2[tabs.len() as int] == activated(tab));
    assert(t2[tabs.len() as int].active && t2[tabs.len() as int].id@ == tab.id@);
}

/// Making an existing tab active preserves the invariant and the
/// distinctness of identifiers; that tab becomes the one active tab.
pub proof fn lemma_set_active_preserves_invariant(tabs: Seq<TabState>, id: Seq<char>)
    requires
        tab_ids_unique(tabs),
        find_tab(tabs, id) >= 0,
    ensures
        tab_invariant(spec_tabs_after_set_active(tabs, find_tab(tabs, id)), Option::Some(id)),
        tab_ids_unique(spec_tabs_after_set_active(tabs, find_tab(tabs, id))),
{
    lemma_find_tab_props(tabs, id);
    let idx = find_tab(tabs, id);
    let t2 = spec_tabs_after_set_active(tabs, idx);
    assert(forall|i: int|
        0 <= i < tabs.len() && i != idx ==> t2[i] == deactivated(tabs[i]));
    assert(t2[idx] == activated(tabs[idx]));
    assert(t2[idx].active && t2[idx].id@ == id);
}

/// Removing a tab preserves the invariant and the distinctness of
/// identifiers: when the removed tab was the named active one, activation
/// moves to the tab before it (or the first remaining tab) and the
/// identifier follows; when the list empties, the identifier clears; and
/// removing any other tab leaves the active tab in place.
pub proof fn lemma_remove_tab_preserves_invariant(
    tabs: Seq<TabState>,
    active: Option<Seq<char>>,
    id: Seq<char>,
)
    requires
        tab_invariant(tabs, active),
        tab_ids_unique(tabs),
        find_tab(tabs, id) >= 0,
    ensures
        tab_invariant(
            spec_tabs_after_remove(tabs, active, find_tab(tabs, id), active == Option::Some(id)).0,
            spec_tabs_after_remove(tabs, active, find_tab(tabs, id), active == Option::Some(id)).1,
        ),
        tab_ids_unique(
            spec_tabs_after_remove(tabs, active, find_tab(tabs, id), active == Option::Some(id)).0,
        ),
    decreases tabs.len(),
{
    lemma_find_tab_props(tabs, id);
    let idx = find_tab(tabs, id);
    let was_active = active == Option::Some(id);
    let t1 = tabs.remove(idx);
    assert(forall|m: int| 0 <= m < idx ==> t1[m] == tabs[m]);
    assert(forall|m: int| idx <= m < t1.len() ==> t1[m] == tabs[m + 1]);
    assert(tab_ids_unique(t1));
    if was_active {
        let w = choose|i: int|
            0 <= i < tabs.len() && #[trigger] tabs[i].active && tabs[i].id@ == id;
        assert(w == idx) by {
            if w != idx {
                assert(tabs[w].id@ == tabs[idx].id@);
            }
        }
        assert(forall|m: int| 0 <= m < tabs.len() && m != idx ==> !(#[trigger] tabs[m].active));
        assert(forall|m: int| 0 <= m < t1.len() ==> !(#[trigger] t1[m].active));
        if t1.len() > 0 {
            let nai = if idx > 0 {
                idx - 1
            } else {
                0
            };
            let t2 = t1.update(nai, activated(t1[nai]));
            assert(forall|m: int| 0 <= m < t1.len() && m != nai ==> t2[m] == t1[m]);
            assert(t2[nai] == activated(t1[nai]));
            assert(t2[nai].active && t2[nai].id@ == t1[nai].id@);
        }
    } else {
        match active {
            Option::Some(other) => {
                let w = choose|i: int|
                    0 <= i < tabs.len() && #[trigger] tabs[i].active && tabs[i].id@ == other;
                assert(w != idx) by {
                    assert(tabs[idx].id@ == id);
                }
                if w < idx {
                    assert(t1[w].active && t1[w].id@ == other);
                } else {
                    assert(t1[w - 1] == tabs[w]);
                    assert(t1[w - 1].active && t1[w - 1].id@ == other);
                }
            },
            Option::None => {
                assert(tabs.len() == 0);
                assert(false);
            },
        }
    }
}

} // verus!
