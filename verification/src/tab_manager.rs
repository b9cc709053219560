//! Tabs, their panes and which one is active or focused: the decisions
//! behind opening, splitting, focusing, zooming and closing. The terminals
//! and connections of the panes live with the caller, keyed by pane id.

use vstd::prelude::*;

use crate::ids;
use crate::pane_layout::{PaneLayout, RemoveResult, SplitDirection};

verus! {

#[derive(Clone, Copy, Debug, PartialEq, Eq, Structural)]
pub enum ConnectionState {
    Idle,
    Connecting,
    Connected,
    Disconnected,
    Failed,
}

pub struct PaneSession {
    pub id: u128,
    pub profile_id: u128,
    pub state: ConnectionState,
    pub status_message: String,
}

pub struct TabSession {
    pub id: u128,
    pub title: String,
    pub panes: Vec<PaneSession>,
    pub layout: PaneLayout,
    pub focused: u128,
    /// When set, only this leaf is shown full-size; the layout tree is kept.
    pub zoomed: Option<u128>,
}

/// Ids of the panes of a list, in order.
pub open spec fn ids_of(panes: Seq<PaneSession>) -> Seq<u128> {
    panes.map_values(|p: PaneSession| p.id)
}

impl TabSession {
    pub open spec fn pane_ids(self) -> Seq<u128> {
        ids_of(self.panes@)
    }

    /// The panes are exactly the leaves of the layout, each once; the
    /// focused pane (and the zoomed one, if any) is among them.
    pub open spec fn wf(self) -> bool {
        &&& self.layout.leaves().no_duplicates()
        &&& self.pane_ids().no_duplicates()
        &&& forall|id: u128| self.layout.leaves().contains(id) <==> self.pane_ids().contains(id)
        &&& self.layout.leaves().contains(self.focused)
        &&& self.zoomed matches Some(z) ==> self.layout.leaves().contains(z)
    }

    /// In a well-formed tab there are as many leaves as panes.
    pub proof fn lemma_wf_len(self)
        requires
            self.wf(),
        ensures
            self.layout.leaves().len() == self.panes@.len(),
    {
        let l = self.layout.leaves();
        let p = self.pane_ids();
        l.unique_seq_to_set();
        p.unique_seq_to_set();
        assert(l.to_set() =~= p.to_set());
    }

    pub fn pane_index(&self, id: u128) -> (idx: Option<usize>)
        ensures
            match idx {
                Some(i) => i < self.panes@.len() && self.panes@[i as int].id == id && forall|
                    k: int,
                | 0 <= k < i ==> self.panes@[k].id != id,
                None => !self.pane_ids().contains(id),
            },
    {
        let mut i: usize = 0;
        while i < self.panes.len()
            invariant
                0 <= i <= self.panes@.len(),
                forall|k: int| 0 <= k < i ==> self.panes@[k].id != id,
            decreases self.panes@.len() - i,
        {
            if self.panes[i].id == id {
                return Some(i);
            }
            i += 1;
        }
        proof {
            if self.pane_ids().contains(id) {
                let k = choose|k: int| 0 <= k < self.pane_ids().len() && self.pane_ids()[k] == id;
                assert(self.panes@[k].id == id);
            }
        }
        None
    }

    pub fn has_pane(&self, id: u128) -> (found: bool)
        ensures
            found == self.pane_ids().contains(id),
    {
        match self.pane_index(id) {
            Some(i) => {
                assert(self.pane_ids()[i as int] == id);
                true
            },
            None => false,
        }
    }

    /// The focused pane, if the tab holds it.
    pub fn focused_pane(&self) -> (pane: Option<&PaneSession>)
        ensures
            match pane {
                Some(p) => self.pane_ids().contains(self.focused) && p.id == self.focused
                    && exists|i: int| 0 <= i < self.panes@.len() && self.panes@[i] == *p,
                None => !self.pane_ids().contains(self.focused),
            },
    {
        match self.pane_index(self.focused) {
            Some(i) => {
                assert(self.pane_ids()[i as int] == self.focused);
                Some(&self.panes[i])
            },
            None => None,
        }
    }

    /// Connection state shown for the tab: that of its focused pane.
    pub fn display_state(&self) -> (state: ConnectionState)
        ensures
            !self.pane_ids().contains(self.focused) ==> state == ConnectionState::Idle,
            self.pane_ids().contains(self.focused) ==> exists|i: int|
                0 <= i < self.panes@.len() && self.panes@[i].id == self.focused
                    && self.panes@[i].state == state,
    {
        match self.focused_pane() {
            Some(p) => p.state,
            None => ConnectionState::Idle,
        }
    }
}


/// Outcome of closing a pane; the caller tears down what was removed.
pub enum ClosedPane {
    /// No tab holds the pane.
    NotFound,
    /// It was the last pane: the whole tab was closed.
    Tab(TabSession),
    /// The pane left its tab; `focus` is the pane now focused there.
    Pane { pane: PaneSession, focus: u128 },
}

impl TabSession {
    /// The tab with focus on `pane`; a zoomed tab shows the new focus.
    pub open spec fn focus_to(self, pane: u128) -> TabSession {
        TabSession {
            focused: pane,
            zoomed: if self.zoomed is Some {
                Some(pane)
            } else {
                None
            },
            ..self
        }
    }

    /// Toggle zoom of the focused pane (a single-pane tab never zooms).
    pub open spec fn toggle_zoom(self) -> TabSession {
        if self.layout.leaves().len() <= 1 {
            TabSession { zoomed: None, ..self }
        } else if self.zoomed == Some(self.focused) {
            TabSession { zoomed: None, ..self }
        } else {
            TabSession { zoomed: Some(self.focused), ..self }
        }
    }
}

/// Move focus to `pane` in a tab (zoom follows focus).
fn retarget_focus(tab: &mut TabSession, pane_id: u128)
    requires
        old(tab).wf(),
        old(tab).pane_ids().contains(pane_id),
    ensures
        *final(tab) == old(tab).focus_to(pane_id),
        final(tab).wf(),
{
    tab.focused = pane_id;
    if tab.zoomed.is_some() {
        tab.zoomed = Some(pane_id);
    }
}

/// First position of a tab that holds pane `pane_id`.
pub open spec fn tab_with_pane(tabs: Seq<TabSession>, pane_id: u128) -> Option<int>
    decreases tabs.len(),
{
    if tabs.len() == 0 {
        None
    } else if tabs[0].pane_ids().contains(pane_id) {
        Some(0)
    } else {
        match tab_with_pane(tabs.drop_first(), pane_id) {
            Some(p) => Some(p + 1),
            None => None,
        }
    }
}

pub proof fn lemma_tab_with_pane(tabs: Seq<TabSession>, pane_id: u128)
    ensures
        tab_with_pane(tabs, pane_id) matches Some(p) ==> {
            &&& 0 <= p < tabs.len()
            &&& tabs[p].pane_ids().contains(pane_id)
            &&& forall|k: int| 0 <= k < p ==> !(#[trigger] tabs[k].pane_ids()).contains(pane_id)
        },
        tab_with_pane(tabs, pane_id) is None ==> forall|k: int|
            0 <= k < tabs.len() ==> !(#[trigger] tabs[k].pane_ids()).contains(pane_id),
    decreases tabs.len(),
{
    if tabs.len() > 0 && !tabs[0].pane_ids().contains(pane_id) {
        lemma_tab_with_pane(tabs.drop_first(), pane_id);
        assert forall|k: int| 1 <= k < tabs.len() implies tabs[k] == tabs.drop_first()[k - 1] by {}
    }
}

proof fn lemma_tab_with_pane_at(tabs: Seq<TabSession>, pane_id: u128, i: int)
    requires
        0 <= i < tabs.len(),
        tabs[i].pane_ids().contains(pane_id),
        forall|k: int| 0 <= k < i ==> !(#[trigger] tabs[k].pane_ids()).contains(pane_id),
    ensures
        tab_with_pane(tabs, pane_id) == Some(i),
    decreases tabs.len(),
{
    if i > 0 {
        assert(!tabs[0].pane_ids().contains(pane_id));
        assert forall|k: int| 0 <= k < i - 1 implies !(#[trigger] tabs.drop_first()[k].pane_ids()).contains(pane_id) by {
            assert(tabs.drop_first()[k] == tabs[k + 1]);
        }
        lemma_tab_with_pane_at(tabs.drop_first(), pane_id, i - 1);
    }
}

/// Tabs, active tab and closed tab after closing the tab `id`: the tab that
/// took its place (or the new last one) becomes active.
pub open spec fn close_tab_spec(tabs: Seq<TabSession>, active: Option<u128>, id: u128) -> (
    Seq<TabSession>,
    Option<u128>,
    Option<TabSession>,
) {
    match tab_pos(tabs, id) {
        None => (tabs, active, None),
        Some(p) => {
            let rest = tabs.remove(p);
            (
                rest,
                if rest.len() == 0 {
                    None
                } else {
                    Some(
                        rest[if p < rest.len() {
                            p
                        } else {
                            rest.len() - 1
                        }].id,
                    )
                },
                Some(tabs[p]),
            )
        },
    }
}

/// Closing the tab at position `p` keeps the other tabs in their order and
/// hands back the closed one; the tab that took its place becomes active
/// (the next one), or, when the last tab was closed, the one before it;
/// closing the only tab leaves none active.
pub proof fn law_close_tab_activates_neighbour(tabs: Seq<TabSession>, active: Option<u128>, p: int)
    requires
        0 <= p < tabs.len(),
        distinct_tab_ids(tabs),
    ensures
        ({
            let (rest, act, gone) = close_tab_spec(tabs, active, tabs[p].id);
            &&& rest == tabs.remove(p)
            &&& gone == Some(tabs[p])
            &&& p + 1 < tabs.len() ==> act == Some(tabs[p + 1].id)
            &&& p + 1 == tabs.len() && p > 0 ==> act == Some(tabs[p - 1].id)
            &&& tabs.len() == 1 ==> act is None
        }),
{
    lemma_tab_pos(tabs, tabs[p].id, p);
    let rest = tabs.remove(p);
    if p + 1 < tabs.len() {
        assert(rest[p] == tabs[p + 1]);
    }
    if p + 1 == tabs.len() && p > 0 {
        assert(rest[p - 1] == tabs[p - 1]);
    }
}

/// Active tab after "next tab" (wrapping).
pub open spec fn next_active(tabs: Seq<TabSession>, active: Option<u128>) -> Option<u128> {
    if tabs.len() == 0 {
        active
    } else {
        let i = match active {
            Some(id) => match tab_pos(tabs, id) {
                Some(p) => p,
                None => 0,
            },
            None => 0,
        };
        Some(tabs[(i + 1) % (tabs.len() as int)].id)
    }
}

/// Active tab after "previous tab" (wrapping).
pub open spec fn prev_active(tabs: Seq<TabSession>, active: Option<u128>) -> Option<u128> {
    if tabs.len() == 0 {
        active
    } else {
        let i = match active {
            Some(id) => match tab_pos(tabs, id) {
                Some(p) => p,
                None => 0,
            },
            None => 0,
        };
        Some(
            tabs[if i == 0 {
                tabs.len() - 1
            } else {
                i - 1
            }].id,
        )
    }
}

/// Next tab moves from the tab at position `p` to the one right of it, and
/// from the last tab to the first; previous tab moves to the one left of
/// it, and from the first to the last.
pub proof fn law_next_prev_step(tabs: Seq<TabSession>, p: int)
    requires
        0 <= p < tabs.len(),
        distinct_tab_ids(tabs),
    ensures
        p + 1 < tabs.len() ==> next_active(tabs, Some(tabs[p].id)) == Some(tabs[p + 1].id),
        p + 1 == tabs.len() ==> next_active(tabs, Some(tabs[p].id)) == Some(tabs[0].id),
        p > 0 ==> prev_active(tabs, Some(tabs[p].id)) == Some(tabs[p - 1].id),
        p == 0 ==> prev_active(tabs, Some(tabs[p].id)) == Some(tabs[tabs.len() - 1].id),
{
    lemma_tab_pos(tabs, tabs[p].id, p);
    let n = tabs.len() as int;
    if p + 1 < n {
        vstd::arithmetic::div_mod::lemma_small_mod((p + 1) as nat, n as nat);
    } else {
        vstd::arithmetic::div_mod::lemma_mod_self_0(n);
    }
}

/// Tab ids are pairwise distinct.
pub open spec fn distinct_tab_ids(tabs: Seq<TabSession>) -> bool {
    forall|i: int, j: int|
        0 <= i < tabs.len() && 0 <= j < tabs.len() && i != j ==> tabs[i].id != tabs[j].id
}

/// Next tab, then previous tab, comes back to the tab that was active.
pub proof fn law_next_then_prev(tabs: Seq<TabSession>, active: u128)
    requires
        distinct_tab_ids(tabs),
        tab_pos(tabs, active) is Some,
    ensures
        prev_active(tabs, next_active(tabs, Some(active))) == Some(active),
{
    lemma_tab_pos_some(tabs, active);
    let p = tab_pos(tabs, active)->0;
    let n = tabs.len() as int;
    let q = (p + 1) % n;
    assert(0 <= q < n);
    let nid = tabs[q].id;
    assert forall|k: int| 0 <= k < q implies tabs[k].id != nid by {}
    lemma_tab_pos(tabs, nid, q);
    if p + 1 < n {
        vstd::arithmetic::div_mod::lemma_small_mod((p + 1) as nat, n as nat);
    } else {
        vstd::arithmetic::div_mod::lemma_mod_self_0(n);
    }
}

/// Previous tab, then next tab, comes back to the tab that was active.
pub proof fn law_prev_then_next(tabs: Seq<TabSession>, active: u128)
    requires
        distinct_tab_ids(tabs),
        tab_pos(tabs, active) is Some,
    ensures
        next_active(tabs, prev_active(tabs, Some(active))) == Some(active),
{
    lemma_tab_pos_some(tabs, active);
    let p = tab_pos(tabs, active)->0;
    let n = tabs.len() as int;
    let q = if p == 0 { n - 1 } else { p - 1 };
    let pid = tabs[q].id;
    assert forall|k: int| 0 <= k < q implies tabs[k].id != pid by {}
    lemma_tab_pos(tabs, pid, q);
    if p == 0 {
        vstd::arithmetic::div_mod::lemma_mod_self_0(n);
    } else {
        vstd::arithmetic::div_mod::lemma_small_mod((q + 1) as nat, n as nat);
    }
}

/// Removing the same id from two duplicate-free sequences with the same
/// members keeps them duplicate-free with the same members.
pub proof fn lemma_remove_both(l: Seq<u128>, pids: Seq<u128>, x: u128, li: int, pi: int)
    requires
        l.no_duplicates(),
        pids.no_duplicates(),
        forall|z: u128| l.contains(z) <==> pids.contains(z),
        0 <= li < l.len(),
        0 <= pi < pids.len(),
        l[li] == x,
        pids[pi] == x,
    ensures
        l.remove(li).no_duplicates(),
        pids.remove(pi).no_duplicates(),
        forall|z: u128| l.remove(li).contains(z) <==> (l.contains(z) && z != x),
        forall|z: u128| l.remove(li).contains(z) <==> pids.remove(pi).contains(z),
{
    let l2 = l.remove(li);
    let p2 = pids.remove(pi);
    assert forall|a: int, b: int| 0 <= a < l2.len() && 0 <= b < l2.len() && a != b implies l2[a]
        != l2[b] by {
        let sa = if a < li { a } else { a + 1 };
        let sb = if b < li { b } else { b + 1 };
        assert(l2[a] == l[sa] && l2[b] == l[sb]);
    }
    assert forall|a: int, b: int| 0 <= a < p2.len() && 0 <= b < p2.len() && a != b implies p2[a]
        != p2[b] by {
        let sa = if a < pi { a } else { a + 1 };
        let sb = if b < pi { b } else { b + 1 };
        assert(p2[a] == pids[sa] && p2[b] == pids[sb]);
    }
    assert forall|z: u128| l2.contains(z) <==> (l.contains(z) && z != x) by {
        if l2.contains(z) {
            let a = choose|a: int| 0 <= a < l2.len() && l2[a] == z;
            let sa = if a < li { a } else { a + 1 };
            assert(l[sa] == z);
            assert(sa != li);
        }
        if l.contains(z) && z != x {
            let b = choose|b: int| 0 <= b < l.len() && l[b] == z;
            let b2 = if b < li { b } else { b - 1 };
            assert(l2[b2] == z);
        }
    }
    assert forall|z: u128| p2.contains(z) <==> (pids.contains(z) && z != x) by {
        if p2.contains(z) {
            let a = choose|a: int| 0 <= a < p2.len() && p2[a] == z;
            let sa = if a < pi { a } else { a + 1 };
            assert(pids[sa] == z);
            assert(sa != pi);
        }
        if pids.contains(z) && z != x {
            let b = choose|b: int| 0 <= b < pids.len() && pids[b] == z;
            let b2 = if b < pi { b } else { b - 1 };
            assert(p2[b2] == z);
        }
    }
}

/// Toggling zoom twice gives back the tab, whenever its zoom state is one
/// that a toggle produces (no zoom, or the focused pane zoomed).
pub proof fn law_toggle_zoom_twice(t: TabSession)
    requires
        t.zoomed is None || t.zoomed == Some(t.focused),
        t.layout.leaves().len() > 1,
    ensures
        t.toggle_zoom().toggle_zoom() == t,
{
}

pub struct TabManager {
    pub tabs: Vec<TabSession>,
    pub active: Option<u128>,
    pub show_line_numbers: bool,
    /// SSH passwords given once in this run, by profile id (the latest
    /// entry for a profile counts). Held in memory only, so that splits of
    /// such a session connect without asking again.
    pub session_passwords: Vec<(u128, String)>,
}

/// The session password remembered for profile `pid`: its latest entry.
pub open spec fn session_password_of(list: Seq<(u128, String)>, pid: u128) -> Option<Seq<char>>
    decreases list.len(),
{
    if list.len() == 0 {
        None
    } else if list.last().0 == pid {
        Some(list.last().1@)
    } else {
        session_password_of(list.drop_last(), pid)
    }
}

/// A password remembered for a profile is the one found for it, and
/// remembering a password for another profile leaves it found.
pub proof fn law_session_password_kept(list: Seq<(u128, String)>, pid: u128, pw: String, other: u128, pw2: String)
    requires
        other != pid,
    ensures
        session_password_of(list.push((pid, pw)), pid) == Some(pw@),
        session_password_of(list.push((pid, pw)).push((other, pw2)), pid) == Some(pw@),
{
    assert(list.push((pid, pw)).push((other, pw2)).drop_last() =~= list.push((pid, pw)));
}

/// First position of a tab with id `id` (`None` when there is none).
pub open spec fn tab_pos(tabs: Seq<TabSession>, id: u128) -> Option<int>
    decreases tabs.len(),
{
    if tabs.len() == 0 {
        None
    } else if tabs[0].id == id {
        Some(0)
    } else {
        match tab_pos(tabs.drop_first(), id) {
            Some(p) => Some(p + 1),
            None => None,
        }
    }
}

pub proof fn lemma_tab_pos_some(tabs: Seq<TabSession>, id: u128)
    ensures
        tab_pos(tabs, id) matches Some(p) ==> {
            &&& 0 <= p < tabs.len()
            &&& tabs[p].id == id
            &&& forall|k: int| 0 <= k < p ==> tabs[k].id != id
        },
        tab_pos(tabs, id) is None ==> forall|k: int| 0 <= k < tabs.len() ==> tabs[k].id != id,
    decreases tabs.len(),
{
    if tabs.len() > 0 && tabs[0].id != id {
        lemma_tab_pos_some(tabs.drop_first(), id);
        assert forall|k: int| 1 <= k < tabs.len() implies tabs[k].id == tabs.drop_first()[k - 1].id by {}
    }
}

proof fn lemma_tab_pos(tabs: Seq<TabSession>, id: u128, i: int)
    requires
        0 <= i < tabs.len(),
        tabs[i].id == id,
        forall|k: int| 0 <= k < i ==> tabs[k].id != id,
    ensures
        tab_pos(tabs, id) == Some(i),
    decreases tabs.len(),
{
    if i > 0 {
        assert(tabs[0].id != id);
        assert forall|k: int| 0 <= k < i - 1 implies tabs.drop_first()[k].id != id by {
            assert(tabs.drop_first()[k] == tabs[k + 1]);
        }
        lemma_tab_pos(tabs.drop_first(), id, i - 1);
    }
}

proof fn lemma_tab_pos_none(tabs: Seq<TabSession>, id: u128)
    requires
        forall|k: int| 0 <= k < tabs.len() ==> tabs[k].id != id,
    ensures
        tab_pos(tabs, id) is None,
    decreases tabs.len(),
{
    if tabs.len() > 0 {
        assert forall|k: int| 0 <= k < tabs.len() - 1 implies tabs.drop_first()[k].id != id by {
            assert(tabs.drop_first()[k] == tabs[k + 1]);
        }
        lemma_tab_pos_none(tabs.drop_first(), id);
    }
}

/// What closing pane `pane_id` does to the manager `o`, giving `f` and
/// reporting `closed`: nothing when no tab holds it; else its split
/// collapses and focus moves to the sibling (zoom dropped when the zoomed
/// pane left or one pane remains), or, for the last pane, the tab closes.
pub open spec fn closed_pane_effect(o: TabManager, f: TabManager, pane_id: u128, closed: ClosedPane) -> bool {
    match tab_with_pane(o.tabs@, pane_id) {
        None => closed is NotFound && f.tabs@ == o.tabs@
            && f.active == o.active,
        Some(k) => {
            let t = o.tabs@[k];
            let (l2, r) = t.layout.remove_spec(pane_id);
            match r {
                RemoveResult::Collapsed { focus } => exists|j: int|
                    {
                        &&& 0 <= j < t.panes@.len()
                        &&& t.panes@[j].id == pane_id
                        &&& closed == ClosedPane::Pane { pane: t.panes@[j], focus }
                        &&& f.active == o.active
                        &&& f.tabs@ == o.tabs@.update(
                            k,
                            TabSession {
                                layout: l2,
                                panes: f.tabs@[k].panes,
                                focused: focus,
                                zoomed: if t.zoomed == Some(pane_id) || l2.leaves().len()
                                    <= 1 {
                                    None
                                } else {
                                    t.zoomed
                                },
                                ..t
                            },
                        )
                        &&& f.tabs@[k].panes@ == t.panes@.remove(j)
                    },
                _ => {
                    let t1 = TabSession { focused: pane_id, ..t };
                    let (tabs2, act2, gone) = close_tab_spec(
                        o.tabs@.update(k, t1),
                        o.active,
                        t.id,
                    );
                    &&& r is RemovedRoot
                    &&& f.tabs@ == tabs2
                    &&& f.active == act2
                    &&& gone matches Some(g) && closed == ClosedPane::Tab(g)
                },
            }
        },
    }
}

/// `snap` remembers `tabs` for the next start: per tab, in order, its
/// title and the profile of its focused pane (the nil id when the focused
/// pane is gone).
pub open spec fn is_snapshot(tabs: Seq<TabSession>, snap: Seq<(u128, Option<String>)>) -> bool {
    &&& snap.len() == tabs.len()
    &&& forall|i: int|
        #![trigger tabs[i]]
        0 <= i < tabs.len() ==> {
            let t = tabs[i];
            &&& (snap[i].1 matches Some(title) && title@ == t.title@)
            &&& (!t.pane_ids().contains(t.focused) ==> snap[i].0 == ids::NIL_ID)
            &&& (t.pane_ids().contains(t.focused) ==> exists|k: int|
                0 <= k < t.panes@.len() && t.panes@[k].id == t.focused && t.panes@[k].profile_id
                    == snap[i].0)
        }
}

impl TabManager {
    pub open spec fn wf(self) -> bool {
        forall|i: int| 0 <= i < self.tabs@.len() ==> (#[trigger] self.tabs@[i]).wf()
    }

    /// Position of the active tab, if it exists.
    pub open spec fn active_pos(self) -> Option<int> {
        match self.active {
            Some(id) => tab_pos(self.tabs@, id),
            None => None,
        }
    }

    pub fn new(show_line_numbers: bool) -> (m: Self)
        ensures
            m.tabs@.len() == 0,
            m.active is None,
            m.show_line_numbers == show_line_numbers,
            m.session_passwords@.len() == 0,
            m.wf(),
    {
        TabManager { tabs: Vec::new(), active: None, show_line_numbers, session_passwords: Vec::new() }
    }

    /// Keeps `password`, given once for SSH profile `pid`, for later splits.
    pub fn remember_session_password(&mut self, pid: u128, password: String)
        ensures
            final(self).session_passwords@ == old(self).session_passwords@.push((pid, password)),
            session_password_of(final(self).session_passwords@, pid) == Some(password@),
            final(self).tabs == old(self).tabs,
            final(self).active == old(self).active,
            final(self).show_line_numbers == old(self).show_line_numbers,
    {
        self.session_passwords.push((pid, password));
        assert(self.session_passwords@.drop_last() =~= old(self).session_passwords@);
    }

    /// The password remembered for profile `pid` in this run, if any.
    pub fn session_password(&self, pid: u128) -> (pw: Option<String>)
        ensures
            match pw {
                Some(p) => session_password_of(self.session_passwords@, pid) == Some(p@),
                None => session_password_of(self.session_passwords@, pid) is None,
            },
    {
        let mut i: usize = self.session_passwords.len();
        assert(self.session_passwords@.subrange(0, i as int) =~= self.session_passwords@);
        while i > 0
            invariant
                0 <= i <= self.session_passwords@.len(),
                session_password_of(self.session_passwords@, pid) == session_password_of(
                    self.session_passwords@.subrange(0, i as int),
                    pid,
                ),
            decreases i,
        {
            let ghost sub = self.session_passwords@.subrange(0, i as int);
            if self.session_passwords[i - 1].0 == pid {
                let p = self.session_passwords[i - 1].1.clone();
                return Some(p);
            }
            assert(sub.drop_last() =~= self.session_passwords@.subrange(0, i - 1));
            i -= 1;
        }
        None
    }

    pub fn tab_index(&self, id: u128) -> (idx: Option<usize>)
        ensures
            match idx {
                Some(i) => tab_pos(self.tabs@, id) == Some(i as int) && i < self.tabs@.len()
                    && self.tabs@[i as int].id == id,
                None => tab_pos(self.tabs@, id) is None,
            },
    {
        let mut i: usize = 0;
        while i < self.tabs.len()
            invariant
                0 <= i <= self.tabs@.len(),
                forall|k: int| 0 <= k < i ==> self.tabs@[k].id != id,
            decreases self.tabs@.len() - i,
        {
            if self.tabs[i].id == id {
                proof {
                    lemma_tab_pos(self.tabs@, id, i as int);
                }
                return Some(i);
            }
            i += 1;
        }
        proof {
            lemma_tab_pos_none(self.tabs@, id);
        }
        None
    }

    pub fn active_tab_index(&self) -> (idx: Option<usize>)
        ensures
            match idx {
                Some(i) => self.active_pos() == Some(i as int) && i < self.tabs@.len()
                    && self.active == Some(self.tabs@[i as int].id),
                None => self.active_pos() is None,
            },
    {
        match self.active {
            Some(id) => self.tab_index(id),
            None => None,
        }
    }

    /// Position of the active tab, 0 when there is none.
    pub fn active_index(&self) -> (i: usize)
        ensures
            i == match self.active_pos() {
                Some(p) => p,
                None => 0,
            },
    {
        match self.active_tab_index() {
            Some(i) => i,
            None => 0,
        }
    }

    pub fn active_tab(&self) -> (tab: Option<&TabSession>)
        ensures
            match tab {
                Some(t) => self.active_pos() matches Some(p) && 0 <= p < self.tabs@.len() && *t
                    == self.tabs@[p],
                None => self.active_pos() is None,
            },
    {
        match self.active_tab_index() {
            Some(i) => Some(&self.tabs[i]),
            None => None,
        }
    }


    /// The active tab and the profile of its focused pane: what a split of
    /// the focused pane opens again.
    pub fn split_target(&self) -> (target: Option<(usize, u128)>)
        ensures
            match target {
                Some((i, profile_id)) => {
                    &&& self.active_pos() == Some(i as int)
                    &&& i < self.tabs@.len()
                    &&& exists|k: int|
                        0 <= k < self.tabs@[i as int].panes@.len()
                            && self.tabs@[i as int].panes@[k].id == self.tabs@[i as int].focused
                            && self.tabs@[i as int].panes@[k].profile_id == profile_id
                },
                None => self.active_pos() matches Some(p) ==> !self.tabs@[p].pane_ids().contains(
                    self.tabs@[p].focused,
                ),
            },
    {
        proof {
            if let Some(id) = self.active {
                lemma_tab_pos_some(self.tabs@, id);
            }
        }
        let i = match self.active_tab_index() {
            Some(i) => i,
            None => {
                return None;
            },
        };
        match self.tabs[i].focused_pane() {
            Some(p) => Some((i, p.profile_id)),
            None => None,
        }
    }

    /// Add `pane` beside the focused pane of tab `tab_idx` (split in
    /// `direction`) and focus it.
    pub fn insert_split(&mut self, tab_idx: usize, direction: SplitDirection, pane: PaneSession) -> (split: bool)
        requires
            old(self).wf(),
            tab_idx < old(self).tabs@.len(),
            !old(self).tabs@[tab_idx as int].pane_ids().contains(pane.id),
        ensures
            final(self).session_passwords == old(self).session_passwords,
            split,
            final(self).wf(),
            final(self).active == old(self).active,
            final(self).show_line_numbers == old(self).show_line_numbers,
            final(self).tabs@.len() == old(self).tabs@.len(),
            forall|j: int|
                0 <= j < old(self).tabs@.len() && j != tab_idx ==> final(self).tabs@[j] == old(
                    self,
                ).tabs@[j],
            ({
                let t = final(self).tabs@[tab_idx as int];
                let o = old(self).tabs@[tab_idx as int];
                &&& t.id == o.id
                &&& t.title == o.title
                &&& t.zoomed == o.zoomed
                &&& t.panes@ == o.panes@.push(pane)
                &&& t.focused == pane.id
                &&& exists|sid: u128|
                    sid != ids::NIL_ID && t.layout == o.layout.split_spec(
                        o.focused,
                        direction,
                        pane.id,
                        sid,
                    )
            }),
    {
        let mut tab = self.tabs.remove(tab_idx);
        assert(tab.wf());
        let new_id = pane.id;
        let focused = tab.focused;
        let ghost old_tab = tab;
        tab.panes.push(pane);
        let split = tab.layout.split(focused, direction, new_id);
        tab.focused = new_id;
        proof {
            let sid = choose|sid: u128|
                sid != ids::NIL_ID && tab.layout == old_tab.layout.split_spec(
                    focused,
                    direction,
                    new_id,
                    sid,
                );
            assert(!old_tab.layout.leaves().contains(new_id));
            crate::pane_layout::law_split_leaves(old_tab.layout, focused, direction, new_id, sid);
            crate::pane_layout::lemma_replace_first_pair(
                old_tab.layout.leaves(),
                focused,
                new_id,
                direction.spec_new_is_first(),
            );
            assert(tab.pane_ids() =~= old_tab.pane_ids().push(new_id));
            assert forall|z: u128| tab.pane_ids().contains(z) <==> (old_tab.pane_ids().contains(z)
                || z == new_id) by {
                if tab.pane_ids().contains(z) {
                    let k = choose|k: int| 0 <= k < tab.pane_ids().len() && tab.pane_ids()[k] == z;
                    if k < old_tab.pane_ids().len() {
                        assert(old_tab.pane_ids()[k] == z);
                    }
                }
                if old_tab.pane_ids().contains(z) {
                    let k = choose|k: int| 0 <= k < old_tab.pane_ids().len() && old_tab.pane_ids()[k] == z;
                    assert(tab.pane_ids()[k] == z);
                }
                if z == new_id {
                    assert(tab.pane_ids()[old_tab.pane_ids().len() as int] == z);
                }
            }
            assert(tab.pane_ids().no_duplicates()) by {
                assert forall|p: int, q: int|
                    0 <= p < tab.pane_ids().len() && 0 <= q < tab.pane_ids().len() && p != q
                    implies tab.pane_ids()[p] != tab.pane_ids()[q] by {
                    let n = old_tab.pane_ids().len();
                    if p == n {
                        assert(old_tab.pane_ids().contains(tab.pane_ids()[q]) || q == n);
                        if q < n {
                            assert(old_tab.pane_ids()[q] == tab.pane_ids()[q]);
                        }
                    } else if q == n {
                        assert(old_tab.pane_ids()[p] == tab.pane_ids()[p]);
                    } else {
                        assert(old_tab.pane_ids()[p] == tab.pane_ids()[p]);
                        assert(old_tab.pane_ids()[q] == tab.pane_ids()[q]);
                    }
                }
            }
            assert(tab.wf());
        }
        self.tabs.insert(tab_idx, tab);
        proof {
            assert forall|i: int| 0 <= i < self.tabs@.len() implies (#[trigger] self.tabs@[i]).wf() by {
                if i != tab_idx {
                    assert(self.tabs@[i] == old(self).tabs@[i]);
                }
            }
        }
        split
    }


    /// Focus pane `pane_id` of the active tab. Returns whether it moved.
    pub fn focus_pane(&mut self, pane_id: u128) -> (moved: bool)
        requires
            old(self).wf(),
        ensures
            final(self).session_passwords == old(self).session_passwords,
            final(self).wf(),
            final(self).active == old(self).active,
            final(self).show_line_numbers == old(self).show_line_numbers,
            match old(self).active_pos() {
                Some(p) => if old(self).tabs@[p].pane_ids().contains(pane_id) {
                    moved && final(self).tabs@ == old(self).tabs@.update(
                        p,
                        old(self).tabs@[p].focus_to(pane_id),
                    )
                } else {
                    !moved && final(self).tabs@ == old(self).tabs@
                },
                None => !moved && final(self).tabs@ == old(self).tabs@,
            },
    {
        proof {
            if let Some(id) = self.active {
                lemma_tab_pos_some(self.tabs@, id);
            }
        }
        let i = match self.active_tab_index() {
            Some(i) => i,
            None => {
                return false;
            },
        };
        if !self.tabs[i].has_pane(pane_id) {
            return false;
        }
        let mut tab = self.tabs.remove(i);
        assert(tab.wf());
        retarget_focus(&mut tab, pane_id);
        self.tabs.insert(i, tab);
        proof {
            assert(self.tabs@ =~= old(self).tabs@.update(i as int, old(self).tabs@[i as int].focus_to(pane_id)));
            assert forall|k: int| 0 <= k < self.tabs@.len() implies (#[trigger] self.tabs@[k]).wf() by {
                if k != i {
                    assert(self.tabs@[k] == old(self).tabs@[k]);
                }
            }
        }
        true
    }

    /// Focus pane `pane_id` in the first tab that holds it and make that tab
    /// active. Returns whether a tab holds it.
    pub fn focus_pane_id(&mut self, pane_id: u128) -> (found: bool)
        requires
            old(self).wf(),
        ensures
            final(self).session_passwords == old(self).session_passwords,
            final(self).wf(),
            final(self).show_line_numbers == old(self).show_line_numbers,
            found == exists|k: int|
                0 <= k < old(self).tabs@.len() && old(self).tabs@[k].pane_ids().contains(pane_id),
            !found ==> final(self).tabs@ == old(self).tabs@ && final(self).active == old(
                self,
            ).active,
            found ==> exists|k: int|
                {
                    &&& 0 <= k < old(self).tabs@.len()
                    &&& old(self).tabs@[k].pane_ids().contains(pane_id)
                    &&& forall|m: int|
                        0 <= m < k ==> !(#[trigger] old(self).tabs@[m].pane_ids()).contains(pane_id)
                    &&& final(self).tabs@ == old(self).tabs@.update(
                        k,
                        old(self).tabs@[k].focus_to(pane_id),
                    )
                    &&& final(self).active == Some(old(self).tabs@[k].id)
                },
    {
        let mut i: usize = 0;
        while i < self.tabs.len()
            invariant
                self.tabs@ == old(self).tabs@,
                self.active == old(self).active,
                self.show_line_numbers == old(self).show_line_numbers,
                self.session_passwords == old(self).session_passwords,
                self.wf(),
                0 <= i <= self.tabs@.len(),
                forall|m: int| 0 <= m < i ==> !(#[trigger] self.tabs@[m].pane_ids()).contains(pane_id),
            decreases self.tabs@.len() - i,
        {
            if self.tabs[i].has_pane(pane_id) {
                let mut tab = self.tabs.remove(i);
                assert(tab.wf());
                let tab_id = tab.id;
                retarget_focus(&mut tab, pane_id);
                self.tabs.insert(i, tab);
                self.active = Some(tab_id);
                proof {
                    assert(self.tabs@ =~= old(self).tabs@.update(i as int, old(self).tabs@[i as int].focus_to(pane_id)));
                    assert forall|k: int| 0 <= k < self.tabs@.len() implies (#[trigger] self.tabs@[k]).wf() by {
                        if k != i {
                            assert(self.tabs@[k] == old(self).tabs@[k]);
                        }
                    }
                }
                return true;
            }
            i += 1;
        }
        false
    }

    /// Set the ratio (per mille) of split `split_id` in the active tab.
    pub fn set_split_ratio(&mut self, split_id: u128, ratio: u32) -> (found: bool)
        requires
            old(self).wf(),
        ensures
            final(self).session_passwords == old(self).session_passwords,
            final(self).wf(),
            final(self).active == old(self).active,
            final(self).show_line_numbers == old(self).show_line_numbers,
            match old(self).active_pos() {
                Some(p) => {
                    &&& found == old(self).tabs@[p].layout.split_ids().contains(split_id)
                    &&& final(self).tabs@ == old(self).tabs@.update(
                        p,
                        TabSession {
                            layout: old(self).tabs@[p].layout.set_ratio_spec(split_id, ratio),
                            ..old(self).tabs@[p]
                        },
                    )
                },
                None => !found && final(self).tabs@ == old(self).tabs@,
            },
    {
        proof {
            if let Some(id) = self.active {
                lemma_tab_pos_some(self.tabs@, id);
            }
        }
        let i = match self.active_tab_index() {
            Some(i) => i,
            None => {
                return false;
            },
        };
        let mut tab = self.tabs.remove(i);
        assert(tab.wf());
        let ghost old_tab = tab;
        let found = tab.layout.set_ratio(split_id, ratio);
        proof {
            crate::pane_layout::law_set_ratio_keeps_shape(old_tab.layout, split_id, ratio);
            assert(tab.wf());
        }
        self.tabs.insert(i, tab);
        proof {
            assert(self.tabs@ =~= old(self).tabs@.update(
                i as int,
                TabSession {
                    layout: old(self).tabs@[i as int].layout.set_ratio_spec(split_id, ratio),
                    ..old(self).tabs@[i as int]
                },
            ));
            assert forall|k: int| 0 <= k < self.tabs@.len() implies (#[trigger] self.tabs@[k]).wf() by {
                if k != i {
                    assert(self.tabs@[k] == old(self).tabs@[k]);
                }
            }
        }
        found
    }

    /// The pane that lies in `direction` from the focused pane of the
    /// active tab (see `PaneLayout::adjacent_leaf`).
    pub fn adjacent_in_direction(&self, direction: SplitDirection) -> (next: Option<u128>)
        ensures
            match self.active_pos() {
                Some(p) => self.tabs@[p].layout.is_adjacent_result(
                    self.tabs@[p].focused,
                    direction,
                    next,
                ),
                None => next is None,
            },
    {
        proof {
            if let Some(id) = self.active {
                lemma_tab_pos_some(self.tabs@, id);
            }
        }
        match self.active_tab() {
            Some(t) => t.layout.adjacent_leaf(t.focused, direction),
            None => None,
        }
    }

    /// Move focus to the pane in `direction` in the active tab. Returns the
    /// newly focused pane.
    pub fn activate_pane_in_direction(&mut self, direction: SplitDirection) -> (next: Option<u128>)
        requires
            old(self).wf(),
        ensures
            final(self).session_passwords == old(self).session_passwords,
            final(self).wf(),
            final(self).active == old(self).active,
            match old(self).active_pos() {
                Some(p) => {
                    &&& old(self).tabs@[p].layout.is_adjacent_result(
                        old(self).tabs@[p].focused,
                        direction,
                        next,
                    )
                    &&& match next {
                        Some(n) => final(self).tabs@ == old(self).tabs@.update(
                            p,
                            old(self).tabs@[p].focus_to(n),
                        ),
                        None => final(self).tabs@ == old(self).tabs@,
                    }
                },
                None => next is None && final(self).tabs@ == old(self).tabs@,
            },
    {
        proof {
            if let Some(id) = self.active {
                lemma_tab_pos_some(self.tabs@, id);
            }
        }
        let next = self.adjacent_in_direction(direction);
        if let Some(n) = next {
            proof {
                let p = self.active_pos()->0;
                self.tabs@[p].layout.lemma_adjacent_is_leaf(self.tabs@[p].focused, direction, next);
                assert(self.tabs@[p].wf());
            }
            self.focus_pane(n);
        }
        next
    }

    /// Toggle zoom of the focused pane in the active tab.
    pub fn toggle_zoom_focused(&mut self)
        requires
            old(self).wf(),
        ensures
            final(self).session_passwords == old(self).session_passwords,
            final(self).wf(),
            final(self).active == old(self).active,
            final(self).show_line_numbers == old(self).show_line_numbers,
            match old(self).active_pos() {
                Some(p) => final(self).tabs@ == old(self).tabs@.update(
                    p,
                    old(self).tabs@[p].toggle_zoom(),
                ),
                None => final(self).tabs@ == old(self).tabs@,
            },
    {
        proof {
            if let Some(id) = self.active {
                lemma_tab_pos_some(self.tabs@, id);
            }
        }
        let i = match self.active_tab_index() {
            Some(i) => i,
            None => {
                return;
            },
        };
        let mut tab = self.tabs.remove(i);
        assert(tab.wf());
        proof {
            tab.layout.lemma_leaves_nonempty();
            tab.lemma_wf_len();
        }
        let _n = tab.panes.len();
        if tab.layout.leaf_count() <= 1 {
            tab.zoomed = None;
        } else if tab.zoomed == Some(tab.focused) {
            tab.zoomed = None;
        } else {
            tab.zoomed = Some(tab.focused);
        }
        self.tabs.insert(i, tab);
        proof {
            assert(self.tabs@ =~= old(self).tabs@.update(i as int, old(self).tabs@[i as int].toggle_zoom()));
            assert forall|k: int| 0 <= k < self.tabs@.len() implies (#[trigger] self.tabs@[k]).wf() by {
                if k != i {
                    assert(self.tabs@[k] == old(self).tabs@[k]);
                }
            }
        }
    }

    /// The active tab shows one pane zoomed.
    pub fn active_zoomed(&self) -> (z: bool)
        requires
            self.wf(),
        ensures
            z == (self.active_pos() matches Some(p) && self.tabs@[p].zoomed is Some
                && self.tabs@[p].layout.leaves().len() > 1),
    {
        proof {
            if let Some(id) = self.active {
                lemma_tab_pos_some(self.tabs@, id);
            }
        }
        match self.active_tab() {
            Some(t) => {
                assert(t.wf());
                proof {
                    t.lemma_wf_len();
                }
                let _n = t.panes.len();
                t.zoomed.is_some() && t.layout.leaf_count() > 1
            },
            None => false,
        }
    }

    /// Zoom can be toggled in the active tab.
    pub fn can_zoom_active(&self) -> (c: bool)
        requires
            self.wf(),
        ensures
            c == (self.active_pos() matches Some(p) && (self.tabs@[p].layout.leaves().len() > 1
                || self.tabs@[p].zoomed is Some)),
    {
        proof {
            if let Some(id) = self.active {
                lemma_tab_pos_some(self.tabs@, id);
            }
        }
        match self.active_tab() {
            Some(t) => {
                assert(t.wf());
                proof {
                    t.lemma_wf_len();
                }
                let _n = t.panes.len();
                t.layout.leaf_count() > 1 || t.zoomed.is_some()
            },
            None => false,
        }
    }


    /// Close the tab `id`; the tab after it (or the new last tab) becomes
    /// active. Returns the closed tab for teardown.
    pub fn close_tab(&mut self, id: u128) -> (closed: Option<TabSession>)
        requires
            old(self).wf(),
        ensures
            final(self).session_passwords == old(self).session_passwords,
            final(self).wf(),
            final(self).show_line_numbers == old(self).show_line_numbers,
            (final(self).tabs@, final(self).active, closed) == close_tab_spec(
                old(self).tabs@,
                old(self).active,
                id,
            ),
    {
        proof {
            lemma_tab_pos_some(self.tabs@, id);
        }
        let pos = match self.tab_index(id) {
            Some(p) => p,
            None => {
                return None;
            },
        };
        let tab = self.tabs.remove(pos);
        if self.tabs.len() == 0 {
            self.active = None;
        } else {
            let last = self.tabs.len() - 1;
            let k = if pos < last {
                pos
            } else {
                last
            };
            self.active = Some(self.tabs[k].id);
        }
        proof {
            assert forall|k: int| 0 <= k < self.tabs@.len() implies (#[trigger] self.tabs@[k]).wf() by {
                if k < pos {
                    assert(self.tabs@[k] == old(self).tabs@[k]);
                } else {
                    assert(self.tabs@[k] == old(self).tabs@[k + 1]);
                }
            }
        }
        Some(tab)
    }

    /// Close pane `pane_id` (the whole tab when it is the last pane): its
    /// split collapses and focus moves to the sibling; zoom is dropped when
    /// the zoomed pane left or a single pane remains.
    pub fn close_pane(&mut self, pane_id: u128) -> (closed: ClosedPane)
        requires
            old(self).wf(),
        ensures
            final(self).session_passwords == old(self).session_passwords,
            final(self).wf(),
            final(self).show_line_numbers == old(self).show_line_numbers,
            closed_pane_effect(*old(self), *final(self), pane_id, closed),
    {
        let mut k: usize = 0;
        while k < self.tabs.len() && !self.tabs[k].has_pane(pane_id)
            invariant
                self.tabs@ == old(self).tabs@,
                self.active == old(self).active,
                self.show_line_numbers == old(self).show_line_numbers,
                self.session_passwords == old(self).session_passwords,
                self.wf(),
                0 <= k <= self.tabs@.len(),
                forall|m: int| 0 <= m < k ==> !(#[trigger] self.tabs@[m].pane_ids()).contains(pane_id),
            decreases self.tabs@.len() - k,
        {
            k += 1;
        }
        proof {
            lemma_tab_with_pane(self.tabs@, pane_id);
        }
        if k == self.tabs.len() {
            return ClosedPane::NotFound;
        }
        proof {
            lemma_tab_with_pane_at(self.tabs@, pane_id, k as int);
        }
        let mut tab = self.tabs.remove(k);
        let ghost t = tab;
        assert(t.wf());
        let tab_id = tab.id;
        let pi = match tab.pane_index(pane_id) {
            Some(i) => i,
            None => {
                assert(false);
                return ClosedPane::NotFound;
            },
        };
        proof {
            let l = t.layout.leaves();
            assert(l.contains(pane_id));
            let li = choose|li: int| 0 <= li < l.len() && l[li] == pane_id;
            crate::pane_layout::law_remove_leaves(t.layout, pane_id, li);
            t.lemma_wf_len();
        }
        tab.focused = pane_id;
        let r = tab.layout.remove_leaf(pane_id);
        match r {
            RemoveResult::Collapsed { focus } => {
                let pane = tab.panes.remove(pi);
                let _n = tab.panes.len();
                tab.focused = focus;
                let clear_zoom = tab.zoomed == Some(pane_id) || tab.layout.leaf_count() <= 1;
                if clear_zoom {
                    tab.zoomed = None;
                }
                proof {
                    let l = t.layout.leaves();
                    let li = choose|li: int| 0 <= li < l.len() && l[li] == pane_id;
                    assert(tab.layout.leaves() == l.remove(li));
                    assert(tab.pane_ids() =~= t.pane_ids().remove(pi as int));
                    lemma_remove_both(l, t.pane_ids(), pane_id, li, pi as int);
                    if let Some(zz) = tab.zoomed {
                        assert(t.zoomed == Some(zz));
                    }
                    assert(tab.wf());
                }
                self.tabs.insert(k, tab);
                proof {
                    assert forall|m: int| 0 <= m < self.tabs@.len() implies (#[trigger] self.tabs@[m]).wf() by {
                        if m != k {
                            assert(self.tabs@[m] == old(self).tabs@[m]);
                        }
                    }
                    assert(self.tabs@ =~= old(self).tabs@.update(k as int, self.tabs@[k as int]));
                }
                ClosedPane::Pane { pane, focus }
            },
            _ => {
                proof {
                    assert(tab.wf());
                }
                self.tabs.insert(k, tab);
                proof {
                    assert(self.tabs@ =~= old(self).tabs@.update(k as int, TabSession { focused: pane_id, ..t }));
                    assert forall|m: int| 0 <= m < self.tabs@.len() implies (#[trigger] self.tabs@[m]).wf() by {
                        if m != k {
                            assert(self.tabs@[m] == old(self).tabs@[m]);
                        }
                    }
                }
                match self.close_tab(tab_id) {
                    Some(g) => ClosedPane::Tab(g),
                    None => {
                        proof {
                            lemma_tab_pos_some(self.tabs@, tab_id);
                            assert(self.tabs@[k as int].id == tab_id);
                        }
                        ClosedPane::NotFound
                    },
                }
            },
        }
    }


    /// Close the focused pane of the active tab.
    pub fn close_focused_pane(&mut self) -> (closed: ClosedPane)
        requires
            old(self).wf(),
        ensures
            final(self).session_passwords == old(self).session_passwords,
            final(self).wf(),
            final(self).show_line_numbers == old(self).show_line_numbers,
            match old(self).active_pos() {
                None => closed is NotFound && final(self).tabs@ == old(self).tabs@ && final(self).active
                    == old(self).active,
                Some(p) => closed_pane_effect(*old(self), *final(self), old(self).tabs@[p].focused, closed),
            },
    {
        proof {
            if let Some(id) = self.active {
                lemma_tab_pos_some(self.tabs@, id);
            }
        }
        let focused = match self.active_tab() {
            Some(t) => t.focused,
            None => {
                return ClosedPane::NotFound;
            },
        };
        self.close_pane(focused)
    }

    /// Close every tab (window close); returns them for teardown.
    pub fn teardown_all(&mut self) -> (tabs: Vec<TabSession>)
        ensures
            final(self).session_passwords == old(self).session_passwords,
            tabs@ == old(self).tabs@,
            final(self).tabs@.len() == 0,
            final(self).active is None,
            final(self).show_line_numbers == old(self).show_line_numbers,
            final(self).wf(),
    {
        let mut tabs = Vec::new();
        std::mem::swap(&mut tabs, &mut self.tabs);
        self.active = None;
        tabs
    }

    /// Make tab `id` the active one.
    pub fn select_tab(&mut self, id: u128)
        ensures
            final(self).session_passwords == old(self).session_passwords,
            final(self).tabs@ == old(self).tabs@,
            final(self).active == Some(id),
            final(self).show_line_numbers == old(self).show_line_numbers,
    {
        self.active = Some(id);
    }

    /// Activate the next tab (wrapping).
    pub fn next_tab(&mut self)
        ensures
            final(self).session_passwords == old(self).session_passwords,
            final(self).tabs@ == old(self).tabs@,
            final(self).active == next_active(old(self).tabs@, old(self).active),
            final(self).show_line_numbers == old(self).show_line_numbers,
    {
        if self.tabs.len() == 0 {
            return;
        }
        let i = self.active_index();
        proof {
            if let Some(id) = self.active {
                lemma_tab_pos_some(self.tabs@, id);
            }
        }
        let next = (i + 1) % self.tabs.len();
        let id = self.tabs[next].id;
        self.select_tab(id);
    }

    /// Activate the previous tab (wrapping).
    pub fn prev_tab(&mut self)
        ensures
            final(self).session_passwords == old(self).session_passwords,
            final(self).tabs@ == old(self).tabs@,
            final(self).active == prev_active(old(self).tabs@, old(self).active),
            final(self).show_line_numbers == old(self).show_line_numbers,
    {
        if self.tabs.len() == 0 {
            return;
        }
        let i = self.active_index();
        proof {
            if let Some(id) = self.active {
                lemma_tab_pos_some(self.tabs@, id);
            }
        }
        let prev = if i == 0 {
            self.tabs.len() - 1
        } else {
            i - 1
        };
        let id = self.tabs[prev].id;
        self.select_tab(id);
    }

    /// Profile of the focused pane of the active tab (what "duplicate tab"
    /// opens again).
    pub fn active_focused_profile(&self) -> (profile: Option<u128>)
        ensures
            match profile {
                Some(pid) => self.active_pos() matches Some(p) && exists|k: int|
                    0 <= k < self.tabs@[p].panes@.len() && self.tabs@[p].panes@[k].id
                        == self.tabs@[p].focused && self.tabs@[p].panes@[k].profile_id == pid,
                None => self.active_pos() matches Some(p) ==> !self.tabs@[p].pane_ids().contains(
                    self.tabs@[p].focused,
                ),
            },
    {
        match self.split_target() {
            Some((_, pid)) => Some(pid),
            None => None,
        }
    }

    /// Title of the active tab, to start renaming it.
    pub fn begin_rename_active(&self) -> (title: Option<String>)
        ensures
            match title {
                Some(t) => self.active_pos() matches Some(p) && t@ == self.tabs@[p].title@,
                None => self.active_pos() is None,
            },
    {
        proof {
            if let Some(id) = self.active {
                lemma_tab_pos_some(self.tabs@, id);
            }
        }
        match self.active_tab() {
            Some(t) => Some(t.title.clone()),
            None => None,
        }
    }

    /// Rename the active tab. Returns whether there is one.
    pub fn apply_rename_active(&mut self, title: String) -> (renamed: bool)
        requires
            old(self).wf(),
        ensures
            final(self).session_passwords == old(self).session_passwords,
            final(self).wf(),
            final(self).active == old(self).active,
            final(self).show_line_numbers == old(self).show_line_numbers,
            match old(self).active_pos() {
                Some(p) => renamed && final(self).tabs@ == old(self).tabs@.update(
                    p,
                    TabSession { title, ..old(self).tabs@[p] },
                ),
                None => !renamed && final(self).tabs@ == old(self).tabs@,
            },
    {
        proof {
            if let Some(id) = self.active {
                lemma_tab_pos_some(self.tabs@, id);
            }
        }
        let i = match self.active_tab_index() {
            Some(i) => i,
            None => {
                return false;
            },
        };
        let mut tab = self.tabs.remove(i);
        tab.title = title;
        self.tabs.insert(i, tab);
        proof {
            assert(self.tabs@ =~= old(self).tabs@.update(i as int, TabSession { title, ..old(self).tabs@[i as int] }));
            assert forall|k: int| 0 <= k < self.tabs@.len() implies (#[trigger] self.tabs@[k]).wf() by {
                assert(old(self).tabs@[k].wf());
            }
        }
        true
    }

    pub fn set_show_line_numbers(&mut self, enabled: bool)
        ensures
            final(self).session_passwords == old(self).session_passwords,
            final(self).tabs@ == old(self).tabs@,
            final(self).active == old(self).active,
            final(self).show_line_numbers == enabled,
    {
        self.show_line_numbers = enabled;
    }

    /// Open tabs to remember: for each tab the profile of its focused pane
    /// (nil when it has none) and its title; and the active position.
    pub fn snapshot_for_persist(&self) -> (snap: (Vec<(u128, Option<String>)>, usize))
        ensures
            is_snapshot(self.tabs@, snap.0@),
            snap.1 == match self.active_pos() {
                Some(p) => p,
                None => 0,
            },
    {
        let mut out: Vec<(u128, Option<String>)> = Vec::new();
        let mut i: usize = 0;
        while i < self.tabs.len()
            invariant
                0 <= i <= self.tabs@.len(),
                out@.len() == i,
                forall|j: int|
                    #![trigger self.tabs@[j]]
                    0 <= j < i ==> {
                        let t = self.tabs@[j];
                        &&& (out@[j].1 matches Some(title) && title@ == t.title@)
                        &&& (!t.pane_ids().contains(t.focused) ==> out@[j].0 == ids::NIL_ID)
                        &&& (t.pane_ids().contains(t.focused) ==> exists|k: int|
                            0 <= k < t.panes@.len() && t.panes@[k].id == t.focused
                                && t.panes@[k].profile_id == out@[j].0)
                    },
            decreases self.tabs@.len() - i,
        {
            let t = &self.tabs[i];
            let profile_id = match t.focused_pane() {
                Some(p) => p.profile_id,
                None => ids::NIL_ID,
            };
            out.push((profile_id, Some(t.title.clone())));
            i += 1;
        }
        (out, self.active_index())
    }

    /// Record the outcome of connecting pane `pane_id` of tab `tab_id`.
    /// Returns whether that pane still exists.
    pub fn update_pane(
        &mut self,
        tab_id: u128,
        pane_id: u128,
        state: ConnectionState,
        message: String,
    ) -> (found: bool)
        requires
            old(self).wf(),
        ensures
            final(self).session_passwords == old(self).session_passwords,
            final(self).wf(),
            final(self).active == old(self).active,
            final(self).show_line_numbers == old(self).show_line_numbers,
            final(self).tabs@.len() == old(self).tabs@.len(),
            match tab_pos(old(self).tabs@, tab_id) {
                Some(p) => {
                    &&& found == old(self).tabs@[p].pane_ids().contains(pane_id)
                    &&& forall|j: int|
                        0 <= j < old(self).tabs@.len() && j != p ==> final(self).tabs@[j] == old(
                            self,
                        ).tabs@[j]
                    &&& if found {
                        exists|k: int|
                            #![trigger old(self).tabs@[p].panes@[k]]
                            {
                                let o = old(self).tabs@[p];
                                &&& 0 <= k < o.panes@.len()
                                &&& o.panes@[k].id == pane_id
                                &&& final(self).tabs@[p].panes@ == o.panes@.update(
                                    k,
                                    PaneSession { state, status_message: message, ..o.panes@[k] },
                                )
                                &&& final(self).tabs@[p].id == o.id
                                &&& final(self).tabs@[p].title == o.title
                                &&& final(self).tabs@[p].layout == o.layout
                                &&& final(self).tabs@[p].focused == o.focused
                                &&& final(self).tabs@[p].zoomed == o.zoomed
                            }
                    } else {
                        final(self).tabs@ == old(self).tabs@
                    }
                },
                None => !found && final(self).tabs@ == old(self).tabs@,
            },
    {
        proof {
            lemma_tab_pos_some(self.tabs@, tab_id);
        }
        let i = match self.tab_index(tab_id) {
            Some(i) => i,
            None => {
                return false;
            },
        };
        let k = match self.tabs[i].pane_index(pane_id) {
            Some(k) => k,
            None => {
                return false;
            },
        };
        let mut tab = self.tabs.remove(i);
        let ghost o = tab;
        let mut pane = tab.panes.remove(k);
        pane.state = state;
        pane.status_message = message;
        tab.panes.insert(k, pane);
        proof {
            assert(tab.pane_ids() =~= o.pane_ids());
            assert(o.wf());
            assert(tab.wf());
        }
        self.tabs.insert(i, tab);
        proof {
            assert forall|j: int| 0 <= j < self.tabs@.len() implies (#[trigger] self.tabs@[j]).wf() by {
                if j != i {
                    assert(self.tabs@[j] == old(self).tabs@[j]);
                }
            }
            assert(self.tabs@[i as int].panes@ =~= o.panes@.update(
                k as int,
                PaneSession { state, status_message: message, ..o.panes@[k as int] },
            ));
        }
        assert(o.pane_ids()[k as int] == pane_id);
        true
    }

    /// Open a tab holding the single pane `pane` and make it active.
    pub fn open_pane_tab(&mut self, title: String, pane: PaneSession) -> (tab_id: u128)
        requires
            old(self).wf(),
        ensures
            final(self).session_passwords == old(self).session_passwords,
            final(self).wf(),
            final(self).tabs@.len() == old(self).tabs@.len() + 1,
            final(self).tabs@.drop_last() == old(self).tabs@,
            ({
                let t = final(self).tabs@.last();
                &&& t.id == tab_id
                &&& t.title == title
                &&& t.panes@ == seq![pane]
                &&& t.layout == PaneLayout::Leaf(pane.id)
                &&& t.focused == pane.id
                &&& t.zoomed is None
            }),
            final(self).active == Some(tab_id),
            final(self).show_line_numbers == old(self).show_line_numbers,
    {
        let tab_id = ids::new_id();
        let pane_id = pane.id;
        let mut panes = Vec::new();
        panes.push(pane);
        let tab = TabSession {
            id: tab_id,
            title,
            panes,
            layout: PaneLayout::leaf(pane_id),
            focused: pane_id,
            zoomed: None,
        };
        proof {
            let l = tab.layout.leaves();
            assert(l =~= seq![pane_id]);
            assert(tab.pane_ids() =~= seq![pane_id]);
            assert(l[0] == pane_id);
            assert(tab.wf());
        }
        self.tabs.push(tab);
        self.active = Some(tab_id);
        proof {
            assert(self.tabs@.drop_last() =~= old(self).tabs@);
            assert forall|i: int| 0 <= i < self.tabs@.len() implies (#[trigger] self.tabs@[i]).wf() by {
                if i < old(self).tabs@.len() {
                    assert(self.tabs@[i] == old(self).tabs@[i]);
                }
            }
        }
        tab_id
    }
}

/// What the terminal area shows.
#[derive(Clone, Copy, Debug, PartialEq, Eq, Structural)]
pub enum PaneDisplay {
    /// No tab: the empty state.
    Empty,
    /// One pane full size (the tab is zoomed on it).
    Zoomed(u128),
    /// The tab's split layout; `multi` when it has more than one pane (each
    /// pane then shows its frame).
    Layout { multi: bool },
}

impl TabManager {
    /// What to draw for the active tab: its zoomed pane when that pane
    /// exists, else its layout.
    pub fn active_display(&self) -> (d: PaneDisplay)
        requires
            self.wf(),
        ensures
            match self.active_pos() {
                None => d is Empty,
                Some(p) => {
                    let t = self.tabs@[p];
                    match t.zoomed {
                        Some(z) => if t.pane_ids().contains(z) {
                            d == PaneDisplay::Zoomed(z)
                        } else {
                            d == PaneDisplay::Layout { multi: t.layout.leaves().len() > 1 }
                        },
                        None => d == PaneDisplay::Layout { multi: t.layout.leaves().len() > 1 },
                    }
                },
            },
    {
        proof {
            if let Some(id) = self.active {
                lemma_tab_pos_some(self.tabs@, id);
            }
        }
        let i = match self.active_tab_index() {
            Some(i) => i,
            None => {
                return PaneDisplay::Empty;
            },
        };
        let t = &self.tabs[i];
        proof {
            assert(self.tabs@[i as int].wf());
            t.lemma_wf_len();
        }
        if let Some(z) = t.zoomed {
            if t.has_pane(z) {
                return PaneDisplay::Zoomed(z);
            }
        }
        PaneDisplay::Layout { multi: t.panes.len() > 1 }
    }
}

} // verus!
