//! The menus of the tab bar: the split popover under the split button and
//! the context menu of a tab; at most one of them is open. The returned
//! flags say whether anything changed (and the bar must be redrawn).

use vstd::prelude::*;

verus! {

#[derive(Clone, Copy, Debug, PartialEq, Eq, Structural)]
pub struct TabBar {
    pub split_menu_open: bool,
    /// The tab whose context menu is open.
    pub context_menu: Option<u128>,
}

impl TabBar {
    pub open spec fn wf(self) -> bool {
        !(self.split_menu_open && self.context_menu is Some)
    }

    pub fn new() -> (bar: Self)
        ensures
            bar == (TabBar { split_menu_open: false, context_menu: None }),
            bar.wf(),
    {
        TabBar { split_menu_open: false, context_menu: None }
    }

    pub fn close_split_menu(&mut self) -> (changed: bool)
        ensures
            changed == old(self).split_menu_open,
            *final(self) == (TabBar { split_menu_open: false, ..*old(self) }),
    {
        if self.split_menu_open {
            self.split_menu_open = false;
            true
        } else {
            false
        }
    }

    pub fn close_context_menu(&mut self) -> (changed: bool)
        ensures
            changed == old(self).context_menu is Some,
            *final(self) == (TabBar { context_menu: None, ..*old(self) }),
    {
        if self.context_menu.is_some() {
            self.context_menu = None;
            true
        } else {
            false
        }
    }

    /// A click outside the menus dismisses both.
    pub fn close_all_menus(&mut self) -> (changed: bool)
        ensures
            changed == old(self).has_menu(),
            *final(self) == (TabBar { split_menu_open: false, context_menu: None }),
    {
        let mut changed = false;
        if self.split_menu_open {
            self.split_menu_open = false;
            changed = true;
        }
        if self.context_menu.is_some() {
            self.context_menu = None;
            changed = true;
        }
        changed
    }

    pub open spec fn has_menu(self) -> bool {
        self.context_menu is Some || self.split_menu_open
    }

    /// Whether the split popover or a tab's context menu is open.
    pub fn has_open_menu(&self) -> (open: bool)
        ensures
            open == self.has_menu(),
    {
        self.context_menu.is_some() || self.split_menu_open
    }

    /// The split button: closes a context menu, then toggles the popover
    /// when a tab is active.
    pub fn toggle_split_menu(&mut self, has_active_tab: bool)
        requires
            old(self).wf(),
        ensures
            final(self).wf(),
            final(self).context_menu is None,
            final(self).split_menu_open == if has_active_tab {
                !old(self).split_menu_open
            } else {
                old(self).split_menu_open
            },
    {
        self.context_menu = None;
        if !has_active_tab {
            return;
        }
        self.split_menu_open = !self.split_menu_open;
    }

    /// Right click on a tab: its context menu replaces any open menu.
    pub fn open_context_menu(&mut self, tab_id: u128)
        ensures
            final(self).wf(),
            *final(self) == (TabBar { split_menu_open: false, context_menu: Some(tab_id) }),
    {
        self.split_menu_open = false;
        self.context_menu = Some(tab_id);
    }
}

/// Which "Close …" entries of a tab's context menu are enabled.
#[derive(Clone, Copy, Debug, PartialEq, Eq, Structural)]
pub struct CloseEntries {
    pub others: bool,
    pub left: bool,
    pub right: bool,
    pub all: bool,
}

/// The enabled "Close …" entries for the tab at `index` (`None` when it is
/// gone) among `count` tabs.
pub fn close_entries(index: Option<usize>, count: usize) -> (e: CloseEntries)
    ensures
        e.all == (count > 0),
        match index {
            Some(i) => e.left == (i > 0) && e.right == (i + 1 < count) && e.others == (count > 1),
            None => !e.left && !e.right && !e.others,
        },
{
    let (left, right, others) = match index {
        Some(i) => (i > 0, (i as u128) + 1 < count as u128, count > 1),
        None => (false, false, false),
    };
    CloseEntries { others, left, right, all: count > 0 }
}

} // verus!
