//! The profile filter at the top of the sidebar: a click focuses it, then
//! printable ASCII keys extend the query, Backspace shortens it and Escape
//! clears it and gives the focus back. Also what a key pressed over the
//! profile tree does.

use vstd::prelude::*;

use crate::settings_edit::{popped, typed_char};
use crate::text;
use crate::workspace_store::Selection;

verus! {

pub struct SidebarSearch {
    pub query: String,
    pub focused: bool,
}

/// The filter after `key` (with Ctrl held when `control`), and whether
/// the key was used.
pub open spec fn search_key(query: Seq<char>, focused: bool, key: Seq<char>, control: bool) -> (
    Seq<char>,
    bool,
    bool,
) {
    if !focused {
        (query, focused, false)
    } else if key == "backspace"@ {
        (popped(query), true, true)
    } else if key == "escape"@ {
        (Seq::empty(), false, true)
    } else if control {
        (query, true, false)
    } else if let Some(c) = typed_char(key) {
        (query.push(c), true, true)
    } else {
        (query, true, false)
    }
}

impl SidebarSearch {
    pub fn new() -> (s: Self)
        ensures
            s.query@ == Seq::<char>::empty(),
            !s.focused,
    {
        SidebarSearch { query: String::new(), focused: false }
    }

    /// A click on the filter focuses it.
    pub fn focus(&mut self)
        ensures
            final(self).focused,
            final(self).query == old(self).query,
    {
        self.focused = true;
    }

    /// A key; returns whether it was used (the rest goes to the window's
    /// shortcuts).
    pub fn key(&mut self, key: &str, control: bool) -> (used: bool)
        ensures
            (final(self).query@, final(self).focused, used) == search_key(
                old(self).query@,
                old(self).focused,
                key@,
                control,
            ),
    {
        if !self.focused {
            return false;
        }
        let k = text::chars_of(key);
        if text::eq_str(k.as_slice(), "backspace") {
            let chars = text::chars_of(self.query.as_str());
            if chars.len() > 0 {
                let mut out = String::new();
                text::push_range(&mut out, chars.as_slice(), 0, chars.len() - 1);
                assert(out@ =~= self.query@.drop_last());
                self.query = out;
            }
            return true;
        }
        if text::eq_str(k.as_slice(), "escape") {
            self.focused = false;
            self.query = String::new();
            return true;
        }
        if control {
            return false;
        }
        if k.len() == 1 && (k[0] as u32) < 0x80 && !crate::password_prompt::is_control(k[0]) {
            text::push_char(&mut self.query, k[0]);
            return true;
        }
        false
    }
}

/// What a key pressed over the profile tree does.
#[derive(Clone, Copy, Debug, PartialEq, Eq, Structural)]
pub enum TreeKey {
    /// Escape with the context menu open: close it.
    CloseMenu,
    /// Escape with the filter focused: clear it and give the focus back.
    ClearSearch,
    /// Enter in the inline rename.
    CommitRename,
    /// Escape in the inline rename.
    CancelRename,
    /// Backspace in the inline rename.
    RenameBackspace,
    /// A one-byte key in the inline rename: type it.
    RenameType(char),
    /// Delete or Backspace on the selection: delete it and close the menu.
    DeleteSelection,
    /// Enter on a selected profile: connect it.
    OpenProfile(u128),
    /// Not for the tree.
    Ignore,
}

/// The character of a key name one byte long.
pub open spec fn one_byte_key(key: Seq<char>) -> Option<char> {
    if key.len() == 1 && (key[0] as u32) < 0x80 {
        Some(key[0])
    } else {
        None
    }
}

/// The effect of `key` over the tree: Escape first closes an open menu,
/// then clears a focused filter; during a rename, Enter, Escape, Backspace
/// and one-byte keys go to it and nothing else happens; a focused filter
/// takes the rest; otherwise Delete or Backspace deletes the selection and
/// Enter opens a selected profile.
pub open spec fn tree_key_effect(
    key: Seq<char>,
    menu_open: bool,
    search_focused: bool,
    renaming: bool,
    selection: Selection,
) -> TreeKey {
    if key == "escape"@ && menu_open {
        TreeKey::CloseMenu
    } else if key == "escape"@ && search_focused {
        TreeKey::ClearSearch
    } else if renaming {
        if key == "enter"@ {
            TreeKey::CommitRename
        } else if key == "escape"@ {
            TreeKey::CancelRename
        } else if key == "backspace"@ {
            TreeKey::RenameBackspace
        } else if let Some(c) = one_byte_key(key) {
            TreeKey::RenameType(c)
        } else {
            TreeKey::Ignore
        }
    } else if search_focused {
        TreeKey::Ignore
    } else if key == "delete"@ || key == "backspace"@ {
        TreeKey::DeleteSelection
    } else if key == "enter"@ {
        match selection {
            Selection::Profile(id) => TreeKey::OpenProfile(id),
            _ => TreeKey::Ignore,
        }
    } else {
        TreeKey::Ignore
    }
}

/// What `key` does over the tree (see `tree_key_effect`).
pub fn tree_key(
    key: &str,
    menu_open: bool,
    search_focused: bool,
    renaming: bool,
    selection: Selection,
) -> (action: TreeKey)
    ensures
        action == tree_key_effect(key@, menu_open, search_focused, renaming, selection),
{
    let k = text::chars_of(key);
    let escape = text::eq_str(k.as_slice(), "escape");
    if escape && menu_open {
        return TreeKey::CloseMenu;
    }
    if escape && search_focused {
        return TreeKey::ClearSearch;
    }
    let enter = text::eq_str(k.as_slice(), "enter");
    let backspace = text::eq_str(k.as_slice(), "backspace");
    if renaming {
        if enter {
            return TreeKey::CommitRename;
        }
        if escape {
            return TreeKey::CancelRename;
        }
        if backspace {
            return TreeKey::RenameBackspace;
        }
        if k.len() == 1 && (k[0] as u32) < 0x80 {
            return TreeKey::RenameType(k[0]);
        }
        return TreeKey::Ignore;
    }
    if search_focused {
        return TreeKey::Ignore;
    }
    if backspace || text::eq_str(k.as_slice(), "delete") {
        return TreeKey::DeleteSelection;
    }
    if enter {
        return match selection {
            Selection::Profile(id) => TreeKey::OpenProfile(id),
            _ => TreeKey::Ignore,
        };
    }
    TreeKey::Ignore
}

} // verus!
