//! The window's layout switches and overlays: the sidebar and the context
//! panel, and which dialog covers the workspace (settings, the SSH form or
//! the password prompt). At most one dialog is shown at a time, and the
//! password prompt remembers whether it was opened to reconnect a tab.
//!
//! The caller owns the dialogs' contents and the tabs; it asks this state
//! what to show and what an event leads to.

use vstd::prelude::*;

use crate::text;

verus! {

pub struct ViewState {
    pub sidebar_visible: bool,
    pub context_panel_visible: bool,
    pub show_settings: bool,
    pub show_ssh_form: bool,
    /// The profile whose password is being asked for.
    pub password_prompt: Option<u128>,
    /// When set, a submitted password reconnects this tab instead of
    /// opening a new one.
    pub pending_reconnect_tab: Option<u128>,
}

/// At most one dialog covers the workspace.
pub open spec fn one_dialog(v: ViewState) -> bool {
    &&& !(v.show_settings && v.show_ssh_form)
    &&& !(v.show_settings && v.password_prompt is Some)
    &&& !(v.show_ssh_form && v.password_prompt is Some)
}

/// How to open an SSH profile.
#[derive(Clone, Copy, Debug, PartialEq, Eq, Structural)]
pub enum SshOpen {
    /// Open it with the password given once.
    WithPassword,
    /// Ask for the password first (the prompt is shown).
    AskPassword,
    /// Open it with the stored credentials.
    Stored,
}

/// What a submitted password leads to.
#[derive(Clone, Copy, Debug, PartialEq, Eq, Structural)]
pub enum PasswordUse {
    /// Reconnect this tab with it.
    Reconnect(u128),
    /// Open a new tab for the profile with it.
    Open,
}

impl ViewState {
    /// The layout restored from the saved state, with no dialog shown.
    pub fn new(sidebar_visible: bool, context_panel_visible: bool) -> (v: Self)
        ensures
            v == (ViewState {
                sidebar_visible,
                context_panel_visible,
                show_settings: false,
                show_ssh_form: false,
                password_prompt: None,
                pending_reconnect_tab: None,
            }),
            one_dialog(v),
    {
        ViewState {
            sidebar_visible,
            context_panel_visible,
            show_settings: false,
            show_ssh_form: false,
            password_prompt: None,
            pending_reconnect_tab: None,
        }
    }

    /// Settings opens over any other dialog.
    pub fn open_settings(&mut self)
        ensures
            *final(self) == (ViewState {
                show_settings: true,
                show_ssh_form: false,
                password_prompt: None,
                ..*old(self)
            }),
    {
        self.show_settings = true;
        self.show_ssh_form = false;
        self.password_prompt = None;
    }

    pub fn close_settings(&mut self)
        ensures
            *final(self) == (ViewState { show_settings: false, ..*old(self) }),
    {
        self.show_settings = false;
    }

    /// The SSH form opens (blank or loaded for editing) over any other
    /// dialog.
    pub fn open_ssh_form(&mut self)
        ensures
            *final(self) == (ViewState {
                show_ssh_form: true,
                show_settings: false,
                password_prompt: None,
                ..*old(self)
            }),
    {
        self.show_ssh_form = true;
        self.show_settings = false;
        self.password_prompt = None;
    }

    pub fn close_ssh_form(&mut self)
        ensures
            *final(self) == (ViewState { show_ssh_form: false, ..*old(self) }),
    {
        self.show_ssh_form = false;
    }

    /// The password prompt for `profile_id` opens over any other dialog.
    pub fn show_password_prompt(&mut self, profile_id: u128)
        ensures
            *final(self) == (ViewState {
                password_prompt: Some(profile_id),
                show_settings: false,
                show_ssh_form: false,
                ..*old(self)
            }),
    {
        self.password_prompt = Some(profile_id);
        self.show_settings = false;
        self.show_ssh_form = false;
    }

    /// Cancel in the prompt: it closes and forgets the tab to reconnect.
    pub fn prompt_cancelled(&mut self)
        ensures
            *final(self) == (ViewState { password_prompt: None, pending_reconnect_tab: None, ..*old(self) }),
    {
        self.password_prompt = None;
        self.pending_reconnect_tab = None;
    }

    /// Connect in the prompt: it closes; the password reconnects the
    /// pending tab, if any, else opens a new tab.
    pub fn prompt_submitted(&mut self) -> (use_: PasswordUse)
        ensures
            *final(self) == (ViewState { password_prompt: None, pending_reconnect_tab: None, ..*old(self) }),
            use_ == match old(self).pending_reconnect_tab {
                Some(t) => PasswordUse::Reconnect(t),
                None => PasswordUse::Open,
            },
    {
        self.password_prompt = None;
        let pending = self.pending_reconnect_tab.take();
        match pending {
            Some(t) => PasswordUse::Reconnect(t),
            None => PasswordUse::Open,
        }
    }

    /// Opening an SSH profile (after the form saved it, or from the
    /// sidebar): a password given once is used; a password profile whose
    /// password is not remembered (`needs_password`) asks for it first.
    pub fn connect_ssh(&mut self, profile_id: u128, oneshot: bool, needs_password: bool) -> (how: SshOpen)
        ensures
            how == if oneshot {
                SshOpen::WithPassword
            } else if needs_password {
                SshOpen::AskPassword
            } else {
                SshOpen::Stored
            },
            how == SshOpen::AskPassword ==> *final(self) == (ViewState {
                password_prompt: Some(profile_id),
                show_settings: false,
                show_ssh_form: false,
                ..*old(self)
            }),
            how != SshOpen::AskPassword ==> *final(self) == *old(self),
    {
        if oneshot {
            return SshOpen::WithPassword;
        }
        if needs_password {
            self.show_password_prompt(profile_id);
            return SshOpen::AskPassword;
        }
        SshOpen::Stored
    }

    /// The SSH form saved a profile: it closes; with `connect` the profile
    /// is opened (see `connect_ssh`).
    pub fn ssh_form_saved(&mut self, profile_id: u128, connect: bool, oneshot: bool, needs_password: bool) -> (how: Option<SshOpen>)
        ensures
            !connect ==> how is None && *final(self) == (ViewState { show_ssh_form: false, ..*old(self) }),
            connect ==> how == Some(
                if oneshot {
                    SshOpen::WithPassword
                } else if needs_password {
                    SshOpen::AskPassword
                } else {
                    SshOpen::Stored
                },
            ),
            connect && !oneshot && needs_password ==> *final(self) == (ViewState {
                password_prompt: Some(profile_id),
                show_settings: false,
                show_ssh_form: false,
                ..*old(self)
            }),
            connect && !(!oneshot && needs_password) ==> *final(self) == (ViewState {
                show_ssh_form: false,
                ..*old(self)
            }),
    {
        self.close_ssh_form();
        if connect {
            Some(self.connect_ssh(profile_id, oneshot, needs_password))
        } else {
            None
        }
    }

    /// Reconnect on tab `tab_id`: a password profile whose password is not
    /// remembered asks for it and remembers the tab; otherwise the tab is
    /// reconnected at once (returns `true`).
    pub fn reconnect_requested(&mut self, tab_id: u128, profile: Option<u128>, needs_password: bool) -> (now: bool)
        ensures
            now == !(profile is Some && needs_password),
            !now ==> *final(self) == (ViewState {
                pending_reconnect_tab: Some(tab_id),
                password_prompt: Some(profile->0),
                show_settings: false,
                show_ssh_form: false,
                ..*old(self)
            }),
            now ==> *final(self) == (ViewState { pending_reconnect_tab: None, ..*old(self) }),
    {
        match profile {
            Some(pid) => {
                if needs_password {
                    self.pending_reconnect_tab = Some(tab_id);
                    self.show_password_prompt(pid);
                    return false;
                }
            },
            None => {},
        }
        self.pending_reconnect_tab = None;
        true
    }

    /// Returns the new visibility, to persist.
    pub fn toggle_sidebar(&mut self) -> (visible: bool)
        ensures
            *final(self) == (ViewState { sidebar_visible: !old(self).sidebar_visible, ..*old(self) }),
            visible == final(self).sidebar_visible,
    {
        self.sidebar_visible = !self.sidebar_visible;
        self.sidebar_visible
    }

    /// Returns the new visibility, to persist.
    pub fn toggle_context_panel(&mut self) -> (visible: bool)
        ensures
            *final(self) == (ViewState { context_panel_visible: !old(self).context_panel_visible, ..*old(self) }),
            visible == final(self).context_panel_visible,
    {
        self.context_panel_visible = !self.context_panel_visible;
        self.context_panel_visible
    }
}

/// How a workspace export or import through a file dialog ended.
pub enum DialogEnd {
    /// No file was chosen.
    Cancelled,
    /// Done, with the file at this path (as shown to the user).
    Done(String),
    /// The file could not be written or read: why.
    Failed(String),
}

/// The toast after an export.
pub open spec fn export_toast_text(end: DialogEnd) -> Seq<char> {
    match end {
        DialogEnd::Cancelled => "Export cancelled"@,
        DialogEnd::Done(path) => "Exported to "@ + path@,
        DialogEnd::Failed(why) => "Export failed: "@ + why@,
    }
}

/// The toast after an import.
pub open spec fn import_toast_text(end: DialogEnd) -> Seq<char> {
    match end {
        DialogEnd::Cancelled => "Import cancelled"@,
        DialogEnd::Done(path) => "Imported from "@ + path@,
        DialogEnd::Failed(why) => "Import failed: "@ + why@,
    }
}

/// `lit` followed by `rest`.
fn joined(lit: &str, rest: &str) -> (s: String)
    ensures
        s@ == lit@ + rest@,
{
    let mut s = text::owned(lit);
    s.append(rest);
    s
}

/// The toast after an export of the workspace.
pub fn export_toast(end: &DialogEnd) -> (toast: String)
    ensures
        toast@ == export_toast_text(*end),
{
    match end {
        DialogEnd::Cancelled => text::owned("Export cancelled"),
        DialogEnd::Done(path) => joined("Exported to ", path.as_str()),
        DialogEnd::Failed(why) => joined("Export failed: ", why.as_str()),
    }
}

impl ViewState {
    /// An import ended. When a workspace was read, the caller replaces the
    /// workspace with it and closes every tab, and Settings closes. Returns
    /// the toast and whether the workspace is replaced.
    pub fn import_finished(&mut self, end: &DialogEnd) -> (r: (String, bool))
        ensures
            r.0@ == import_toast_text(*end),
            r.1 == end is Done,
            *final(self) == if end is Done {
                ViewState { show_settings: false, ..*old(self) }
            } else {
                *old(self)
            },
    {
        match end {
            DialogEnd::Cancelled => (text::owned("Import cancelled"), false),
            DialogEnd::Done(path) => {
                self.show_settings = false;
                (joined("Imported from ", path.as_str()), true)
            },
            DialogEnd::Failed(why) => (joined("Import failed: ", why.as_str()), false),
        }
    }
}

/// Every transition keeps at most one dialog on screen.
pub proof fn law_one_dialog_kept(v: ViewState, profile: u128, tab: u128)
    requires
        one_dialog(v),
    ensures
        one_dialog(ViewState { show_settings: true, show_ssh_form: false, password_prompt: None, ..v }),
        one_dialog(ViewState { show_settings: false, ..v }),
        one_dialog(ViewState { show_ssh_form: true, show_settings: false, password_prompt: None, ..v }),
        one_dialog(ViewState { show_ssh_form: false, ..v }),
        one_dialog(
            ViewState { password_prompt: Some(profile), show_settings: false, show_ssh_form: false, ..v },
        ),
        one_dialog(ViewState { password_prompt: None, pending_reconnect_tab: None, ..v }),
        one_dialog(
            ViewState {
                pending_reconnect_tab: Some(tab),
                password_prompt: Some(profile),
                show_settings: false,
                show_ssh_form: false,
                ..v
            },
        ),
        one_dialog(ViewState { pending_reconnect_tab: None, ..v }),
        one_dialog(ViewState { sidebar_visible: !v.sidebar_visible, ..v }),
        one_dialog(ViewState { context_panel_visible: !v.context_panel_visible, ..v }),
{
}

} // verus!
