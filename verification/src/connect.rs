//! Starting the session of a pane: which credentials an SSH profile needs,
//! what a pane says while it connects and once the attempt is over, and the
//! tabs that opening, splitting and reconnecting create or update.
//!
//! The caller spawns the shells, asks the keyring and runs the SSH
//! handshake; it hands the outcomes back here.

use vstd::prelude::*;

use crate::file_icon;
use crate::forms::SshAuthChoice;
use crate::ids;
use crate::pane_layout::SplitDirection;
use crate::tab_manager::{ConnectionState, PaneSession, TabManager, TabSession, session_password_of, tab_pos};
use crate::text::{self, decimal};
use crate::workspace_store::{Profile, ProfileKind};

verus! {

/// Credentials for an SSH handshake (a key is used without a passphrase).
#[derive(Debug)]
pub enum AuthMaterial {
    Password(String),
    PrivateKey { path: String },
}

/// Where the credentials of a profile come from.
#[derive(Debug)]
pub enum AuthPlan {
    /// The profile is not an SSH profile.
    NotSsh,
    Ready(AuthMaterial),
    /// Look the password up in the keyring and hand the answer to
    /// `keyring_auth`.
    AskKeyring,
}

/// The credentials of `kind`: a password given for this attempt wins over
/// the keyring; a key profile needs no lookup.
pub fn plan_auth(kind: &ProfileKind, password_override: Option<String>) -> (plan: AuthPlan)
    ensures
        match kind {
            ProfileKind::Local { .. } => plan is NotSsh,
            ProfileKind::Ssh { auth: SshAuthChoice::Password { .. }, .. } => match password_override {
                Some(p) => plan matches AuthPlan::Ready(AuthMaterial::Password(q)) && q@ == p@,
                None => plan is AskKeyring,
            },
            ProfileKind::Ssh { auth: SshAuthChoice::PrivateKey { path }, .. } => plan matches AuthPlan::Ready(
                AuthMaterial::PrivateKey { path: q },
            ) && q@ == path@,
        },
{
    match kind {
        ProfileKind::Local { .. } => AuthPlan::NotSsh,
        ProfileKind::Ssh { auth, .. } => match auth {
            SshAuthChoice::Password { .. } => match password_override {
                Some(p) => AuthPlan::Ready(AuthMaterial::Password(p)),
                None => AuthPlan::AskKeyring,
            },
            SshAuthChoice::PrivateKey { path } => AuthPlan::Ready(AuthMaterial::PrivateKey { path: path.clone() }),
        },
    }
}

impl AuthPlan {
    /// The credentials when no lookup is needed: `None` for `AskKeyring`.
    pub fn resolved(self) -> (r: Option<Result<Option<AuthMaterial>, String>>)
        ensures
            match self {
                AuthPlan::NotSsh => r matches Some(Err(m)) && m@ == "not an SSH profile"@,
                AuthPlan::Ready(a) => r == Some(Ok::<Option<AuthMaterial>, String>(Some(a))),
                AuthPlan::AskKeyring => r is None,
            },
    {
        match self {
            AuthPlan::NotSsh => Some(Err(text::owned("not an SSH profile"))),
            AuthPlan::Ready(a) => Some(Ok(Some(a))),
            AuthPlan::AskKeyring => None,
        }
    }
}

/// What the keyring answered: a stored password, none, or a failure.
pub fn keyring_auth(stored: Result<Option<String>, String>) -> (r: Result<Option<AuthMaterial>, String>)
    ensures
        match stored {
            Ok(Some(p)) => r matches Ok(Some(AuthMaterial::Password(q))) && q@ == p@,
            Ok(None) => r matches Ok(None),
            Err(e) => r matches Err(f) && f@ == e@,
        },
{
    match stored {
        Ok(Some(p)) => Ok(Some(AuthMaterial::Password(p))),
        Ok(None) => Ok(None),
        Err(e) => Err(e),
    }
}

/// Whether opening `kind` must first ask for a password: a password
/// profile whose password is not remembered (`not_remembered`, as the
/// keyring says).
pub fn ssh_needs_password(kind: &ProfileKind, not_remembered: bool) -> (ask: bool)
    ensures
        ask == (kind matches ProfileKind::Ssh { auth: SshAuthChoice::Password { .. }, .. } && not_remembered),
{
    match kind {
        ProfileKind::Ssh { auth: SshAuthChoice::Password { .. }, .. } => not_remembered,
        _ => false,
    }
}

/// `user@host:port`.
pub open spec fn label_of(user: Seq<char>, host: Seq<char>, port: u16) -> Seq<char> {
    user + "@"@ + host + ":"@ + decimal(port as nat)
}

pub fn ssh_label(user: &str, host: &str, port: u16) -> (s: String)
    ensures
        s@ == label_of(user@, host@, port),
{
    let mut s = text::owned(user);
    s.append("@");
    s.append(host);
    s.append(":");
    text::push_decimal(&mut s, port as u128);
    s
}

/// What a pane says while its SSH session starts.
pub open spec fn connecting_text(user: Seq<char>, host: Seq<char>, port: u16) -> Seq<char> {
    "connecting to "@ + label_of(user, host, port) + "…"@
}

pub fn connecting_message(user: &str, host: &str, port: u16) -> (s: String)
    ensures
        s@ == connecting_text(user@, host@, port),
{
    let mut s = text::owned("connecting to ");
    let label = ssh_label(user, host, port);
    s.append(label.as_str());
    s.append("…");
    s
}

/// How an SSH connection attempt ended.
#[derive(Debug)]
pub enum ConnectReply {
    Connected,
    Failed(String),
    /// The attempt was dropped before it answered.
    Cancelled,
}

/// The state and status line of a pane once its SSH attempt ended.
pub fn connect_outcome(reply: ConnectReply, user: &str, host: &str, port: u16) -> (r: (
    ConnectionState,
    String,
))
    ensures
        match reply {
            ConnectReply::Connected => r.0 == ConnectionState::Connected && r.1@ == "ssh · "@
                + label_of(user@, host@, port),
            ConnectReply::Failed(e) => r.0 == ConnectionState::Failed && r.1@ == e@,
            ConnectReply::Cancelled => r.0 == ConnectionState::Failed && r.1@
                == "SSH connect cancelled"@,
        },
{
    match reply {
        ConnectReply::Connected => {
            let mut s = text::owned("ssh · ");
            let label = ssh_label(user, host, port);
            s.append(label.as_str());
            (ConnectionState::Connected, s)
        },
        ConnectReply::Failed(e) => (ConnectionState::Failed, e),
        ConnectReply::Cancelled => (ConnectionState::Failed, text::owned("SSH connect cancelled")),
    }
}

/// The status line of a local shell: the shell's file name (or the shell
/// as given when it has none) and the working folder (`.` when unknown).
/// For a shell path written with `/` whose last part is a bare name, the
/// file name is that part; for other paths which file name the platform's
/// path rules give is not stated.
pub fn local_status(shell: &str, cwd: Option<&str>) -> (s: String)
    ensures
        exists|short: Seq<char>|
            s@ == short + " · "@ + match cwd {
                Some(c) => c@,
                None => "."@,
            },
        file_icon::slash_path_name(shell@) matches Some(name) ==> s@ == name + " · "@ + match cwd {
            Some(c) => c@,
            None => "."@,
        },
{
    let mut s = match file_icon::path_file_name(shell) {
        Some(f) => f,
        None => text::owned(shell),
    };
    let ghost short = s@;
    s.append(" · ");
    match cwd {
        Some(c) => s.append(c),
        None => s.append("."),
    }
    assert(s@ == short + " · "@ + match cwd {
        Some(c) => c@,
        None => "."@,
    });
    s
}

/// Why a split could not start its pane.
#[derive(Debug)]
pub enum SplitFailure {
    /// The local shell did not start.
    SpawnFailed(String),
    /// The SSH profile's password was neither given once in this run
    /// (`split_auth`) nor found in the keyring.
    PasswordRequired,
    /// The credentials could not be read.
    AuthFailed(String),
}

/// What the focused pane shows after a failed split: whether it is marked
/// failed (only when a local shell did not start) and its status line.
pub fn split_failure_status(f: SplitFailure) -> (r: (bool, String))
    ensures
        match f {
            SplitFailure::SpawnFailed(e) => r.0 && r.1@ == "split failed: "@ + e@,
            SplitFailure::PasswordRequired => !r.0 && r.1@ == "password required for split"@,
            SplitFailure::AuthFailed(e) => !r.0 && r.1@ == "split failed: "@ + e@,
        },
{
    match f {
        SplitFailure::SpawnFailed(e) => {
            let mut s = text::owned("split failed: ");
            s.append(e.as_str());
            (true, s)
        },
        SplitFailure::PasswordRequired => (false, text::owned("password required for split")),
        SplitFailure::AuthFailed(e) => {
            let mut s = text::owned("split failed: ");
            s.append(e.as_str());
            (false, s)
        },
    }
}

/// What reconnecting the focused pane of a tab found.
#[derive(Debug)]
pub enum ReconnectCheck {
    /// The pane's profile is gone from the workspace.
    ProfileMissing,
    /// A local profile: its shell is started again.
    Local,
    /// An SSH profile and what resolving its credentials gave.
    Ssh { user: String, host: String, port: u16, auth: Result<Option<AuthMaterial>, String> },
}

/// The state and status line of the pane while (or instead of)
/// reconnecting; for SSH with credentials the caller then connects.
pub fn reconnect_status(check: &ReconnectCheck) -> (r: (ConnectionState, String))
    ensures
        match check {
            ReconnectCheck::ProfileMissing => r.0 == ConnectionState::Failed && r.1@ == "profile missing"@,
            ReconnectCheck::Local => r.0 == ConnectionState::Connecting && r.1@ == "reconnecting…"@,
            ReconnectCheck::Ssh { user, host, port, auth } => match auth {
                Ok(Some(_)) => r.0 == ConnectionState::Connecting && r.1@ == connecting_text(
                    user@,
                    host@,
                    *port,
                ),
                Ok(None) => r.0 == ConnectionState::Failed && r.1@ == "password required"@,
                Err(e) => r.0 == ConnectionState::Failed && r.1@ == e@,
            },
        },
{
    match check {
        ReconnectCheck::ProfileMissing => (ConnectionState::Failed, text::owned("profile missing")),
        ReconnectCheck::Local => (ConnectionState::Connecting, text::owned("reconnecting…")),
        ReconnectCheck::Ssh { user, host, port, auth } => match auth {
            Ok(Some(_)) => (ConnectionState::Connecting, connecting_message(user.as_str(), host.as_str(), *port)),
            Ok(None) => (ConnectionState::Failed, text::owned("password required")),
            Err(e) => (ConnectionState::Failed, e.clone()),
        },
    }
}

/// The state and status line after a local shell was (re)started: `Ok`
/// carries the shell and its working folder.
pub fn local_spawn_status(spawned: &Result<(String, Option<String>), String>) -> (r: (
    ConnectionState,
    String,
))
    ensures
        match spawned {
            Ok((shell, cwd)) => r.0 == ConnectionState::Connected && (exists|short: Seq<char>|
                r.1@ == short + " · "@ + match cwd {
                    Some(c) => c@,
                    None => "."@,
                }) && (file_icon::slash_path_name(shell@) matches Some(name) ==> r.1@ == name + " · "@
                    + match cwd {
                    Some(c) => c@,
                    None => "."@,
                }),
            Err(e) => r.0 == ConnectionState::Failed && r.1@ == e@,
        },
{
    match spawned {
        Ok((shell, cwd)) => {
            let c = match cwd {
                Some(c) => Some(c.as_str()),
                None => None,
            };
            (ConnectionState::Connected, local_status(shell.as_str(), c))
        },
        Err(e) => (ConnectionState::Failed, e.clone()),
    }
}

/// The focused pane of the tab at `p`, its state and status replaced.
pub open spec fn with_focused_status(o: TabSession, t: TabSession, state: ConnectionState, message: Seq<char>) -> bool {
    exists|k: int|
        #![trigger o.panes@[k]]
        {
            &&& 0 <= k < o.panes@.len()
            &&& o.panes@[k].id == o.focused
            &&& t.panes@.len() == o.panes@.len()
            &&& t.panes@[k].id == o.panes@[k].id
            &&& t.panes@[k].profile_id == o.panes@[k].profile_id
            &&& t.panes@[k].state == state
            &&& t.panes@[k].status_message@ == message
            &&& forall|j: int| 0 <= j < o.panes@.len() && j != k ==> t.panes@[j] == o.panes@[j]
            &&& t.id == o.id
            &&& t.title == o.title
            &&& t.layout == o.layout
            &&& t.focused == o.focused
            &&& t.zoomed == o.zoomed
        }
}

impl TabManager {
    /// A tab for `profile` whose single pane failed to start with
    /// `message`; it becomes active. Returns the tab's id.
    pub fn push_failed(&mut self, profile: &Profile, message: String) -> (tab_id: u128)
        requires
            old(self).wf(),
        ensures
            final(self).session_passwords == old(self).session_passwords,
            final(self).wf(),
            final(self).tabs@.drop_last() == old(self).tabs@,
            final(self).tabs@.len() == old(self).tabs@.len() + 1,
            ({
                let t = final(self).tabs@.last();
                &&& t.id == tab_id
                &&& t.title@ == profile.name@
                &&& t.panes@.len() == 1
                &&& t.panes@[0].profile_id == profile.id
                &&& t.panes@[0].state == ConnectionState::Failed
                &&& t.panes@[0].status_message@ == message@
                &&& t.focused == t.panes@[0].id
            }),
            final(self).active == Some(tab_id),
            final(self).show_line_numbers == old(self).show_line_numbers,
    {
        let pane = PaneSession {
            id: ids::new_id(),
            profile_id: profile.id,
            state: ConnectionState::Failed,
            status_message: message,
        };
        self.open_pane_tab(profile.name.clone(), pane)
    }

    /// Opens a tab for an SSH profile: with credentials its pane is
    /// connecting and the caller connects (tab, pane and credentials are
    /// returned); without, the tab shows why. A local profile opens
    /// nothing.
    pub fn open_ssh(&mut self, profile: &Profile, auth: Result<Option<AuthMaterial>, String>) -> (started: Option<(u128, u128, AuthMaterial)>)
        requires
            old(self).wf(),
        ensures
            final(self).session_passwords == old(self).session_passwords,
            final(self).wf(),
            final(self).show_line_numbers == old(self).show_line_numbers,
            match profile.kind {
                ProfileKind::Local { .. } => started is None && *final(self) == *old(self),
                ProfileKind::Ssh { host, port, user, .. } => {
                    &&& final(self).tabs@.drop_last() == old(self).tabs@
                    &&& final(self).tabs@.len() == old(self).tabs@.len() + 1
                    &&& final(self).active == Some(final(self).tabs@.last().id)
                    &&& {
                        let t = final(self).tabs@.last();
                        &&& t.title@ == profile.name@
                        &&& t.panes@.len() == 1
                        &&& t.panes@[0].profile_id == profile.id
                        &&& t.focused == t.panes@[0].id
                        &&& match auth {
                            Ok(Some(a)) => started == Some((t.id, t.panes@[0].id, a))
                                && t.panes@[0].state == ConnectionState::Connecting
                                && t.panes@[0].status_message@ == connecting_text(user@, host@, port),
                            Ok(None) => started is None && t.panes@[0].state == ConnectionState::Failed
                                && t.panes@[0].status_message@ == "password required"@,
                            Err(e) => started is None && t.panes@[0].state == ConnectionState::Failed
                                && t.panes@[0].status_message@ == e@,
                        }
                    }
                },
            },
    {
        let (user, host, port) = match &profile.kind {
            ProfileKind::Local { .. } => {
                return None;
            },
            ProfileKind::Ssh { host, port, user, .. } => (user, host, *port),
        };
        match auth {
            Ok(Some(a)) => {
                let pane_id = ids::new_id();
                let pane = PaneSession {
                    id: pane_id,
                    profile_id: profile.id,
                    state: ConnectionState::Connecting,
                    status_message: connecting_message(user.as_str(), host.as_str(), port),
                };
                let tab_id = self.open_pane_tab(profile.name.clone(), pane);
                Some((tab_id, pane_id, a))
            },
            Ok(None) => {
                self.push_failed(profile, text::owned("password required"));
                None
            },
            Err(e) => {
                self.push_failed(profile, e);
                None
            },
        }
    }

    /// Opens a tab for an SSH profile with a password given once (the
    /// password prompt without Remember): the profile's own credentials are
    /// planned with that password, and for a password profile it is kept
    /// in memory so that splits of the session reuse it.
    pub fn open_ssh_with_password(&mut self, profile: &Profile, password: String) -> (started: Option<(u128, u128, AuthMaterial)>)
        requires
            old(self).wf(),
        ensures
            final(self).wf(),
            final(self).show_line_numbers == old(self).show_line_numbers,
            match profile.kind {
                ProfileKind::Local { .. } => started is None && final(self).tabs == old(self).tabs
                    && final(self).active == old(self).active && final(self).session_passwords
                    == old(self).session_passwords,
                ProfileKind::Ssh { host, port, user, auth } => {
                    &&& final(self).tabs@.drop_last() == old(self).tabs@
                    &&& final(self).tabs@.len() == old(self).tabs@.len() + 1
                    &&& final(self).active == Some(final(self).tabs@.last().id)
                    &&& {
                        let t = final(self).tabs@.last();
                        &&& t.title@ == profile.name@
                        &&& t.panes@.len() == 1
                        &&& t.panes@[0].profile_id == profile.id
                        &&& t.focused == t.panes@[0].id
                        &&& t.panes@[0].state == ConnectionState::Connecting
                        &&& t.panes@[0].status_message@ == connecting_text(user@, host@, port)
                        &&& started matches Some((tid, pid, a)) && tid == t.id && pid == t.panes@[0].id
                            && match auth {
                            SshAuthChoice::Password { .. } => a matches AuthMaterial::Password(q) && q@
                                == password@,
                            SshAuthChoice::PrivateKey { path } => a matches AuthMaterial::PrivateKey {
                                path: q,
                            } && q@ == path@,
                        }
                    }
                    &&& match auth {
                        SshAuthChoice::Password { .. } => final(self).session_passwords@ == old(
                            self,
                        ).session_passwords@.push((profile.id, password)),
                        SshAuthChoice::PrivateKey { .. } => final(self).session_passwords
                            == old(self).session_passwords,
                    }
                },
            },
    {
        let keep = match &profile.kind {
            ProfileKind::Ssh { auth: SshAuthChoice::Password { .. }, .. } => true,
            _ => false,
        };
        let kept = password.clone();
        let auth = match plan_auth(&profile.kind, Some(password)) {
            AuthPlan::Ready(a) => Ok(Some(a)),
            AuthPlan::NotSsh => {
                return None;
            },
            AuthPlan::AskKeyring => Ok(None),
        };
        let started = self.open_ssh(profile, auth);
        if keep {
            self.remember_session_password(profile.id, kept);
        }
        started
    }

    /// The credentials for a split of a pane of `profile`: a password kept
    /// from this run's one-time prompt is used again; otherwise as
    /// `plan_auth` without a password.
    pub fn split_auth(&self, profile: &Profile) -> (plan: AuthPlan)
        ensures
            match profile.kind {
                ProfileKind::Local { .. } => plan is NotSsh,
                ProfileKind::Ssh { auth: SshAuthChoice::Password { .. }, .. } => match session_password_of(
                    self.session_passwords@,
                    profile.id,
                ) {
                    Some(p) => plan matches AuthPlan::Ready(AuthMaterial::Password(q)) && q@ == p,
                    None => plan is AskKeyring,
                },
                ProfileKind::Ssh { auth: SshAuthChoice::PrivateKey { path }, .. } => plan matches AuthPlan::Ready(
                    AuthMaterial::PrivateKey { path: q },
                ) && q@ == path@,
            },
    {
        let kept = self.session_password(profile.id);
        plan_auth(&profile.kind, kept)
    }

    /// Opens a tab for a local shell that was started (`Ok` carries the
    /// shell and its working folder) or failed to start. Returns the tab's
    /// id and, when it started, its pane's id.
    pub fn open_local(&mut self, profile: &Profile, spawned: Result<(String, Option<String>), String>) -> (opened: (u128, Option<u128>))
        requires
            old(self).wf(),
        ensures
            final(self).session_passwords == old(self).session_passwords,
            final(self).wf(),
            final(self).show_line_numbers == old(self).show_line_numbers,
            final(self).tabs@.drop_last() == old(self).tabs@,
            final(self).tabs@.len() == old(self).tabs@.len() + 1,
            final(self).active == Some(opened.0),
            ({
                let t = final(self).tabs@.last();
                &&& t.id == opened.0
                &&& t.title@ == profile.name@
                &&& t.panes@.len() == 1
                &&& t.panes@[0].profile_id == profile.id
                &&& t.focused == t.panes@[0].id
                &&& match spawned {
                    Ok((shell, cwd)) => opened.1 == Some(t.panes@[0].id) && t.panes@[0].state
                        == ConnectionState::Connected && (exists|short: Seq<char>|
                        t.panes@[0].status_message@ == short + " · "@ + match cwd {
                            Some(c) => c@,
                            None => "."@,
                        }) && (file_icon::slash_path_name(shell@) matches Some(name)
                        ==> t.panes@[0].status_message@ == name + " · "@ + match cwd {
                            Some(c) => c@,
                            None => "."@,
                        }),
                    Err(e) => opened.1 is None && t.panes@[0].state == ConnectionState::Failed
                        && t.panes@[0].status_message@ == e@,
                }
            }),
    {
        let (state, message) = local_spawn_status(&spawned);
        match spawned {
            Ok(_) => {
                let pane_id = ids::new_id();
                let pane = PaneSession { id: pane_id, profile_id: profile.id, state, status_message: message };
                let tab_id = self.open_pane_tab(profile.name.clone(), pane);
                (tab_id, Some(pane_id))
            },
            Err(_) => (self.push_failed(profile, message), None),
        }
    }

    /// The focused pane of tab `tab_id` and its profile, to reconnect it.
    pub fn reconnect_target(&self, tab_id: u128) -> (target: Option<(u128, u128)>)
        requires
            self.wf(),
        ensures
            match tab_pos(self.tabs@, tab_id) {
                Some(p) => target matches Some((pane, profile)) && pane == self.tabs@[p].focused
                    && exists|k: int|
                    0 <= k < self.tabs@[p].panes@.len() && self.tabs@[p].panes@[k].id == pane
                        && self.tabs@[p].panes@[k].profile_id == profile,
                None => target is None,
            },
    {
        proof {
            crate::tab_manager::lemma_tab_pos_some(self.tabs@, tab_id);
        }
        let i = match self.tab_index(tab_id) {
            Some(i) => i,
            None => {
                return None;
            },
        };
        let tab = &self.tabs[i];
        proof {
            assert(self.tabs@[i as int].wf());
        }
        let k = match tab.pane_index(tab.focused) {
            Some(k) => k,
            None => {
                return None;
            },
        };
        Some((tab.focused, tab.panes[k].profile_id))
    }

    /// Sets the state and status line of the focused pane of tab `tab_id`.
    /// Returns whether the tab exists.
    pub fn set_focused_status(&mut self, tab_id: u128, state: ConnectionState, message: String) -> (found: bool)
        requires
            old(self).wf(),
        ensures
            final(self).session_passwords == old(self).session_passwords,
            final(self).wf(),
            final(self).active == old(self).active,
            final(self).show_line_numbers == old(self).show_line_numbers,
            final(self).tabs@.len() == old(self).tabs@.len(),
            match tab_pos(old(self).tabs@, tab_id) {
                Some(p) => {
                    &&& found
                    &&& forall|j: int|
                        0 <= j < old(self).tabs@.len() && j != p ==> final(self).tabs@[j] == old(
                            self,
                        ).tabs@[j]
                    &&& with_focused_status(old(self).tabs@[p], final(self).tabs@[p], state, message@)
                },
                None => !found && final(self).tabs@ == old(self).tabs@,
            },
    {
        proof {
            crate::tab_manager::lemma_tab_pos_some(self.tabs@, tab_id);
        }
        let i = match self.tab_index(tab_id) {
            Some(i) => i,
            None => {
                return false;
            },
        };
        let focused = self.tabs[i].focused;
        proof {
            assert(self.tabs@[i as int].wf());
            assert(self.tabs@[i as int].pane_ids().contains(focused));
        }
        let found = self.update_pane(tab_id, focused, state, message);
        proof {
            let o = old(self).tabs@[i as int];
            let k = choose|k: int|
                #![trigger o.panes@[k]]
                {
                    &&& 0 <= k < o.panes@.len()
                    &&& o.panes@[k].id == focused
                    &&& self.tabs@[i as int].panes@ == o.panes@.update(
                        k,
                        PaneSession { state, status_message: message, ..o.panes@[k] },
                    )
                    &&& self.tabs@[i as int].id == o.id
                    &&& self.tabs@[i as int].title == o.title
                    &&& self.tabs@[i as int].layout == o.layout
                    &&& self.tabs@[i as int].focused == o.focused
                    &&& self.tabs@[i as int].zoomed == o.zoomed
                };
            assert(o.panes@[k].id == o.focused);
            assert(with_focused_status(o, self.tabs@[i as int], state, message@));
        }
        found
    }

    /// Splits the focused pane of the active tab with a new pane of
    /// `profile_id` in `state` showing `message`, focused. Returns the new
    /// pane's id; `None` when there is no focused pane or the new id is
    /// already taken in the tab.
    pub fn split_with_new_pane(
        &mut self,
        direction: SplitDirection,
        profile_id: u128,
        state: ConnectionState,
        message: String,
    ) -> (pane_id: Option<u128>)
        requires
            old(self).wf(),
        ensures
            final(self).session_passwords == old(self).session_passwords,
            final(self).wf(),
            final(self).active == old(self).active,
            final(self).show_line_numbers == old(self).show_line_numbers,
            final(self).tabs@.len() == old(self).tabs@.len(),
            match pane_id {
                Some(id) => old(self).active_pos() matches Some(p) && {
                    let t = final(self).tabs@[p];
                    let o = old(self).tabs@[p];
                    &&& !o.pane_ids().contains(id)
                    &&& t.panes@ == o.panes@.push(
                        PaneSession { id, profile_id, state, status_message: message },
                    )
                    &&& t.focused == id
                    &&& t.id == o.id
                    &&& t.title == o.title
                    &&& t.zoomed == o.zoomed
                    &&& t.layout.leaves().contains(id)
                    &&& exists|sid: u128|
                        sid != crate::ids::NIL_ID && t.layout == o.layout.split_spec(o.focused, direction, id, sid)
                    &&& forall|j: int|
                        0 <= j < old(self).tabs@.len() && j != p ==> final(self).tabs@[j] == old(
                            self,
                        ).tabs@[j]
                },
                None => final(self).tabs@ == old(self).tabs@,
            },
    {
        let i = match self.split_target() {
            Some((i, _)) => i,
            None => {
                return None;
            },
        };
        let id = ids::new_id();
        if self.tabs[i].has_pane(id) {
            return None;
        }
        let pane = PaneSession { id, profile_id, state, status_message: message };
        self.insert_split(i, direction, pane);
        proof {
            let t = self.tabs@[i as int];
            assert(t.wf());
            assert(t.pane_ids() =~= crate::tab_manager::ids_of(t.panes@));
            assert(t.panes@[t.panes@.len() - 1].id == id);
            assert(t.pane_ids()[t.panes@.len() - 1] == id);
            assert(t.pane_ids().contains(id));
        }
        Some(id)
    }
}

} // verus!
