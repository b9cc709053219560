//! The status bar: its toast (a message that clears itself after a while
//! unless a newer one replaced it), the working folder it shows for the
//! focused pane, the shell preset check of the settings.

use vstd::prelude::*;

use crate::files;
use crate::rename_edit::eq_ignore_ascii_case;
use crate::tab_manager::ConnectionState;
use crate::text;

verus! {

/// How long a toast stays, in milliseconds.
pub const TOAST_MS: u64 = 2500;

pub struct StatusBar {
    pub toast: Option<String>,
    /// Bumped by every new or cleared toast; a clear timer only clears
    /// when it carries the current value.
    pub toast_generation: u64,
}

/// `g + 1`, wrapping.
pub open spec fn next_generation(g: u64) -> u64 {
    if g == u64::MAX {
        0
    } else {
        (g + 1) as u64
    }
}

impl StatusBar {
    pub fn new() -> (s: Self)
        ensures
            s.toast is None,
            s.toast_generation == 0,
    {
        StatusBar { toast: None, toast_generation: 0 }
    }

    /// Shows `msg`; returns the generation the caller arms the clear timer
    /// with.
    pub fn set_toast(&mut self, msg: String) -> (generation: u64)
        ensures
            final(self).toast == Some(msg),
            final(self).toast_generation == next_generation(old(self).toast_generation),
            generation == final(self).toast_generation,
    {
        self.toast = Some(msg);
        self.toast_generation = self.toast_generation.wrapping_add(1);
        self.toast_generation
    }

    /// Hides the toast at once; an armed timer becomes stale.
    pub fn clear_toast(&mut self)
        ensures
            final(self).toast is None,
            final(self).toast_generation == next_generation(old(self).toast_generation),
    {
        self.toast = None;
        self.toast_generation = self.toast_generation.wrapping_add(1);
    }

    /// The clear timer armed with `generation` fired: clears the toast when
    /// no newer toast replaced it. Returns whether it cleared.
    pub fn toast_expired(&mut self, generation: u64) -> (cleared: bool)
        ensures
            cleared == (generation == old(self).toast_generation),
            cleared ==> final(self).toast is None && final(self).toast_generation == old(self).toast_generation,
            !cleared ==> final(self).toast == old(self).toast && final(self).toast_generation == old(
                self,
            ).toast_generation,
    {
        if generation != self.toast_generation {
            return false;
        }
        self.toast = None;
        true
    }
}

/// A newer toast is never cleared by the timer of an older one.
pub proof fn law_newer_toast_survives(g: u64)
    ensures
        next_generation(g) != g,
{
}

/// The folder the status bar shows for a pane: for a Docker pane only a
/// container path that the terminal reported; otherwise the terminal's
/// report, else the Local profile's start folder.
pub open spec fn spec_cached_cwd(is_docker: bool, from_terminal: Option<Seq<char>>, profile_cwd: Option<Seq<char>>) -> Option<Seq<char>> {
    if is_docker {
        match from_terminal {
            Some(p) => if files::spec_docker_cwd_plausible(p) {
                Some(p)
            } else {
                None
            },
            None => None,
        }
    } else {
        match from_terminal {
            Some(p) => Some(p),
            None => profile_cwd,
        }
    }
}

pub open spec fn opt_text(s: Option<String>) -> Option<Seq<char>> {
    match s {
        Some(x) => Some(x@),
        None => None,
    }
}

/// The folder shown for a pane (`spec_cached_cwd`); `profile_cwd` is the
/// start folder of a Local profile (none for SSH).
pub fn cached_cwd(is_docker: bool, from_terminal: Option<String>, profile_cwd: Option<String>) -> (cwd: Option<String>)
    ensures
        opt_text(cwd) == spec_cached_cwd(is_docker, opt_text(from_terminal), opt_text(profile_cwd)),
{
    if is_docker {
        match from_terminal {
            Some(p) => if files::docker_cwd_plausible(p.as_str()) {
                Some(p)
            } else {
                None
            },
            None => None,
        }
    } else {
        match from_terminal {
            Some(p) => Some(p),
            None => profile_cwd,
        }
    }
}

/// The color family of the connection dot.
#[derive(Clone, Copy, Debug, PartialEq, Eq, Structural)]
pub enum Tone {
    Good,
    Muted,
    Danger,
}

pub fn state_tone(state: ConnectionState) -> (t: Tone)
    ensures
        t == match state {
            ConnectionState::Connected => Tone::Good,
            ConnectionState::Connecting | ConnectionState::Idle => Tone::Muted,
            ConnectionState::Disconnected | ConnectionState::Failed => Tone::Danger,
        },
{
    match state {
        ConnectionState::Connected => Tone::Good,
        ConnectionState::Connecting | ConnectionState::Idle => Tone::Muted,
        ConnectionState::Disconnected | ConnectionState::Failed => Tone::Danger,
    }
}

/// Whether a shell preset button is the current choice: `auto` when no
/// shell is set, else the preset equal to it ignoring ASCII case.
pub fn shell_preset_selected(current: Option<&str>, preset: &str) -> (sel: bool)
    ensures
        sel == match current {
            None => preset@ == "auto"@,
            Some(s) => eq_ignore_ascii_case(s@, preset@),
        },
{
    let p = text::chars_of(preset);
    match current {
        None => text::eq_str(p.as_slice(), "auto"),
        Some(s) => {
            let a = text::ascii_lower_chars(text::chars_of(s).as_slice());
            let b = text::ascii_lower_chars(p.as_slice());
            text::chars_eq(a.as_slice(), b.as_slice())
        },
    }
}

/// Soft cap on the characters of the folder label; the tooltip has the
/// whole path.
pub const CWD_LABEL_MAX_CHARS: usize = 56;

/// The folder segment of the bar: its label and its tooltip.
pub fn cwd_segment_text(full: &str) -> (r: (String, String))
    ensures
        r.0@ == files::spec_truncate_path_end(full@, CWD_LABEL_MAX_CHARS as int),
        r.1@ == full@ + "\nClick to copy"@,
{
    let label = files::truncate_path_end(full, CWD_LABEL_MAX_CHARS);
    let mut tip = text::owned(full);
    tip.append("\nClick to copy");
    (label, tip)
}

/// Whether the bar polls the focused pane's working folder: only for a
/// local shell (not a local Docker exec) with a terminal; SSH and Docker
/// panes report their folder themselves.
pub fn polls_cwd(is_local: bool, is_docker_local: bool, has_terminal: bool) -> (poll: bool)
    ensures
        poll == (is_local && !is_docker_local && has_terminal),
{
    is_local && !is_docker_local && has_terminal
}

/// The state word of the session segment: a local shell that ended reads
/// "Exited".
pub open spec fn spec_state_label(state: ConnectionState, is_ssh: bool) -> Seq<char> {
    match state {
        ConnectionState::Connected => "Connected"@,
        ConnectionState::Connecting => "Connecting"@,
        ConnectionState::Disconnected => if is_ssh {
            "Disconnected"@
        } else {
            "Exited"@
        },
        ConnectionState::Failed => if is_ssh {
            "Failed"@
        } else {
            "Exited"@
        },
        ConnectionState::Idle => "Idle"@,
    }
}

pub fn state_label(state: ConnectionState, is_ssh: bool) -> (l: &'static str)
    ensures
        l@ == spec_state_label(state, is_ssh),
{
    match state {
        ConnectionState::Connected => "Connected",
        ConnectionState::Connecting => "Connecting",
        ConnectionState::Disconnected => if is_ssh {
            "Disconnected"
        } else {
            "Exited"
        },
        ConnectionState::Failed => if is_ssh {
            "Failed"
        } else {
            "Exited"
        },
        ConnectionState::Idle => "Idle",
    }
}

/// The Reconnect button shows for a session that ended or failed.
pub fn needs_reconnect(state: ConnectionState) -> (r: bool)
    ensures
        r == (state == ConnectionState::Disconnected || state == ConnectionState::Failed),
{
    match state {
        ConnectionState::Disconnected | ConnectionState::Failed => true,
        _ => false,
    }
}

/// The icon of the session segment.
#[derive(Clone, Copy, Debug, PartialEq, Eq, Structural)]
pub enum SessionIcon {
    Remote,
    Local,
    /// No profile: a plain terminal icon, muted.
    Plain,
}

/// The session segment: icon, what the session runs on, and whether it
/// is an SSH session.
pub struct SessionTarget {
    pub icon: SessionIcon,
    pub target: String,
    pub is_ssh: bool,
}

/// The target of the focused pane's session: `user@host:port` for SSH;
/// for a local shell the shell's file name (`Local` when none is set; the
/// file name is stated for a shell path written with `/`, see
/// `slash_path_name`); the tab title without a profile.
pub fn session_target(kind: Option<&crate::workspace_store::ProfileKind>, tab_title: &str) -> (t: SessionTarget)
    ensures
        match kind {
            Some(crate::workspace_store::ProfileKind::Ssh { host, port, user, .. }) => t.icon
                == SessionIcon::Remote && t.is_ssh && t.target@ == crate::connect::label_of(user@, host@, *port),
            Some(crate::workspace_store::ProfileKind::Local { shell, .. }) => t.icon == SessionIcon::Local
                && !t.is_ssh && match shell {
                None => t.target@ == "Local"@,
                Some(sh) => (sh@.len() > 0 ==> t.target@.len() > 0) && (crate::file_icon::slash_path_name(
                    sh@,
                ) matches Some(name) ==> t.target@ == name),
            },
            None => t.icon == SessionIcon::Plain && !t.is_ssh && t.target@ == tab_title@,
        },
{
    match kind {
        Some(crate::workspace_store::ProfileKind::Ssh { host, port, user, .. }) => SessionTarget {
            icon: SessionIcon::Remote,
            target: crate::connect::ssh_label(user.as_str(), host.as_str(), *port),
            is_ssh: true,
        },
        Some(crate::workspace_store::ProfileKind::Local { shell, .. }) => {
            let target = match shell {
                None => text::owned("Local"),
                Some(sh) => match crate::file_icon::path_file_name(sh.as_str()) {
                    Some(f) => f,
                    None => sh.clone(),
                },
            };
            SessionTarget { icon: SessionIcon::Local, target, is_ssh: false }
        },
        None => SessionTarget { icon: SessionIcon::Plain, target: text::owned(tab_title), is_ssh: false },
    }
}

/// The tooltip of the session segment: it edits the profile behind the
/// session, if any.
pub fn session_tooltip(is_ssh: bool, has_profile: bool) -> (t: &'static str)
    ensures
        t@ == if is_ssh {
            "Edit SSH Profile"@
        } else if has_profile {
            "Edit Local Profile"@
        } else {
            "Session"@
        },
{
    if is_ssh {
        "Edit SSH Profile"
    } else if has_profile {
        "Edit Local Profile"
    } else {
        "Session"
    }
}

} // verus!
