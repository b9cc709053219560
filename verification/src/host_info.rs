//! The Info tab's host metrics: which machine to probe for the focused
//! pane (the remote host over its file channel, or this machine for a
//! local shell), when a probe is needed, and what its answer shows (the
//! system, processor and load lines).
//!
//! The caller runs the probes; the snapshot they return is carried as is.

use vstd::prelude::*;

use crate::text;

verus! {

pub struct HostInfo<S> {
    pub snapshot: Option<S>,
    /// The pane the snapshot (or the probe in flight) is for.
    pub pane: Option<u128>,
    pub loading: bool,
    pub error: Option<String>,
}

/// Which probe to run.
#[derive(Clone, Copy, Debug, PartialEq, Eq, Structural)]
pub enum Probe {
    /// This machine, for the local pane `0`.
    Local(u128),
    /// The remote host, over the file channel of pane `0`.
    Ssh(u128),
}

/// The focused pane as the Info tab sees it.
#[derive(Clone, Copy, Debug, PartialEq, Eq, Structural)]
pub struct ProbeFocus {
    pub pane: u128,
    /// Its file channel is up.
    pub sftp: bool,
    /// It runs a local shell (by its own kind or its profile's).
    pub local: bool,
}

/// The probe for `focus`, or why there is none.
pub open spec fn probe_for(focus: Option<ProbeFocus>) -> Result<Probe, Seq<char>> {
    match focus {
        None => Err("No session open"@),
        Some(f) => if f.sftp {
            Ok(Probe::Ssh(f.pane))
        } else if f.local {
            Ok(Probe::Local(f.pane))
        } else {
            Err("Connect SSH to refresh host info"@)
        },
    }
}

impl<S> HostInfo<S> {
    pub fn new() -> (h: Self)
        ensures
            h.snapshot is None,
            h.pane is None,
            !h.loading,
            h.error is None,
    {
        HostInfo { snapshot: None, pane: None, loading: false, error: None }
    }

    /// Forgets everything (a new session is bound).
    pub fn reset(&mut self)
        ensures
            final(self).snapshot is None,
            final(self).pane is None,
            !final(self).loading,
            final(self).error is None,
    {
        self.snapshot = None;
        self.pane = None;
        self.loading = false;
        self.error = None;
    }

    /// The Refresh button: the probe to start (then call `probe_started`),
    /// or the error shown.
    pub fn refresh(&mut self, focus: Option<ProbeFocus>) -> (probe: Option<Probe>)
        ensures
            match probe_for(focus) {
                Ok(p) => probe == Some(p) && final(self).error == old(self).error,
                Err(m) => probe is None && (final(self).error matches Some(e) && e@ == m),
            },
            final(self).snapshot == old(self).snapshot,
            final(self).pane == old(self).pane,
            final(self).loading == old(self).loading,
    {
        match focus {
            None => {
                self.error = Some(text::owned("No session open"));
                None
            },
            Some(f) => {
                if f.sftp {
                    Some(Probe::Ssh(f.pane))
                } else if f.local {
                    Some(Probe::Local(f.pane))
                } else {
                    self.error = Some(text::owned("Connect SSH to refresh host info"));
                    None
                }
            },
        }
    }

    /// Entering the Info tab (or drawing it): probe when nothing is loaded
    /// for the focused pane and no probe runs. `focused` is the focused
    /// pane, if any; returns whether to `refresh`.
    pub fn ensure(&mut self, focused: Option<u128>) -> (refresh: bool)
        ensures
            old(self).loading ==> !refresh && final(self).snapshot == old(self).snapshot && final(self).pane == old(self).pane && final(self).error == old(self).error && final(self).loading,
            !old(self).loading && focused is None ==> !refresh && final(self).snapshot is None
                && final(self).pane is None && (final(self).error matches Some(e) && e@
                == "No session open"@) && !final(self).loading,
            !old(self).loading && focused is Some ==> {
                &&& refresh == !(old(self).snapshot is Some && old(self).pane == focused)
                &&& final(self).snapshot == old(self).snapshot
                &&& final(self).pane == old(self).pane
                &&& final(self).error == old(self).error
                &&& !final(self).loading
            },
    {
        if self.loading {
            return false;
        }
        match focused {
            None => {
                self.snapshot = None;
                self.pane = None;
                self.error = Some(text::owned("No session open"));
                false
            },
            Some(p) => !(self.snapshot.is_some() && self.pane == Some(p)),
        }
    }

    /// A probe of `pane` started (`sent`: its request could be sent; a
    /// local probe always can).
    pub fn probe_started(&mut self, pane: u128, sent: bool)
        ensures
            sent ==> final(self).loading && final(self).error is None && final(self).pane == Some(pane)
                && final(self).snapshot == old(self).snapshot,
            !sent ==> !final(self).loading && (final(self).error matches Some(e) && e@
                == "SSH session unavailable"@) && final(self).pane == Some(pane)
                && final(self).snapshot == old(self).snapshot,
    {
        self.loading = true;
        self.error = None;
        self.pane = Some(pane);
        if !sent {
            self.loading = false;
            self.error = Some(text::owned("SSH session unavailable"));
        }
    }

    /// The probe answered: `Ok` with a snapshot, `Err` with the failure;
    /// `None` when it went away without answering.
    pub fn probe_reply(&mut self, reply: Option<Result<S, String>>)
        ensures
            !final(self).loading,
            final(self).pane == old(self).pane,
            match reply {
                Some(Ok(s)) => final(self).snapshot == Some(s) && final(self).error is None,
                Some(Err(e)) => final(self).snapshot == old(self).snapshot && (final(self).error matches Some(
                    m,
                ) && m@ == e@),
                None => final(self).snapshot == old(self).snapshot && (final(self).error matches Some(m)
                    && m@ == "Host probe cancelled"@),
            },
    {
        self.loading = false;
        match reply {
            Some(Ok(s)) => {
                self.snapshot = Some(s);
                self.error = None;
            },
            Some(Err(e)) => {
                self.error = Some(e);
            },
            None => {
                self.error = Some(text::owned("Host probe cancelled"));
            },
        }
    }
}

/// The system line: the OS name, then the kernel after ` · ` when known.
pub open spec fn os_text(os: Seq<char>, kernel: Seq<char>) -> Seq<char> {
    if kernel.len() == 0 {
        os
    } else {
        os + " · "@ + kernel
    }
}

pub fn os_line(os: &str, kernel: &str) -> (line: String)
    ensures
        line@ == os_text(os@, kernel@),
{
    let mut line = text::owned(os);
    if kernel.unicode_len() > 0 {
        line.append(" · ");
        line.append(kernel);
    }
    line
}

/// The processor line without its usage: the model (`—` when unknown)
/// and the number of cores.
pub open spec fn cpu_text(model: Seq<char>, cores: u64) -> Seq<char> {
    (if model.len() == 0 {
        "—"@
    } else {
        model
    }) + " · "@ + text::decimal(cores as nat) + " cores"@
}

pub fn cpu_line(model: &str, cores: u64) -> (line: String)
    ensures
        line@ == cpu_text(model@, cores),
{
    let mut line = if model.unicode_len() == 0 {
        text::owned("—")
    } else {
        text::owned(model)
    };
    line.append(" · ");
    text::push_decimal(&mut line, cores as u128);
    line.append(" cores");
    line
}

/// The footer: the load averages when reported, then the uptime text.
pub open spec fn footer_text(load: Option<Seq<char>>, uptime: Seq<char>) -> Seq<char> {
    match load {
        Some(l) => if l.len() > 0 {
            "Load "@ + l + " · Up "@ + uptime
        } else {
            "Up "@ + uptime
        },
        None => "Up "@ + uptime,
    }
}

pub fn footer_line(load: Option<&str>, uptime: &str) -> (line: String)
    ensures
        line@ == footer_text(
            match load {
                Some(l) => Some(l@),
                None => None,
            },
            uptime@,
        ),
{
    let mut line = match load {
        Some(l) => if l.unicode_len() > 0 {
            let mut t = text::owned("Load ");
            t.append(l);
            t.append(" · Up ");
            t
        } else {
            text::owned("Up ")
        },
        None => text::owned("Up "),
    };
    line.append(uptime);
    line
}

} // verus!
