//! When the workspace is written to disk: a change request arms a short
//! debounce timer, a newer request or an immediate flush makes older timers
//! stale, and once the quit flush has run nothing is scheduled any more.
//!
//! The caller owns the timer and the writing; it asks this state what to do
//! when an event arrives and when a timer fires.

use vstd::prelude::*;

verus! {

/// Debounce delay before a requested write, in milliseconds.
pub const PERSIST_DEBOUNCE_MS: u64 = 300;

/// What the caller does after the quit request.
#[derive(Clone, Copy, Debug, PartialEq, Eq, Structural)]
pub enum QuitStep {
    /// The quit flush already ran: nothing to do.
    AlreadyFlushed,
    /// Write everything now, then quit.
    FlushAndQuit,
}

pub struct Persistence {
    /// Bumped by every schedule and every flush; a timer only flushes when
    /// it carries the current value.
    pub debounce_generation: u64,
    /// Set once the quit flush ran; window close may then proceed.
    pub flushed_for_quit: bool,
}

/// `g + 1`, wrapping.
pub open spec fn bump(g: u64) -> u64 {
    if g == u64::MAX {
        0
    } else {
        (g + 1) as u64
    }
}

/// The state after a flush.
pub open spec fn flushed(p: Persistence) -> Persistence {
    Persistence { debounce_generation: bump(p.debounce_generation), ..p }
}

/// The state after a schedule request, and the generation armed.
pub open spec fn scheduled(p: Persistence) -> (Persistence, Option<u64>) {
    if p.flushed_for_quit {
        (p, None)
    } else {
        (flushed(p), Some(bump(p.debounce_generation)))
    }
}

/// Whether a timer armed with `generation` writes when it fires.
pub open spec fn fires(p: Persistence, generation: u64) -> bool {
    generation == p.debounce_generation && !p.flushed_for_quit
}

/// The state after a timer armed with `generation` fired.
pub open spec fn after_fire(p: Persistence, generation: u64) -> Persistence {
    if fires(p, generation) {
        flushed(p)
    } else {
        p
    }
}

/// The state after the quit request, and what to do.
pub open spec fn quitting(p: Persistence) -> (Persistence, QuitStep) {
    if p.flushed_for_quit {
        (p, QuitStep::AlreadyFlushed)
    } else {
        (Persistence { flushed_for_quit: true, ..flushed(p) }, QuitStep::FlushAndQuit)
    }
}

impl Persistence {
    pub fn new() -> (p: Self)
        ensures
            p == (Persistence { debounce_generation: 0, flushed_for_quit: false }),
    {
        Persistence { debounce_generation: 0, flushed_for_quit: false }
    }

    /// Whether the window may close: only after the quit flush.
    pub fn allow_window_close(&self) -> (ok: bool)
        ensures
            ok == self.flushed_for_quit,
    {
        self.flushed_for_quit
    }

    /// An immediate write (Ctrl+S, quit, a debounce timer that fired): any
    /// armed timer becomes stale. The caller writes.
    pub fn flush_now(&mut self)
        ensures
            *final(self) == flushed(*old(self)),
    {
        self.debounce_generation = self.debounce_generation.wrapping_add(1);
    }

    /// A change asks to be written: returns the generation to arm a timer
    /// with, or `None` after the quit flush.
    pub fn schedule_debounce(&mut self) -> (armed: Option<u64>)
        ensures
            (*final(self), armed) == scheduled(*old(self)),
    {
        if self.flushed_for_quit {
            return None;
        }
        self.debounce_generation = self.debounce_generation.wrapping_add(1);
        Some(self.debounce_generation)
    }

    /// A timer armed with `generation` fired: returns whether to write now;
    /// writing counts as a flush.
    pub fn debounce_fired(&mut self, generation: u64) -> (flush: bool)
        ensures
            flush == fires(*old(self), generation),
            *final(self) == after_fire(*old(self), generation),
    {
        if self.debounce_generation != generation || self.flushed_for_quit {
            return false;
        }
        self.flush_now();
        true
    }

    /// The application is about to quit: flush once, then quit.
    pub fn on_will_quit(&mut self) -> (step: QuitStep)
        ensures
            (*final(self), step) == quitting(*old(self)),
    {
        if self.flushed_for_quit {
            return QuitStep::AlreadyFlushed;
        }
        self.flush_now();
        self.flushed_for_quit = true;
        QuitStep::FlushAndQuit
    }
}

/// The timer of the latest request writes when it fires.
pub proof fn law_latest_timer_flushes(p: Persistence)
    requires
        !p.flushed_for_quit,
    ensures
        fires(scheduled(p).0, scheduled(p).1->0),
{
}

/// A later request makes an armed timer stale.
pub proof fn law_reschedule_makes_stale(p: Persistence)
    requires
        !p.flushed_for_quit,
    ensures
        !fires(scheduled(scheduled(p).0).0, scheduled(p).1->0),
{
}

/// An immediate flush makes an armed timer stale.
pub proof fn law_flush_makes_stale(p: Persistence)
    requires
        !p.flushed_for_quit,
    ensures
        !fires(flushed(scheduled(p).0), scheduled(p).1->0),
{
}

/// After the quit flush: nothing is scheduled, no timer writes, and a
/// second quit request does nothing.
pub proof fn law_quit_flushes_once(p: Persistence, generation: u64)
    ensures
        ({
            let q = quitting(p).0;
            &&& q.flushed_for_quit
            &&& scheduled(q) == (q, None::<u64>)
            &&& !fires(q, generation)
            &&& quitting(q) == (q, QuitStep::AlreadyFlushed)
        }),
{
}

} // verus!
