//! Playback clock: tracks elapsed "musical" time across play, pause, resume
//! and stop transitions from wall-clock timestamps handed in by the caller.
//!
//! Every timestamp is a millisecond reading of a monotonic wall clock; the
//! clock itself never asks for the time, so its whole behaviour is a function
//! of the values passed in.

use vstd::prelude::*;

verus! {

/// Phase of the clock: fully stopped, running since a wall-clock instant
/// (milliseconds), or paused between segments.
#[derive(Clone, Copy, PartialEq, Eq, Structural, Debug)]
pub enum ClockState {
    Stopped,
    Running(u64),
    Paused,
}

/// Elapsed playback time is the sum of all completed running segments
/// (`accumulated_ms`) plus, while running, the age of the current segment.
#[derive(Clone, Copy, PartialEq, Eq, Structural, Debug)]
pub struct PlaybackClock {
    pub accumulated_ms: u64,
    pub state: ClockState,
}

impl PlaybackClock {
    /// A stopped clock has nothing accumulated.
    pub open spec fn wf(self) -> bool {
        self.state is Stopped ==> self.accumulated_ms == 0
    }

    pub open spec fn is_running(self) -> bool {
        self.state is Running
    }

    pub open spec fn is_paused(self) -> bool {
        self.state is Paused
    }

    pub open spec fn is_stopped(self) -> bool {
        self.state is Stopped
    }

    /// The reading `now` is late enough and the fold into `accumulated_ms`
    /// cannot overflow.
    pub open spec fn bounded_at(self, now: u64) -> bool {
        match self.state {
            ClockState::Running(t) => t <= now && self.accumulated_ms + (now - t) <= u64::MAX,
            _ => true,
        }
    }

    /// Elapsed time: accumulated segments plus the running segment, if any.
    pub open spec fn spec_elapsed(self, now: u64) -> int {
        match self.state {
            ClockState::Running(t) => self.accumulated_ms + now - t,
            _ => self.accumulated_ms as int,
        }
    }

    pub open spec fn spec_stopped() -> Self {
        (PlaybackClock { accumulated_ms: 0, state: ClockState::Stopped })
    }

    pub open spec fn spec_start(now: u64) -> Self {
        (PlaybackClock { accumulated_ms: 0, state: ClockState::Running(now) })
    }

    pub open spec fn spec_pause(self, now: u64) -> Self {
        match self.state {
            ClockState::Running(t) => (PlaybackClock {
                accumulated_ms: (self.accumulated_ms + (now - t)) as u64,
                state: ClockState::Paused,
            }),
            _ => self,
        }
    }

    pub open spec fn spec_resume(self, now: u64) -> Self {
        match self.state {
            ClockState::Paused => (PlaybackClock {
                accumulated_ms: self.accumulated_ms,
                state: ClockState::Running(now),
            }),
            _ => self,
        }
    }

    pub fn new() -> (c: Self)
        ensures
            c == Self::spec_stopped(),
    {
        PlaybackClock { accumulated_ms: 0, state: ClockState::Stopped }
    }

    /// Begin a track from position zero: accumulated time is reset and a new
    /// running segment opens at `now`.
    pub fn start(&mut self, now: u64)
        ensures
            *final(self) == Self::spec_start(now),
    {
        self.accumulated_ms = 0;
        self.state = ClockState::Running(now);
    }

    /// Fold the current running segment into the accumulated total.
    /// Valid only while running.
    pub fn pause(&mut self, now: u64)
        requires
            old(self).is_running(),
            old(self).bounded_at(now),
        ensures
            *final(self) == old(self).spec_pause(now),
            final(self).is_paused(),
    {
        match self.state {
            ClockState::Running(t) => {
                self.accumulated_ms = self.accumulated_ms + (now - t);
                self.state = ClockState::Paused;
            },
            _ => {},
        }
    }

    /// Open a new running segment at `now`, keeping the accumulated total.
    /// Valid only while paused.
    pub fn resume(&mut self, now: u64)
        requires
            old(self).is_paused(),
        ensures
            *final(self) == old(self).spec_resume(now),
            final(self).is_running(),
    {
        self.state = ClockState::Running(now);
    }

    /// Reset to the stopped state from anywhere.
    pub fn stop(&mut self)
        ensures
            *final(self) == Self::spec_stopped(),
    {
        self.accumulated_ms = 0;
        self.state = ClockState::Stopped;
    }

    /// Current progress at wall-clock reading `now`.
    pub fn elapsed(&self, now: u64) -> (r: u64)
        requires
            self.bounded_at(now),
        ensures
            r == self.spec_elapsed(now),
    {
        match self.state {
            ClockState::Running(t) => self.accumulated_ms + (now - t),
            _ => self.accumulated_ms,
        }
    }
}

/// Time spent paused never counts: starting at `t0`, pausing at `t1`,
/// resuming at `t2` and reading the clock at `t3` yields exactly the two
/// running segments `t1 - t0` and `t3 - t2`, whatever passed in between.
pub proof fn lemma_paused_time_not_counted(t0: u64, t1: u64, t2: u64, t3: u64)
    requires
        t0 <= t1,
        t2 <= t3,
        (t1 - t0) + (t3 - t2) <= u64::MAX,
    ensures
        PlaybackClock::spec_start(t0).spec_pause(t1).spec_resume(t2).spec_elapsed(t3) == (t1 - t0)
            + (t3 - t2),
{
}

/// Stopping resets elapsed time to zero, from any state, and a stopped clock
/// keeps reporting zero at every later reading until it is started again.
pub proof fn lemma_stop_resets_elapsed(now1: u64, now2: u64)
    ensures
        PlaybackClock::spec_stopped().spec_elapsed(now1) == 0,
        PlaybackClock::spec_stopped().spec_elapsed(now2) == 0,
{
}

} // verus!
