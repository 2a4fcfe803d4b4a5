//! Playback controller: sequences play, pause, resume and stop for the audio
//! output session and composes the playback clock with the sink's pause flag.
//!
//! The output device and mixing sink themselves are owned by the outer
//! layer; this controller is the verified state machine they follow. A
//! `play` request is the two-step protocol `stop` (unconditional teardown —
//! the caller releases the old resources exactly when `stop` says a session
//! was live) followed by `open_session` once the new resources are built, or
//! by nothing on failure, which leaves the controller stopped.

use crate::clock::PlaybackClock;
use vstd::prelude::*;

verus! {

/// Fallback total duration when a track's length cannot be determined.
pub const DEFAULT_TRACK_DURATION_MS: u64 = 180000;

/// Why starting playback failed. Each variant is reported to the caller of
/// the play request; the controller stays safely stopped.
#[derive(Clone, Copy, PartialEq, Eq, Structural, Debug)]
pub enum PlaybackError {
    /// The track's byte stream could not be opened.
    OpenFailed,
    /// No decoder could be initialized for the track.
    DecodeInitFailed,
    /// No audio output device is available.
    DeviceUnavailable,
}

impl PlaybackError {
    /// A short description of the failure, for reporting to the user.
    pub fn describe(&self) -> (r: String)
        ensures
            *self is OpenFailed ==> r@ == "could not open the track"@,
            *self is DecodeInitFailed ==> r@ == "no decoder could be initialized for the track"@,
            *self is DeviceUnavailable ==> r@ == "no audio output device is available"@,
    {
        match self {
            PlaybackError::OpenFailed => "could not open the track".to_owned(),
            PlaybackError::DecodeInitFailed => {
                "no decoder could be initialized for the track".to_owned()
            },
            PlaybackError::DeviceUnavailable => "no audio output device is available".to_owned(),
        }
    }
}

/// Controller state: the currently loaded track (exactly when a session is
/// live), the sink's pause flag, and the playback clock.
pub struct AudioPlayer {
    pub session: Option<String>,
    pub sink_paused: bool,
    pub clock: PlaybackClock,
}

impl Default for AudioPlayer {
    fn default() -> (p: Self)
        ensures
            p == Self::spec_stopped(),
            p.wf(),
    {
        Self::new()
    }
}

impl AudioPlayer {
    pub open spec fn has_session(self) -> bool {
        self.session is Some
    }

    /// Without a session the controller is fully stopped; with one, the
    /// clock runs exactly while the sink is not paused.
    pub open spec fn wf(self) -> bool {
        &&& self.clock.wf()
        &&& !self.has_session() ==> self.clock.is_stopped() && !self.sink_paused
        &&& self.has_session() ==> (if self.sink_paused {
            self.clock.is_paused()
        } else {
            self.clock.is_running()
        })
    }

    pub open spec fn spec_stopped() -> Self {
        (AudioPlayer {
            session: None,
            sink_paused: false,
            clock: PlaybackClock::spec_stopped(),
        })
    }

    /// Teardown: the stopped state, plus whether resources must be released.
    pub open spec fn spec_stop(self) -> (Self, bool) {
        (Self::spec_stopped(), self.has_session())
    }

    /// A freshly opened session for `track`, clock started at `now`.
    pub open spec fn spec_opened(track: String, now: u64) -> Self {
        (AudioPlayer {
            session: Some(track),
            sink_paused: false,
            clock: PlaybackClock::spec_start(now),
        })
    }

    pub fn new() -> (p: Self)
        ensures
            p == Self::spec_stopped(),
            p.wf(),
    {
        AudioPlayer { session: None, sink_paused: false, clock: PlaybackClock::new() }
    }

    /// Unconditional teardown of any current session: the controller ends up
    /// stopped with the clock reset, from any state. Returns whether a live
    /// session was torn down — exactly then the caller must release the
    /// output resources (unconditionally, even if the sink was already in a
    /// terminal state).
    pub fn stop(&mut self) -> (released: bool)
        ensures
            (*final(self), released) == old(self).spec_stop(),
            final(self).wf(),
    {
        let released = self.session.is_some();
        self.session = None;
        self.sink_paused = false;
        self.clock.stop();
        released
    }

    /// Record that the new session's resources were all built and the
    /// decoded source was appended to the sink: the track is loaded and the
    /// clock starts fresh at `now`. Requires that the previous session was
    /// already torn down — a new session can only follow a full release.
    pub fn open_session(&mut self, track: String, now: u64)
        requires
            !old(self).has_session(),
        ensures
            *final(self) == Self::spec_opened(track, now),
            final(self).wf(),
    {
        self.session = Some(track);
        self.sink_paused = false;
        self.clock.start(now);
    }

    /// Pause: mirrors the sink's pause flag into the clock. A no-op (not an
    /// error) without a session or when already paused.
    pub fn pause(&mut self, now: u64)
        requires
            old(self).wf(),
            old(self).clock.bounded_at(now),
        ensures
            final(self).wf(),
            final(self).session == old(self).session,
            !old(self).has_session() || old(self).sink_paused ==> *final(self) == *old(self),
            old(self).has_session() && !old(self).sink_paused ==> final(self).sink_paused
                && final(self).clock == old(self).clock.spec_pause(now),
    {
        if self.session.is_some() && !self.sink_paused {
            self.clock.pause(now);
            self.sink_paused = true;
        }
    }

    /// Resume: restarts the clock segment. A no-op without a session or when
    /// not paused.
    pub fn resume(&mut self, now: u64)
        requires
            old(self).wf(),
        ensures
            final(self).wf(),
            final(self).session == old(self).session,
            !old(self).has_session() || !old(self).sink_paused ==> *final(self) == *old(self),
            old(self).has_session() && old(self).sink_paused ==> !final(self).sink_paused
                && final(self).clock == old(self).clock.spec_resume(now),
    {
        if self.session.is_some() && self.sink_paused {
            self.clock.resume(now);
            self.sink_paused = false;
        }
    }

    /// Current progress: the clock's elapsed time, gated by whether a
    /// session exists (no session means zero).
    pub fn progress(&self, now: u64) -> (ms: u64)
        requires
            self.wf(),
            self.clock.bounded_at(now),
        ensures
            self.has_session() ==> ms == self.clock.spec_elapsed(now),
            !self.has_session() ==> ms == 0,
    {
        if self.session.is_some() {
            self.clock.elapsed(now)
        } else {
            0
        }
    }

    /// The sink's pause flag when a session exists, else false.
    pub fn is_paused(&self) -> (b: bool)
        ensures
            b == (self.has_session() && self.sink_paused),
    {
        self.session.is_some() && self.sink_paused
    }

    /// The currently loaded track, if a session is live.
    pub fn current_file(&self) -> (r: Option<&String>)
        ensures
            match r {
                Some(t) => self.session == Some(*t),
                None => self.session is None,
            },
    {
        match &self.session {
            Some(t) => Some(t),
            None => None,
        }
    }
}

/// `play(A)` then `play(B)`: the second request begins with the teardown
/// step, which demands the release of A's resources (a session was live) and
/// leaves no session at all; only after that can `open_session` run — its
/// precondition rejects every state with a live session — so B's session is
/// constructed strictly after A's is fully released, and at most one session
/// is ever live.
pub proof fn lemma_play_play_releases_between(a: String, b: String, t1: u64, t2: u64)
    ensures
        AudioPlayer::spec_opened(a, t1).session == Some(a),
        ({
            let (torn, released_a) = AudioPlayer::spec_opened(a, t1).spec_stop();
            &&& released_a == true
            &&& !torn.has_session()
            &&& torn == AudioPlayer::spec_stopped()
        }),
        AudioPlayer::spec_opened(b, t2).session == Some(b),
{
}

/// Total track duration in milliseconds from a metadata-only probe: frame
/// count over sample rate when both are known and the rate is positive
/// (saturated at the representable maximum), else the fixed default.
pub fn track_duration_ms(n_frames: Option<u64>, sample_rate: Option<u32>) -> (ms: u64)
    ensures
        match (n_frames, sample_rate) {
            (Some(n), Some(r)) => {
                if r >= 1 {
                    ms == spec_track_duration_ms(n, r)
                } else {
                    ms == DEFAULT_TRACK_DURATION_MS
                }
            },
            _ => ms == DEFAULT_TRACK_DURATION_MS,
        },
{
    match (n_frames, sample_rate) {
        (Some(n), Some(r)) => {
            if r >= 1 {
                proof {
                    assert(n * 1000 <= u64::MAX * 1000) by (nonlinear_arith)
                        requires
                            0 <= n <= u64::MAX,
                    ;
                }
                let x: u128 = (n as u128) * 1000 / (r as u128);
                if x > (u64::MAX as u128) {
                    u64::MAX
                } else {
                    x as u64
                }
            } else {
                DEFAULT_TRACK_DURATION_MS
            }
        },
        _ => DEFAULT_TRACK_DURATION_MS,
    }
}

/// `n * 1000 / rate` milliseconds, saturated at `u64::MAX`.
pub open spec fn spec_track_duration_ms(n: u64, rate: u32) -> int {
    let exact = (n * 1000) / (rate as int);
    if exact > u64::MAX {
        u64::MAX as int
    } else {
        exact
    }
}

} // verus!
