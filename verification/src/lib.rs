//! Core of a local audio player: a sample normalizer that maps decoded PCM
//! frames of arbitrary bit depth and signedness onto mono samples in the
//! canonical range, a waveform buffer that accumulates those samples for
//! rendering, a playback clock that tracks elapsed musical time across
//! pause/resume cycles, and a playback controller that sequences sessions.
//!
//! All I/O (file decoding, the audio output device, directory walks) lives
//! outside this crate; the functions here work on plain values handed in by
//! that outer layer, and everything in this crate is verified.

pub mod clock;
pub mod normalize;
pub mod player;
pub mod scanner;
pub mod waveform;
