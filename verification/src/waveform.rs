//! Waveform pipeline, consumer side and producer decisions.
//!
//! The background producer decodes a track incrementally and sends messages
//! across a channel: an early sample-rate announcement, then chunks of
//! normalized mono samples in decode order. The outer layer owns the channel
//! and the decode loop; the per-event decisions (`producer_step`,
//! `rate_announcement`) and the consumer-side accumulation
//! (`WaveformGenerator`) live here and are verified.

use crate::normalize::sample_at;
use crate::normalize::normalize;
use crate::normalize::FrameBuffer;
use crate::normalize::Sample;
use vstd::prelude::*;

verus! {

/// Conventional sample rate assumed until the real one is announced.
pub const DEFAULT_SAMPLE_RATE: u32 = 44100;

/// Message from the background waveform producer to the consumer buffer.
#[derive(Clone, Debug)]
pub enum WaveformMsg {
    /// Sample-rate announcement discovered from the track's metadata.
    Rate(u32),
    /// One chunk of normalized mono samples in decode order.
    Chunk(Vec<Sample>),
}

/// One decode-loop event, as classified from the decode library's outcome
/// for a single packet.
pub enum DecodeEvent {
    /// A packet decoded into typed PCM frames.
    Frames(FrameBuffer),
    /// A packet-local decode failure: recoverable corruption.
    CorruptPacket,
    /// A transport-level failure or the end of the stream.
    TransportEnded,
}

/// What the decode loop must do next for one event.
pub enum ProducerAction {
    /// Send this non-empty chunk of normalized samples to the consumer.
    Send(Vec<Sample>),
    /// Skip this packet and pull the next one.
    SkipPacket,
    /// Stop the loop cleanly.
    Finish,
}

/// Decision for one decode-loop event: decoded frames are normalized and
/// sent (unless the chunk is empty, which is skipped), a corrupt packet is
/// skipped so that local corruption never aborts the whole waveform, and a
/// transport failure ends the loop as its expected termination.
pub fn producer_step(ev: DecodeEvent) -> (a: ProducerAction)
    requires
        ev matches DecodeEvent::Frames(b) ==> b.wf(),
    ensures
        match ev {
            DecodeEvent::Frames(b) => {
                if b.frames() == 0 {
                    a is SkipPacket
                } else {
                    a matches ProducerAction::Send(c) && c@.len() == b.frames() && (forall|f: int|
                        0 <= f < c@.len() ==> c@[f] == sample_at(b, f))
                }
            },
            DecodeEvent::CorruptPacket => a is SkipPacket,
            DecodeEvent::TransportEnded => a is Finish,
        },
{
    match ev {
        DecodeEvent::Frames(b) => {
            let chunk = normalize(&b);
            if chunk.len() == 0 {
                ProducerAction::SkipPacket
            } else {
                ProducerAction::Send(chunk)
            }
        },
        DecodeEvent::CorruptPacket => ProducerAction::SkipPacket,
        DecodeEvent::TransportEnded => ProducerAction::Finish,
    }
}

/// The rate announcement for a metadata hint: a positive discovered rate is
/// announced (once, as early as possible); an absent or zero rate is not.
pub fn rate_announcement(hint: Option<u32>) -> (r: Option<WaveformMsg>)
    ensures
        match hint {
            Some(rate) => {
                if rate >= 1 {
                    r == Some(WaveformMsg::Rate(rate))
                } else {
                    r is None
                }
            },
            None => r is None,
        },
{
    match hint {
        Some(rate) => {
            if rate >= 1 {
                Some(WaveformMsg::Rate(rate))
            } else {
                None
            }
        },
        None => None,
    }
}

/// Effect of one message on the accumulated samples and the stored rate:
/// a chunk is appended in order, a positive rate announcement replaces the
/// stored rate, and a zero rate is ignored.
pub open spec fn apply_msg(samples: Seq<Sample>, rate: u32, msg: WaveformMsg) -> (Seq<Sample>, u32) {
    match msg {
        WaveformMsg::Rate(r) => (
            samples,
            if r >= 1 {
                r
            } else {
                rate
            },
        ),
        WaveformMsg::Chunk(c) => (samples + c@, rate),
    }
}

/// Effect of draining a whole batch of messages, first to last.
pub open spec fn apply_msgs(samples: Seq<Sample>, rate: u32, msgs: Seq<WaveformMsg>) -> (
    Seq<Sample>,
    u32,
)
    decreases msgs.len(),
{
    if msgs.len() == 0 {
        (samples, rate)
    } else {
        let stepped = apply_msg(samples, rate, msgs[0]);
        apply_msgs(stepped.0, stepped.1, msgs.drop_first())
    }
}

/// Consumer-side accumulator: a single growable, append-only sequence of
/// normalized samples plus the discovered sample rate.
pub struct WaveformGenerator {
    pub buffer: Vec<Sample>,
    pub sample_rate: u32,
}

impl Default for WaveformGenerator {
    fn default() -> (g: Self)
        ensures
            g.wf(),
            g.buffer@ == Seq::<Sample>::empty(),
            g.sample_rate == DEFAULT_SAMPLE_RATE,
    {
        Self::new()
    }
}

impl WaveformGenerator {
    /// The stored sample rate is always positive.
    pub open spec fn wf(self) -> bool {
        self.sample_rate >= 1
    }

    /// Sample index window `[start, end)` covering `window_ms` centred on
    /// `center_ms`, clamped to the buffer bounds; degenerate ranges collapse
    /// to the empty window `[0, 0)`.
    pub open spec fn window_range(self, center_ms: u64, window_ms: u64) -> (int, int) {
        let center = spec_ms_to_samples(center_ms, self.sample_rate);
        let width = spec_ms_to_samples(window_ms, self.sample_rate);
        let start = if center >= width / 2 {
            center - width / 2
        } else {
            0
        };
        let len = self.buffer@.len() as int;
        let end = if start + width > len {
            len
        } else {
            start + width
        };
        if start < end {
            (start, end)
        } else {
            (0, 0)
        }
    }

    pub fn new() -> (g: Self)
        ensures
            g.wf(),
            g.buffer@ == Seq::<Sample>::empty(),
            g.sample_rate == DEFAULT_SAMPLE_RATE,
    {
        WaveformGenerator { buffer: Vec::new(), sample_rate: DEFAULT_SAMPLE_RATE }
    }

    /// Discard the accumulated waveform before loading a new track; the rate
    /// keeps its last known value until a new announcement arrives.
    pub fn reset(&mut self)
        ensures
            final(self).buffer@ == Seq::<Sample>::empty(),
            final(self).sample_rate == old(self).sample_rate,
    {
        self.buffer = Vec::new();
    }

    /// Store a discovered sample rate; zero is ignored, keeping the rate
    /// positive.
    pub fn set_sample_rate(&mut self, rate: u32)
        requires
            old(self).wf(),
        ensures
            final(self).wf(),
            final(self).buffer@ == old(self).buffer@,
            final(self).sample_rate == (if rate >= 1 {
                rate
            } else {
                old(self).sample_rate
            }),
    {
        if rate >= 1 {
            self.sample_rate = rate;
        }
    }

    pub fn get_sample_rate(&self) -> (r: u32)
        ensures
            r == self.sample_rate,
    {
        self.sample_rate
    }

    pub fn get_buffer(&self) -> (b: &Vec<Sample>)
        ensures
            b@ == self.buffer@,
    {
        &self.buffer
    }

    /// Drain one batch of pending messages in arrival order: chunks are
    /// appended in order, rate announcements update the stored rate. Safe to
    /// call with an empty batch (a no-op). Non-blocking by construction: the
    /// outer layer collects whatever is currently available and hands it in.
    #[verifier::loop_isolation(false)]
    pub fn update_buffer(&mut self, pending: Vec<WaveformMsg>)
        requires
            old(self).wf(),
        ensures
            final(self).wf(),
            final(self).buffer@ == apply_msgs(
                old(self).buffer@,
                old(self).sample_rate,
                pending@,
            ).0,
            final(self).sample_rate == apply_msgs(
                old(self).buffer@,
                old(self).sample_rate,
                pending@,
            ).1,
    {
        let ghost all = pending@;
        let mut pending = pending;
        while pending.len() > 0
            invariant
                self.wf(),
                apply_msgs(old(self).buffer@, old(self).sample_rate, all) == apply_msgs(
                    self.buffer@,
                    self.sample_rate,
                    pending@,
                ),
            decreases pending@.len(),
        {
            let ghost before = pending@;
            let ghost buf_at_entry = self.buffer@;
            let ghost rate_at_entry = self.sample_rate;
            let msg = pending.remove(0);
            proof {
                assert(before.drop_first() =~= pending@);
            }
            match msg {
                WaveformMsg::Rate(r) => {
                    if r >= 1 {
                        self.sample_rate = r;
                    }
                },
                WaveformMsg::Chunk(chunk) => {
                    let mut i: usize = 0;
                    while i < chunk.len()
                        invariant
                            i <= chunk@.len(),
                            self.sample_rate == rate_at_entry,
                            self.buffer@ == buf_at_entry + chunk@.take(i as int),
                        decreases chunk@.len() - i,
                    {
                        self.buffer.push(chunk[i]);
                        proof {
                            assert(buf_at_entry + chunk@.take(i as int) + seq![chunk@[i as int]]
                                =~= buf_at_entry + chunk@.take(i + 1));
                        }
                        i = i + 1;
                    }
                    proof {
                        assert(chunk@.take(chunk@.len() as int) =~= chunk@);
                    }
                },
            }
            proof {
                assert((self.buffer@, self.sample_rate) == apply_msg(
                    buf_at_entry,
                    rate_at_entry,
                    before[0],
                ));
                assert(apply_msgs(buf_at_entry, rate_at_entry, before) == apply_msgs(
                    self.buffer@,
                    self.sample_rate,
                    pending@,
                ));
            }
        }
        proof {
            assert(apply_msgs(self.buffer@, self.sample_rate, pending@) == (
                self.buffer@,
                self.sample_rate,
            ));
        }
    }

    /// The contiguous sub-range of the buffer covering `window_ms`
    /// milliseconds centred at `center_ms`, clamped to the buffer bounds.
    /// Out-of-range centres saturate; a degenerate range yields an empty
    /// slice, never a failure.
    pub fn get_visible_waveform(&self, center_ms: u64, window_ms: u64) -> (w: &[Sample])
        ensures
            ({
                let (start, end) = self.window_range(center_ms, window_ms);
                &&& 0 <= start <= end <= self.buffer@.len()
                &&& w@ == self.buffer@.subrange(start, end)
            }),
    {
        let len = self.buffer.len();
        let center = ms_to_samples(center_ms, self.sample_rate);
        let width = ms_to_samples(window_ms, self.sample_rate);
        let start = if center >= width / 2 {
            center - width / 2
        } else {
            0
        };
        let sum: u128 = (start as u128) + (width as u128);
        let end = if sum > (len as u128) {
            len
        } else {
            start + width
        };
        if start < end {
            vstd::slice::slice_subrange(self.buffer.as_slice(), start, end)
        } else {
            vstd::slice::slice_subrange(self.buffer.as_slice(), 0, 0)
        }
    }
}

/// `ms * rate / 1000`, saturated at the machine's index limit.
pub open spec fn spec_ms_to_samples(ms: u64, rate: u32) -> int {
    let exact = (ms * rate) / 1000;
    if exact > usize::MAX {
        usize::MAX as int
    } else {
        exact
    }
}

fn ms_to_samples(ms: u64, rate: u32) -> (n: usize)
    ensures
        n == spec_ms_to_samples(ms, rate),
{
    proof {
        assert(ms * rate <= u64::MAX * (u32::MAX as int)) by (nonlinear_arith)
            requires
                0 <= ms <= u64::MAX,
                0 <= rate <= u32::MAX,
        ;
    }
    let x: u128 = (ms as u128) * (rate as u128) / 1000;
    if x > (usize::MAX as u128) {
        usize::MAX
    } else {
        x as usize
    }
}

/// The buffer is append-only and order-preserving: draining messages never
/// reorders or drops what was already accumulated — the samples held before
/// a drain are exactly the front of the samples held after it.
pub proof fn lemma_buffer_append_only(samples: Seq<Sample>, rate: u32, msgs: Seq<WaveformMsg>)
    ensures
        samples.len() <= apply_msgs(samples, rate, msgs).0.len(),
        apply_msgs(samples, rate, msgs).0.take(samples.len() as int) == samples,
    decreases msgs.len(),
{
    if msgs.len() == 0 {
        assert(apply_msgs(samples, rate, msgs).0.take(samples.len() as int) =~= samples);
    } else {
        let stepped = apply_msg(samples, rate, msgs[0]);
        lemma_buffer_append_only(stepped.0, stepped.1, msgs.drop_first());
        let whole = apply_msgs(samples, rate, msgs).0;
        assert(stepped.0.take(samples.len() as int) =~= samples);
        assert(whole.take(samples.len() as int) =~= whole.take(
            stepped.0.len() as int,
        ).take(samples.len() as int));
    }
}

/// Chunks drained across several calls concatenate exactly as if drained in
/// one call: applying two batches in order equals applying their
/// concatenation, for the samples and for the stored rate alike.
pub proof fn lemma_drain_in_batches(
    samples: Seq<Sample>,
    rate: u32,
    first: Seq<WaveformMsg>,
    second: Seq<WaveformMsg>,
)
    ensures
        apply_msgs(samples, rate, first + second) == apply_msgs(
            apply_msgs(samples, rate, first).0,
            apply_msgs(samples, rate, first).1,
            second,
        ),
    decreases first.len(),
{
    if first.len() == 0 {
        assert(first + second =~= second);
    } else {
        assert((first + second).drop_first() =~= first.drop_first() + second);
        let stepped = apply_msg(samples, rate, first[0]);
        lemma_drain_in_batches(stepped.0, stepped.1, first.drop_first(), second);
    }
}

} // verus!
