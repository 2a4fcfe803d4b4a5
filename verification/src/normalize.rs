//! Sample normalizer: maps one decoded PCM frame buffer of arbitrary bit
//! depth and signedness onto mono samples in the canonical range [-1, 1].
//!
//! Per encoding family, a raw channel value maps to:
//! - unsigned N-bit: `(raw - midpoint) / midpoint`, with `midpoint = 2^(N-1)`;
//! - signed N-bit: `raw / (midpoint - 1)`, i.e. division by the largest
//!   positive value. The most negative raw value therefore overshoots -1.0
//!   slightly; that asymmetry is documented behaviour, not an error.
//!
//! A frame's mono sample is the arithmetic mean of its channel values, so it
//! is the exact rational `num / den` with
//! `num = sum(raw) - channels * midpoint` (unsigned) or `num = sum(raw)`
//! (signed), and `den = channels * midpoint` or `channels * (midpoint - 1)`.
//! This module computes that rational exactly; dividing it out into a
//! floating-point value is left to the unverified rendering edge. Frames
//! already encoded as floats are passed through by that edge as well and
//! never reach this module.

use vstd::prelude::*;

verus! {

/// Channel counts are capped so that all numerators and denominators fit in
/// an `i64`: with at most 2^30 channels of at most 32-bit depth, every sum
/// stays below 2^62.
pub const MAX_CHANNELS: usize = 0x4000_0000;

/// Integer PCM encodings: unsigned or signed, 8, 16, 24 or 32 bits.
#[derive(Clone, Copy, PartialEq, Eq, Structural, Debug)]
pub enum SampleEncoding {
    U8,
    U16,
    U24,
    U32,
    S8,
    S16,
    S24,
    S32,
}

impl SampleEncoding {
    /// `2^(N-1)` for an N-bit encoding.
    pub open spec fn midpoint(self) -> int {
        match self {
            SampleEncoding::U8 | SampleEncoding::S8 => 0x80,
            SampleEncoding::U16 | SampleEncoding::S16 => 0x8000,
            SampleEncoding::U24 | SampleEncoding::S24 => 0x80_0000,
            SampleEncoding::U32 | SampleEncoding::S32 => 0x8000_0000,
        }
    }

    pub open spec fn is_unsigned(self) -> bool {
        match self {
            SampleEncoding::U8
            | SampleEncoding::U16
            | SampleEncoding::U24
            | SampleEncoding::U32 => true,
            _ => false,
        }
    }

    /// The raw values this encoding admits: `[0, 2^N)` when unsigned,
    /// `[-2^(N-1), 2^(N-1))` when signed.
    pub open spec fn in_range(self, v: int) -> bool {
        if self.is_unsigned() {
            0 <= v < 2 * self.midpoint()
        } else {
            -self.midpoint() <= v < self.midpoint()
        }
    }

    pub fn midpoint_value(&self) -> (m: i64)
        ensures
            m == self.midpoint(),
    {
        match self {
            SampleEncoding::U8 | SampleEncoding::S8 => 0x80,
            SampleEncoding::U16 | SampleEncoding::S16 => 0x8000,
            SampleEncoding::U24 | SampleEncoding::S24 => 0x80_0000,
            SampleEncoding::U32 | SampleEncoding::S32 => 0x8000_0000,
        }
    }

    pub fn unsigned(&self) -> (b: bool)
        ensures
            b == self.is_unsigned(),
    {
        match self {
            SampleEncoding::U8
            | SampleEncoding::U16
            | SampleEncoding::U24
            | SampleEncoding::U32 => true,
            _ => false,
        }
    }

    /// Does `v` fit this encoding's raw range?
    pub fn raw_in_range(&self, v: i64) -> (b: bool)
        ensures
            b == self.in_range(v as int),
    {
        let mid = self.midpoint_value();
        if self.unsigned() {
            0 <= v && v < 2 * mid
        } else {
            -mid <= v && v < mid
        }
    }
}

/// One normalized mono sample, the exact rational `num / den` in [-1, 1]
/// (up to the documented signed asymmetry). `den` is always positive.
#[derive(Clone, Copy, PartialEq, Eq, Structural, Debug)]
pub struct Sample {
    pub num: i64,
    pub den: i64,
}

/// One decoded frame buffer in planar form: one plane of raw values per
/// channel, all planes the same length, tagged with the sample encoding.
pub struct FrameBuffer {
    pub encoding: SampleEncoding,
    pub planes: Vec<Vec<i64>>,
}

/// Well-formed planar data for `encoding`: a bounded channel count, equal
/// plane lengths, and every raw value in the encoding's range.
pub open spec fn wf_planes(encoding: SampleEncoding, planes: Seq<Vec<i64>>) -> bool {
    &&& planes.len() <= MAX_CHANNELS
    &&& forall|c: int| 0 <= c < planes.len() ==> (#[trigger] planes[c])@.len() == planes[0]@.len()
    &&& forall|c: int, f: int|
        0 <= c < planes.len() && 0 <= f < planes[c]@.len() ==> encoding.in_range(
            #[trigger] planes[c]@[f] as int,
        )
}

impl FrameBuffer {
    pub open spec fn channels(self) -> nat {
        self.planes@.len()
    }

    /// With no channels there are no frames (the undefined zero-channel case
    /// degrades to empty output).
    pub open spec fn frames(self) -> nat {
        if self.planes@.len() == 0 {
            0
        } else {
            self.planes@[0]@.len()
        }
    }

    /// The raw values of frame `f`, one per channel.
    pub open spec fn frame(self, f: int) -> Seq<i64> {
        Seq::new(self.channels(), |c: int| self.planes@[c]@[f])
    }

    pub open spec fn wf(self) -> bool {
        wf_planes(self.encoding, self.planes@)
    }

    /// Validates planar data and builds a well-formed buffer: `Some` exactly
    /// when the planes are well formed for the encoding.
    #[verifier::loop_isolation(false)]
    pub fn new(encoding: SampleEncoding, planes: Vec<Vec<i64>>) -> (r: Option<FrameBuffer>)
        ensures
            r is Some <==> wf_planes(encoding, planes@),
            match r {
                Some(b) => b.encoding == encoding && b.planes@ == planes@ && b.wf(),
                None => true,
            },
    {
        if planes.len() > MAX_CHANNELS {
            return None;
        }
        let frames: usize = if planes.len() == 0 {
            0
        } else {
            planes[0].len()
        };
        let mut c: usize = 0;
        while c < planes.len()
            invariant
                c <= planes@.len(),
                planes@.len() <= MAX_CHANNELS,
                c > 0 ==> frames == planes@[0]@.len(),
                planes@.len() > 0 ==> frames == planes@[0]@.len(),
                forall|i: int| 0 <= i < c ==> (#[trigger] planes@[i])@.len() == frames,
                forall|i: int, f: int|
                    0 <= i < c && 0 <= f < planes@[i]@.len() ==> encoding.in_range(
                        #[trigger] planes@[i]@[f] as int,
                    ),
            decreases planes@.len() - c,
        {
            let plane = &planes[c];
            if plane.len() != frames {
                proof {
                    assert((planes@[c as int])@.len() != (planes@[0])@.len());
                }
                return None;
            }
            let mut f: usize = 0;
            while f < plane.len()
                invariant
                    f <= plane@.len(),
                    forall|j: int| 0 <= j < f ==> encoding.in_range(#[trigger] plane@[j] as int),
                decreases plane@.len() - f,
            {
                if !encoding.raw_in_range(plane[f]) {
                    proof {
                        assert(!encoding.in_range((planes@[c as int])@[f as int] as int));
                    }
                    return None;
                }
                f = f + 1;
            }
            c = c + 1;
        }
        Some(FrameBuffer { encoding, planes })
    }
}

/// Sum of one frame's raw values across its channels.
pub open spec fn frame_sum(fr: Seq<i64>) -> int
    decreases fr.len(),
{
    if fr.len() == 0 {
        0
    } else {
        fr[0] + frame_sum(fr.drop_first())
    }
}

/// Numerator of the normalized mean of a frame with `ch` channels.
pub open spec fn norm_num(encoding: SampleEncoding, fr: Seq<i64>) -> int {
    if encoding.is_unsigned() {
        frame_sum(fr) - fr.len() * encoding.midpoint()
    } else {
        frame_sum(fr)
    }
}

/// Denominator of the normalized mean: `channels * midpoint` for unsigned
/// encodings, `channels * (midpoint - 1)` for signed ones.
pub open spec fn norm_den(encoding: SampleEncoding, ch: nat) -> int {
    if encoding.is_unsigned() {
        ch * encoding.midpoint()
    } else {
        ch * (encoding.midpoint() - 1)
    }
}

/// The normalized mono sample of frame `f` of a buffer.
pub open spec fn sample_at(buf: FrameBuffer, f: int) -> Sample {
    (Sample {
        num: norm_num(buf.encoding, buf.frame(f)) as i64,
        den: norm_den(buf.encoding, buf.channels()) as i64,
    })
}

proof fn lemma_frame_sum_snoc(s: Seq<i64>, v: i64)
    ensures
        frame_sum(s.push(v)) == frame_sum(s) + v,
    decreases s.len(),
{
    if s.len() == 0 {
        assert(s.push(v).drop_first() =~= Seq::<i64>::empty());
        assert(s.push(v)[0] == v);
        assert(frame_sum(s.push(v)) == v + frame_sum(s.push(v).drop_first()));
        assert(frame_sum(Seq::<i64>::empty()) == 0);
    } else {
        assert(s.push(v).drop_first() =~= s.drop_first().push(v));
        lemma_frame_sum_snoc(s.drop_first(), v);
        assert(s.push(v)[0] == s[0]);
        assert(frame_sum(s.push(v)) == s[0] + frame_sum(s.drop_first().push(v)));
    }
}

proof fn lemma_frame_sum_bounds(s: Seq<i64>, lo: int, hi: int)
    requires
        forall|i: int| 0 <= i < s.len() ==> lo <= #[trigger] s[i] <= hi,
    ensures
        s.len() * lo <= frame_sum(s) <= s.len() * hi,
    decreases s.len(),
{
    if s.len() > 0 {
        lemma_frame_sum_bounds(s.drop_first(), lo, hi);
        assert((s.len() - 1) * lo + lo == s.len() * lo) by (nonlinear_arith);
        assert((s.len() - 1) * hi + hi == s.len() * hi) by (nonlinear_arith);
    }
}

/// Normalize one decoded frame buffer into its sequence of exact mono
/// samples, one per frame, in frame order. Empty input (no frames, or the
/// undefined zero-channel case) yields empty output; this never fails.
pub fn normalize(buf: &FrameBuffer) -> (out: Vec<Sample>)
    requires
        buf.wf(),
    ensures
        out@.len() == buf.frames(),
        forall|f: int| 0 <= f < out@.len() ==> out@[f] == sample_at(*buf, f),
{
    let mut out: Vec<Sample> = Vec::new();
    let ch = buf.planes.len();
    if ch == 0 {
        return out;
    }
    let frames = buf.planes[0].len();
    let mid = buf.encoding.midpoint_value();
    let uns = buf.encoding.unsigned();
    proof {
        assert(ch * mid <= 0x4000_0000 * 0x8000_0000) by (nonlinear_arith)
            requires
                ch <= 0x4000_0000,
                0 < mid <= 0x8000_0000,
        ;
        assert(ch * mid >= 1 * 1) by (nonlinear_arith)
            requires
                ch >= 1,
                mid >= 1,
        ;
    }
    let den: i64 = if uns {
        (ch as i64) * mid
    } else {
        proof {
            assert(ch * (mid - 1) < ch * mid) by (nonlinear_arith)
                requires
                    ch >= 1,
                    mid >= 2,
            ;
            assert(ch * (mid - 1) >= 1 * 1) by (nonlinear_arith)
                requires
                    ch >= 1,
                    mid >= 2,
            ;
        }
        (ch as i64) * (mid - 1)
    };
    let mut f: usize = 0;
    while f < frames
        invariant
            buf.wf(),
            ch == buf.channels(),
            ch >= 1,
            frames == buf.frames(),
            mid == buf.encoding.midpoint(),
            uns == buf.encoding.is_unsigned(),
            1 <= den <= 0x2000_0000_0000_0000,
            den == norm_den(buf.encoding, buf.channels()),
            f <= frames,
            out@.len() == f,
            forall|i: int| 0 <= i < f ==> out@[i] == sample_at(*buf, i),
        decreases frames - f,
    {
        let mut sum: i64 = 0;
        let mut c: usize = 0;
        while c < ch
            invariant
                buf.wf(),
                ch == buf.channels(),
                mid == buf.encoding.midpoint(),
                1 < mid <= 0x8000_0000,
                f < buf.frames(),
                c <= ch,
                sum == frame_sum(buf.frame(f as int).take(c as int)),
                -(c * mid) <= sum <= c * (2 * mid),
            decreases ch - c,
        {
            let v = buf.planes[c][f];
            proof {
                assert(buf.frame(f as int).take(c as int).push(v) =~= buf.frame(f as int).take(
                    c + 1,
                ));
                lemma_frame_sum_snoc(buf.frame(f as int).take(c as int), v);
                assert(buf.encoding.in_range(v as int));
                assert(-((c + 1) * mid) <= sum + v <= (c + 1) * (2 * mid)) by (nonlinear_arith)
                    requires
                        -(c * mid) <= sum <= c * (2 * mid),
                        -mid <= v <= 2 * mid,
                        mid > 0,
                ;
                assert((c + 1) * mid <= 0x4000_0000 * 0x8000_0000) by (nonlinear_arith)
                    requires
                        c + 1 <= 0x4000_0000,
                        0 < mid <= 0x8000_0000,
                ;
                assert((c + 1) * (2 * mid) <= 0x4000_0000 * (2 * 0x8000_0000)) by (
                nonlinear_arith)
                    requires
                        c + 1 <= 0x4000_0000,
                        0 < mid <= 0x8000_0000,
                ;
            }
            sum = sum + v;
            c = c + 1;
        }
        proof {
            assert(buf.frame(f as int).take(ch as int) =~= buf.frame(f as int));
            if uns {
                lemma_frame_sum_bounds(buf.frame(f as int), 0, 2 * mid - 1);
                assert(buf.frame(f as int).len() * 0 == 0) by (nonlinear_arith);
                assert(ch * (2 * mid - 1) <= 2 * (ch * mid)) by (nonlinear_arith)
                    requires
                        ch >= 1,
                        mid > 0,
                ;
            } else {
                lemma_frame_sum_bounds(buf.frame(f as int), -mid, mid - 1);
                assert(ch * -mid == -(ch * mid)) by (nonlinear_arith);
                assert(ch * (mid - 1) == den) by (nonlinear_arith)
                    requires
                        den == ch * (mid - 1),
                ;
                assert(ch * mid <= den + ch) by (nonlinear_arith)
                    requires
                        den == ch * (mid - 1),
                ;
            }
        }
        let num: i64 = if uns {
            sum - den
        } else {
            sum
        };
        out.push(Sample { num, den });
        f = f + 1;
    }
    out
}

/// Every normalized sample lies in [-1, 1]: `-den <= num <= den` — except
/// for signed encodings, where a frame of most-negative raw values reaches
/// `num == -(den + channels)`, the documented asymmetry of dividing by the
/// largest positive value.
pub proof fn lemma_normalized_sample_bounds(buf: FrameBuffer, f: int)
    requires
        buf.wf(),
        buf.channels() > 0,
        0 <= f < buf.frames(),
    ensures
        0 < sample_at(buf, f).den,
        sample_at(buf, f).num <= sample_at(buf, f).den,
        buf.encoding.is_unsigned() ==> -sample_at(buf, f).den <= sample_at(buf, f).num,
        !buf.encoding.is_unsigned() ==> -(sample_at(buf, f).den + buf.channels())
            <= sample_at(buf, f).num,
{
    let ch = buf.channels() as int;
    let mid = buf.encoding.midpoint();
    let fr = buf.frame(f);
    assert(fr.len() == ch);
    assert(forall|c: int| 0 <= c < fr.len() ==> buf.encoding.in_range(#[trigger] fr[c] as int));
    if buf.encoding.is_unsigned() {
        lemma_frame_sum_bounds(fr, 0, 2 * mid - 1);
        assert(ch * 0 == 0) by (nonlinear_arith);
        assert(ch * (2 * mid - 1) - ch * mid <= ch * mid) by (nonlinear_arith)
            requires
                ch >= 1,
                mid > 0,
        ;
        assert(ch * mid <= 0x4000_0000 * 0x8000_0000) by (nonlinear_arith)
            requires
                ch <= 0x4000_0000,
                0 < mid <= 0x8000_0000,
        ;
        assert(ch * mid >= 1 * 1) by (nonlinear_arith)
            requires
                ch >= 1,
                mid >= 1,
        ;
    } else {
        lemma_frame_sum_bounds(fr, -mid, mid - 1);
        assert(ch * -mid == -(ch * (mid - 1)) - ch) by (nonlinear_arith);
        assert(ch * (mid - 1) >= 1 * 1) by (nonlinear_arith)
            requires
                ch >= 1,
                mid >= 2,
        ;
        assert(ch * (mid - 1) <= 0x4000_0000 * 0x8000_0000) by (nonlinear_arith)
            requires
                ch <= 0x4000_0000,
                0 < mid <= 0x8000_0000,
        ;
    }
}

/// All-zero input frames normalize to exactly zero for signed encodings, and
/// to the constant `-den / den` (that is, -1: the midpoint mapping of a zero
/// raw value) for unsigned encodings.
pub proof fn lemma_zero_frame_normalizes_to_constant(buf: FrameBuffer, f: int)
    requires
        buf.wf(),
        buf.channels() > 0,
        0 <= f < buf.frames(),
        forall|c: int| 0 <= c < buf.channels() ==> #[trigger] buf.frame(f)[c] == 0,
    ensures
        !buf.encoding.is_unsigned() ==> sample_at(buf, f).num == 0,
        buf.encoding.is_unsigned() ==> sample_at(buf, f).num == -sample_at(buf, f).den,
{
    let ch = buf.channels() as int;
    let mid = buf.encoding.midpoint();
    let fr = buf.frame(f);
    lemma_frame_sum_bounds(fr, 0, 0);
    assert(ch * 0 == 0) by (nonlinear_arith);
    assert(frame_sum(fr) == 0);
    if buf.encoding.is_unsigned() {
        assert(ch * mid <= 0x4000_0000 * 0x8000_0000) by (nonlinear_arith)
            requires
                ch <= 0x4000_0000,
                0 < mid <= 0x8000_0000,
        ;
        assert(ch * mid >= 0) by (nonlinear_arith)
            requires
                ch >= 0,
                mid >= 0,
        ;
    }
}

} // verus!
