//! Audio sources: producers of interleaved stereo chunks.
use vstd::prelude::*;
use crate::audio::Sample;

verus! {

/// A producer of interleaved stereo audio chunks, read serially by the
/// audio engine.
pub trait AudioSource {
    /// The next chunk of `samples_per_channel` stereo frames, interleaved
    /// L, R, L, R; `None` once the source is exhausted.
    fn read_chunk(&mut self, samples_per_channel: usize) -> (r: Option<Vec<Sample>>)
        requires
            samples_per_channel <= usize::MAX / 8,
    ;

    /// The sample rate in Hz.
    fn sample_rate(&self) -> u32;

    /// The number of channels the source itself has.
    fn channels(&self) -> u8;

    /// Whether the source is exhausted.
    fn is_exhausted(&self) -> bool;

    /// Start the source over, where it can.
    fn reset(&mut self) {
    }
}

/// A source of endless silence.
pub struct SilenceSource {
    sample_rate: u32,
}

impl SilenceSource {
    /// The sample rate of this source.
    pub closed spec fn spec_sample_rate(&self) -> u32 {
        self.sample_rate
    }

    /// Create a silence source at the given sample rate.
    pub fn new(sample_rate: u32) -> (r: Self)
        ensures
            r.spec_sample_rate() == sample_rate,
    {
        SilenceSource { sample_rate }
    }

    /// The next chunk: always `samples_per_channel` stereo frames of
    /// silence.
    pub fn read_chunk(&mut self, samples_per_channel: usize) -> (r: Option<Vec<Sample>>)
        requires
            samples_per_channel <= usize::MAX / 2,
        ensures
            r matches Some(v) && v@ == Seq::new(2 * samples_per_channel as nat, |i: int| Sample(0)),
    {
        Some(SilenceSource::silence(samples_per_channel))
    }

    /// `samples_per_channel` stereo frames of silence.
    pub fn silence(samples_per_channel: usize) -> (r: Vec<Sample>)
        requires
            samples_per_channel <= usize::MAX / 2,
        ensures
            r@ == Seq::new(2 * samples_per_channel as nat, |i: int| Sample(0)),
    {
        let r = vec![Sample(0); samples_per_channel * 2];
        assert(r@ =~= Seq::new(2 * samples_per_channel as nat, |i: int| Sample(0)));
        r
    }
}

impl AudioSource for SilenceSource {
    fn read_chunk(&mut self, samples_per_channel: usize) -> (r: Option<Vec<Sample>>) {
        Some(SilenceSource::silence(samples_per_channel))
    }

    fn sample_rate(&self) -> u32 {
        self.sample_rate
    }

    fn channels(&self) -> u8 {
        2
    }

    fn is_exhausted(&self) -> bool {
        false
    }
}

/// A full-scale 32-bit decoded sample narrowed to 24 bits.
pub open spec fn narrowed(v: i32) -> Sample {
    Sample(v >> 8u32)
}

/// The stereo pair for the decoded frame starting at `base`: a mono frame
/// is duplicated, and only the first two channels of a wider frame are kept.
pub open spec fn stereo_pair(buf: Seq<i32>, base: int, channels: u8) -> Seq<Sample> {
    if channels == 1 {
        seq![narrowed(buf[base]), narrowed(buf[base])]
    } else {
        seq![narrowed(buf[base]), narrowed(buf[base + 1])]
    }
}

/// The stereo samples for `k` decoded frames of `channels` channels,
/// starting at `pos`.
pub open spec fn stereo_frames(buf: Seq<i32>, pos: int, channels: u8, k: int) -> Seq<Sample>
    decreases k,
{
    if k <= 0 {
        seq![]
    } else {
        stereo_frames(buf, pos, channels, k - 1) + stereo_pair(buf, pos + (k - 1) * channels, channels)
    }
}

/// How many decoded frames `to_stereo` takes: as many as are left in the
/// buffer, up to what the chunk still needs.
pub open spec fn frames_taken(buf_len: int, pos: int, channels: u8, have: int, target: int) -> int {
    let avail = if pos < buf_len { (buf_len - pos) / channels as int } else { 0 };
    let needed = if have < target { (target - have) / 2 } else { 0 };
    if avail < needed { avail } else { needed }
}

/// Append decoded interleaved frames to a stereo chunk until it holds
/// `target` samples or the buffer runs out; returns the buffer position
/// after the frames taken. Samples are narrowed from 32 to 24 bits.
pub fn to_stereo(out: &mut Vec<Sample>, buf: &[i32], pos: usize, channels: u8, target: usize) -> (r: usize)
    requires
        channels >= 1,
        target <= usize::MAX / 2,
    ensures
        r == pos + frames_taken(buf@.len() as int, pos as int, channels, old(out)@.len() as int, target as int) * channels,
        final(out)@ == old(out)@ + stereo_frames(buf@, pos as int, channels,
            frames_taken(buf@.len() as int, pos as int, channels, old(out)@.len() as int, target as int)),
        forall|i: int| 0 <= i < final(out)@.len() - old(out)@.len() ==> (#[trigger] final(out)@[old(out)@.len() + i]).in_range(),
{
    let ch = channels as usize;
    let avail: usize = if pos < buf.len() { (buf.len() - pos) / ch } else { 0 };
    let needed: usize = if out.len() < target { (target - out.len()) / 2 } else { 0 };
    let k: usize = if avail < needed { avail } else { needed };
    let ghost start = out@;
    proof {
        if pos < buf@.len() {
            let d = (buf@.len() - pos) as int;
            assert((d / (ch as int)) * (ch as int) <= d) by (nonlinear_arith)
                requires
                    d >= 0,
                    ch >= 1,
            ;
        }
    }
    let mut f: usize = 0;
    let mut cur: usize = pos;
    while f < k
        invariant
            f <= k,
            k <= avail,
            buf@.len() <= usize::MAX,
            ch == channels as usize,
            ch >= 1,
            cur == pos + f * ch,
            avail == if pos < buf@.len() { (buf@.len() - pos) / (ch as int) } else { 0 },
            avail > 0 ==> pos < buf@.len() && avail * ch <= buf@.len() - pos,
            out@ == start + stereo_frames(buf@, pos as int, channels, f as int),
            forall|i: int| 0 <= i < out@.len() - start.len() ==> (#[trigger] out@[start.len() + i]).in_range(),
        decreases k - f,
    {
        assert(cur + ch <= buf@.len()) by (nonlinear_arith)
            requires
                f < avail,
                avail * ch <= buf@.len() - pos,
                cur == pos + f * ch,
                ch >= 1,
        {
        }
        let a = buf[cur];
        let b = if ch == 1 { a } else { buf[cur + 1] };
        let ghost before = out@;
        out.push(Sample(a >> 8u32));
        out.push(Sample(b >> 8u32));
        proof {
            assert((a >> 8u32) >= -8388608 && (a >> 8u32) <= 8388607) by (bit_vector);
            assert((b >> 8u32) >= -8388608 && (b >> 8u32) <= 8388607) by (bit_vector);
            assert(out@ =~= before + stereo_pair(buf@, pos + f * channels, channels));
            assert forall|i: int| 0 <= i < out@.len() - start.len() implies (#[trigger] out@[start.len() + i]).in_range() by {
                if start.len() + i < before.len() {
                    assert(out@[start.len() + i] == before[start.len() + i]);
                }
            }
        }
        cur = cur + ch;
        f = f + 1;
        assert(cur == pos + f * ch) by (nonlinear_arith)
            requires
                cur == pos + (f - 1) * ch + ch,
        {
        }
    }
    cur
}

/// Pad a chunk with silence up to `target` samples.
pub fn pad_with_silence(out: &mut Vec<Sample>, target: usize)
    ensures
        final(out)@ == old(out)@ + Seq::new(if old(out)@.len() < target { (target - old(out)@.len()) as nat } else { 0 }, |i: int| Sample(0)),
{
    let ghost start = out@;
    while out.len() < target
        invariant
            start.len() <= out@.len(),
            out@ == start + Seq::new((out@.len() - start.len()) as nat, |i: int| Sample(0)),
            start.len() < target ==> out@.len() <= target,
            start.len() >= target ==> out@ == start,
        decreases target - out@.len(),
    {
        let ghost before = out@;
        out.push(Sample(0));
        assert(out@ =~= start + Seq::new((out@.len() - start.len()) as nat, |i: int| Sample(0)));
    }
    assert(out@ =~= start + Seq::new(if start.len() < target { (target - start.len()) as nat } else { 0 }, |i: int| Sample(0)));
}

} // verus!
