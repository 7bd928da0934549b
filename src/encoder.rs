//! Audio encoders: PCM 24-bit little-endian, and the Opus and FLAC slots
//! that currently emit PCM payloads.
use vstd::prelude::*;
use crate::audio::{all_in_range, Codec, Sample};

verus! {

/// Byte `k` (0 = lowest) of the little-endian 24-bit form of `v`.
pub open spec fn pcm24_byte(v: i32, k: int) -> u8 {
    if k == 0 {
        (v & 0xff) as u8
    } else if k == 1 {
        ((v >> 8u32) & 0xff) as u8
    } else {
        ((v >> 16u32) & 0xff) as u8
    }
}

/// PCM24 encoding of a sample sequence: three bytes per sample, low byte
/// first, samples in source order.
pub open spec fn pcm24_encoded(s: Seq<Sample>) -> Seq<u8> {
    Seq::new(3 * s.len(), |j: int| pcm24_byte(s[j / 3].0, j % 3))
}

/// The sample that three little-endian bytes stand for, sign-extended from
/// 24 bits.
pub open spec fn pcm24_sample_of(b0: u8, b1: u8, b2: u8) -> i32 {
    let u = (b0 as i32) | ((b1 as i32) << 8u32) | ((b2 as i32) << 16u32);
    if b2 >= 128 {
        (u - 0x1000000) as i32
    } else {
        u
    }
}

/// PCM24 decoding: each group of three bytes becomes one sample.
pub open spec fn pcm24_decoded(b: Seq<u8>) -> Seq<Sample> {
    Seq::new(b.len() / 3, |i: int| Sample(pcm24_sample_of(b[3 * i], b[3 * i + 1], b[3 * i + 2])))
}

/// A 24-bit sample survives encoding into its three bytes and decoding back.
pub proof fn lemma_pcm24_sample_round_trip(v: i32)
    requires
        -8388608 <= v <= 8388607,
    ensures
        pcm24_sample_of(pcm24_byte(v, 0), pcm24_byte(v, 1), pcm24_byte(v, 2)) == v,
{
    let b0 = (v & 0xff) as u8;
    let b1 = ((v >> 8u32) & 0xff) as u8;
    let b2 = ((v >> 16u32) & 0xff) as u8;
    assert(((b0 as i32) | ((b1 as i32) << 8u32) | ((b2 as i32) << 16u32)) == v & 0xffffff)
        by (bit_vector)
        requires
            b0 == (v & 0xff) as u8,
            b1 == ((v >> 8u32) & 0xff) as u8,
            b2 == ((v >> 16u32) & 0xff) as u8,
    ;
    assert(b2 >= 128 ==> (v & 0xffffff) - 0x1000000 == v) by (bit_vector)
        requires
            -8388608 <= v <= 8388607,
            b2 == ((v >> 16u32) & 0xff) as u8,
    ;
    assert(b2 < 128 ==> (v & 0xffffff) == v) by (bit_vector)
        requires
            -8388608 <= v <= 8388607,
            b2 == ((v >> 16u32) & 0xff) as u8,
    ;
}

/// PCM24 encoding of `s` has three bytes per sample, and decoding those
/// bytes gives `s` back when every sample lies in the 24-bit range.
pub proof fn lemma_pcm24_round_trip(s: Seq<Sample>)
    requires
        all_in_range(s),
    ensures
        pcm24_encoded(s).len() == 3 * s.len(),
        pcm24_decoded(pcm24_encoded(s)) == s,
{
    let e = pcm24_encoded(s);
    assert(e.len() / 3 == s.len());
    assert forall|i: int| 0 <= i < s.len() implies #[trigger] pcm24_decoded(e)[i] == s[i] by {
        assert(s[i].in_range());
        lemma_pcm24_sample_round_trip(s[i].0);
        assert((3 * i) / 3 == i && (3 * i) % 3 == 0);
        assert((3 * i + 1) / 3 == i && (3 * i + 1) % 3 == 1);
        assert((3 * i + 2) / 3 == i && (3 * i + 2) % 3 == 2);
    }
    assert(pcm24_decoded(e) =~= s);
}

/// The extreme 24-bit samples, `2^23 - 1` and `-2^23`, survive PCM24
/// encoding and decoding.
pub proof fn lemma_pcm24_extremes()
    ensures
        pcm24_decoded(pcm24_encoded(seq![Sample(8388607i32), Sample(-8388608i32)])) == seq![Sample(8388607i32), Sample(-8388608i32)],
{
    let s = seq![Sample(8388607i32), Sample(-8388608i32)];
    assert(s[0].in_range() && s[1].in_range());
    assert(all_in_range(s));
    lemma_pcm24_round_trip(s);
}

/// Appends the PCM24 form of `samples` to `out`.
fn push_pcm24(out: &mut Vec<u8>, samples: &[Sample])
    requires
        old(out)@.len() + 3 * samples@.len() <= usize::MAX,
    ensures
        final(out)@ == old(out)@ + pcm24_encoded(samples@),
{
    let n = samples.len();
    let mut i: usize = 0;
    while i < n
        invariant
            n == samples@.len(),
            i <= n,
            out@ == old(out)@ + pcm24_encoded(samples@.subrange(0, i as int)),
        decreases n - i,
    {
        let val = samples[i].0;
        out.push((val & 0xff) as u8);
        out.push(((val >> 8u32) & 0xff) as u8);
        out.push(((val >> 16u32) & 0xff) as u8);
        proof {
            let prev = pcm24_encoded(samples@.subrange(0, i as int));
            let next = pcm24_encoded(samples@.subrange(0, i + 1));
            assert forall|j: int| 0 <= j < next.len() implies #[trigger] next[j] == (prev
                + seq![pcm24_byte(val, 0), pcm24_byte(val, 1), pcm24_byte(val, 2)])[j] by {
                if j < 3 * i {
                    assert(j / 3 < i);
                } else {
                    assert(j / 3 == i);
                }
            }
            assert(next =~= prev + seq![pcm24_byte(val, 0), pcm24_byte(val, 1), pcm24_byte(val, 2)]);
        }
        i = i + 1;
    }
    assert(samples@.subrange(0, n as int) =~= samples@);
}

/// PCM24 encoding of a whole sample slice.
pub fn pcm24_encode(samples: &[Sample]) -> (r: Vec<u8>)
    requires
        3 * samples@.len() <= usize::MAX,
    ensures
        r@ == pcm24_encoded(samples@),
{
    let mut out: Vec<u8> = Vec::new();
    push_pcm24(&mut out, samples);
    assert(out@ =~= pcm24_encoded(samples@));
    out
}

/// An encoder turns samples into wire bytes and describes its stream format.
pub trait AudioEncoder {
    /// The bytes `encode` produces for `samples`.
    spec fn spec_encoding(&self, samples: Seq<Sample>) -> Seq<u8>;

    /// The codec this encoder produces.
    spec fn spec_codec(&self) -> Codec;

    /// The sample rate this encoder expects.
    spec fn spec_sample_rate(&self) -> u32;

    /// The channel count this encoder expects.
    spec fn spec_channels(&self) -> u8;

    /// The bit depth this encoder reports.
    spec fn spec_bit_depth(&self) -> u8;

    /// Encode samples to bytes.
    fn encode(&mut self, samples: &[Sample]) -> (r: Vec<u8>)
        requires
            3 * samples@.len() <= usize::MAX,
        ensures
            r@ == old(self).spec_encoding(samples@),
            final(self).spec_codec() == old(self).spec_codec(),
            final(self).spec_sample_rate() == old(self).spec_sample_rate(),
            final(self).spec_channels() == old(self).spec_channels(),
            final(self).spec_bit_depth() == old(self).spec_bit_depth(),
    ;

    /// The codec this encoder produces.
    fn codec(&self) -> (r: Codec)
        ensures
            r == self.spec_codec(),
    ;

    /// The sample rate this encoder expects.
    fn sample_rate(&self) -> (r: u32)
        ensures
            r == self.spec_sample_rate(),
    ;

    /// The number of channels.
    fn channels(&self) -> (r: u8)
        ensures
            r == self.spec_channels(),
    ;

    /// The bit depth.
    fn bit_depth(&self) -> (r: u8)
        ensures
            r == self.spec_bit_depth(),
    ;

    /// The codec header, if the codec has one.
    fn codec_header(&self) -> (r: Option<Vec<u8>>)
        ensures
            r is None,
    ;
}

/// PCM 24-bit little-endian encoder.
pub struct PcmEncoder {
    sample_rate: u32,
    channels: u8,
}

impl PcmEncoder {
    /// Create a new PCM encoder.
    pub fn new(sample_rate: u32, channels: u8) -> (r: Self)
        ensures
            r.spec_sample_rate() == sample_rate,
            r.spec_channels() == channels,
    {
        PcmEncoder { sample_rate, channels }
    }
}

impl AudioEncoder for PcmEncoder {
    open spec fn spec_encoding(&self, samples: Seq<Sample>) -> Seq<u8> {
        pcm24_encoded(samples)
    }

    open spec fn spec_codec(&self) -> Codec {
        Codec::Pcm
    }

    closed spec fn spec_sample_rate(&self) -> u32 {
        self.sample_rate
    }

    closed spec fn spec_channels(&self) -> u8 {
        self.channels
    }

    open spec fn spec_bit_depth(&self) -> u8 {
        24
    }

    fn encode(&mut self, samples: &[Sample]) -> (r: Vec<u8>) {
        pcm24_encode(samples)
    }

    fn codec(&self) -> (r: Codec) {
        Codec::Pcm
    }

    fn sample_rate(&self) -> (r: u32) {
        self.sample_rate
    }

    fn channels(&self) -> (r: u8) {
        self.channels
    }

    fn bit_depth(&self) -> (r: u8) {
        24
    }

    fn codec_header(&self) -> (r: Option<Vec<u8>>) {
        None
    }
}

/// Opus encoder slot: accepts only 48 kHz and currently emits PCM24 payloads.
pub struct OpusEncoder {
    sample_rate: u32,
    channels: u8,
}

impl OpusEncoder {
    /// Create a new Opus encoder; Opus requires a 48 kHz sample rate.
    pub fn new(sample_rate: u32, channels: u8) -> (r: Result<Self, String>)
        ensures
            r is Ok <==> sample_rate == 48000,
            r matches Ok(e) ==> e.spec_sample_rate() == sample_rate && e.spec_channels() == channels,
    {
        if sample_rate != 48000 {
            return Err("Opus requires 48kHz sample rate".to_string());
        }
        Ok(OpusEncoder { sample_rate, channels })
    }
}

impl AudioEncoder for OpusEncoder {
    open spec fn spec_encoding(&self, samples: Seq<Sample>) -> Seq<u8> {
        pcm24_encoded(samples)
    }

    open spec fn spec_codec(&self) -> Codec {
        Codec::Opus
    }

    closed spec fn spec_sample_rate(&self) -> u32 {
        self.sample_rate
    }

    closed spec fn spec_channels(&self) -> u8 {
        self.channels
    }

    open spec fn spec_bit_depth(&self) -> u8 {
        16
    }

    fn encode(&mut self, samples: &[Sample]) -> (r: Vec<u8>) {
        pcm24_encode(samples)
    }

    fn codec(&self) -> (r: Codec) {
        Codec::Opus
    }

    fn sample_rate(&self) -> (r: u32) {
        self.sample_rate
    }

    fn channels(&self) -> (r: u8) {
        self.channels
    }

    fn bit_depth(&self) -> (r: u8) {
        16
    }

    fn codec_header(&self) -> (r: Option<Vec<u8>>) {
        None
    }
}

/// FLAC encoder slot: currently emits PCM24 payloads.
pub struct FlacEncoder {
    sample_rate: u32,
    channels: u8,
    bit_depth: u8,
}

impl FlacEncoder {
    /// Create a new FLAC encoder.
    pub fn new(sample_rate: u32, channels: u8, bit_depth: u8) -> (r: Self)
        ensures
            r.spec_sample_rate() == sample_rate,
            r.spec_channels() == channels,
            r.spec_bit_depth() == bit_depth,
    {
        FlacEncoder { sample_rate, channels, bit_depth }
    }
}

impl AudioEncoder for FlacEncoder {
    open spec fn spec_encoding(&self, samples: Seq<Sample>) -> Seq<u8> {
        pcm24_encoded(samples)
    }

    open spec fn spec_codec(&self) -> Codec {
        Codec::Flac
    }

    closed spec fn spec_sample_rate(&self) -> u32 {
        self.sample_rate
    }

    closed spec fn spec_channels(&self) -> u8 {
        self.channels
    }

    closed spec fn spec_bit_depth(&self) -> u8 {
        self.bit_depth
    }

    fn encode(&mut self, samples: &[Sample]) -> (r: Vec<u8>) {
        pcm24_encode(samples)
    }

    fn codec(&self) -> (r: Codec) {
        Codec::Flac
    }

    fn sample_rate(&self) -> (r: u32) {
        self.sample_rate
    }

    fn channels(&self) -> (r: u8) {
        self.channels
    }

    fn bit_depth(&self) -> (r: u8) {
        self.bit_depth
    }

    fn codec_header(&self) -> (r: Option<Vec<u8>>) {
        None
    }
}

/// One encoder of the closed codec set.
pub enum Encoder {
    /// PCM 24-bit.
    Pcm(PcmEncoder),
    /// Opus.
    Opus(OpusEncoder),
    /// FLAC.
    Flac(FlacEncoder),
}

impl AudioEncoder for Encoder {
    open spec fn spec_encoding(&self, samples: Seq<Sample>) -> Seq<u8> {
        match self {
            Encoder::Pcm(e) => e.spec_encoding(samples),
            Encoder::Opus(e) => e.spec_encoding(samples),
            Encoder::Flac(e) => e.spec_encoding(samples),
        }
    }

    open spec fn spec_codec(&self) -> Codec {
        match self {
            Encoder::Pcm(e) => e.spec_codec(),
            Encoder::Opus(e) => e.spec_codec(),
            Encoder::Flac(e) => e.spec_codec(),
        }
    }

    open spec fn spec_sample_rate(&self) -> u32 {
        match self {
            Encoder::Pcm(e) => e.spec_sample_rate(),
            Encoder::Opus(e) => e.spec_sample_rate(),
            Encoder::Flac(e) => e.spec_sample_rate(),
        }
    }

    open spec fn spec_channels(&self) -> u8 {
        match self {
            Encoder::Pcm(e) => e.spec_channels(),
            Encoder::Opus(e) => e.spec_channels(),
            Encoder::Flac(e) => e.spec_channels(),
        }
    }

    open spec fn spec_bit_depth(&self) -> u8 {
        match self {
            Encoder::Pcm(e) => e.spec_bit_depth(),
            Encoder::Opus(e) => e.spec_bit_depth(),
            Encoder::Flac(e) => e.spec_bit_depth(),
        }
    }

    fn encode(&mut self, samples: &[Sample]) -> (r: Vec<u8>) {
        match self {
            Encoder::Pcm(e) => e.encode(samples),
            Encoder::Opus(e) => e.encode(samples),
            Encoder::Flac(e) => e.encode(samples),
        }
    }

    fn codec(&self) -> (r: Codec) {
        match self {
            Encoder::Pcm(e) => e.codec(),
            Encoder::Opus(e) => e.codec(),
            Encoder::Flac(e) => e.codec(),
        }
    }

    fn sample_rate(&self) -> (r: u32) {
        match self {
            Encoder::Pcm(e) => e.sample_rate(),
            Encoder::Opus(e) => e.sample_rate(),
            Encoder::Flac(e) => e.sample_rate(),
        }
    }

    fn channels(&self) -> (r: u8) {
        match self {
            Encoder::Pcm(e) => e.channels(),
            Encoder::Opus(e) => e.channels(),
            Encoder::Flac(e) => e.channels(),
        }
    }

    fn bit_depth(&self) -> (r: u8) {
        match self {
            Encoder::Pcm(e) => e.bit_depth(),
            Encoder::Opus(e) => e.bit_depth(),
            Encoder::Flac(e) => e.bit_depth(),
        }
    }

    fn codec_header(&self) -> (r: Option<Vec<u8>>) {
        match self {
            Encoder::Pcm(e) => e.codec_header(),
            Encoder::Opus(e) => e.codec_header(),
            Encoder::Flac(e) => e.codec_header(),
        }
    }
}

/// The codec `create_encoder` ends up with: Opus only at 48 kHz, MP3 never;
/// everything else falls back to PCM.
pub open spec fn effective_codec(codec: Codec, sample_rate: u32) -> Codec {
    match codec {
        Codec::Opus => if sample_rate == 48000 { Codec::Opus } else { Codec::Pcm },
        Codec::Flac => Codec::Flac,
        _ => Codec::Pcm,
    }
}

/// The bit depth each effective codec reports.
pub open spec fn effective_bit_depth(codec: Codec, sample_rate: u32, bit_depth: u8) -> u8 {
    match effective_codec(codec, sample_rate) {
        Codec::Opus => 16,
        Codec::Flac => bit_depth,
        _ => 24,
    }
}

/// Create an encoder for the given codec, falling back to PCM where the
/// codec cannot be served.
pub fn create_encoder(codec: Codec, sample_rate: u32, channels: u8, bit_depth: u8) -> (r: Encoder)
    ensures
        r.spec_codec() == effective_codec(codec, sample_rate),
        r.spec_sample_rate() == sample_rate,
        r.spec_channels() == channels,
        r.spec_bit_depth() == effective_bit_depth(codec, sample_rate, bit_depth),
        forall|s: Seq<Sample>| #[trigger] r.spec_encoding(s) == pcm24_encoded(s),
{
    match codec {
        Codec::Pcm => Encoder::Pcm(PcmEncoder::new(sample_rate, channels)),
        Codec::Opus => match OpusEncoder::new(sample_rate, channels) {
            Ok(enc) => Encoder::Opus(enc),
            Err(_) => Encoder::Pcm(PcmEncoder::new(sample_rate, channels)),
        },
        Codec::Flac => Encoder::Flac(FlacEncoder::new(sample_rate, channels, bit_depth)),
        Codec::Mp3 => Encoder::Pcm(PcmEncoder::new(sample_rate, channels)),
    }
}

} // verus!
