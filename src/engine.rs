//! The audio engine: on every tick it reads one chunk, stamps it with a
//! playback deadline ahead of the server clock, frames it and fans it out to
//! every player.
//!
//! The periodic timer lives outside the library; it calls
//! [`AudioEngine::tick`] with the clock reading of each tick.
use vstd::prelude::*;
use crate::audio::Sample;
use crate::client_manager::{has_player_role, is_binary_of, queued_one, ClientManager};
use crate::encoder::{pcm24_encoded, AudioEncoder, PcmEncoder};
use crate::source::{AudioSource, SilenceSource};

verus! {

/// The type byte of an audio chunk for the player role.
pub const AUDIO_CHUNK_TYPE: u8 = 4;

/// Largest number of samples per channel a chunk may hold.
pub const MAX_SAMPLES_PER_CHUNK: usize = 0x0fff_ffff;

/// Engine state.
#[derive(Debug, Clone, Copy, PartialEq, Eq, Structural)]
pub enum EngineState {
    /// No chunks are produced; ticks pass unused.
    Stopped,
    /// Chunks come from the source.
    Running,
    /// Ticks go on, and every chunk is silence.
    Paused,
}

/// The big-endian bytes of a signed 64-bit value.
pub open spec fn be_i64(v: i64) -> Seq<u8> {
    seq![
        ((v >> 56u64) & 0xff) as u8,
        ((v >> 48u64) & 0xff) as u8,
        ((v >> 40u64) & 0xff) as u8,
        ((v >> 32u64) & 0xff) as u8,
        ((v >> 24u64) & 0xff) as u8,
        ((v >> 16u64) & 0xff) as u8,
        ((v >> 8u64) & 0xff) as u8,
        (v & 0xff) as u8,
    ]
}

/// An audio frame on the wire: the player type byte, the deadline in
/// big-endian, then the PCM24 payload.
pub open spec fn chunk_frame(deadline: i64, samples: Seq<Sample>) -> Seq<u8> {
    seq![AUDIO_CHUNK_TYPE] + be_i64(deadline) + pcm24_encoded(samples)
}

/// The deadline stamped on a chunk produced at clock reading `now`:
/// `now + ahead`, saturating at the ends of the `i64` range.
pub open spec fn deadline_at(now: i64, ahead: i64) -> i64 {
    if now + ahead > i64::MAX {
        i64::MAX
    } else if now + ahead < i64::MIN {
        i64::MIN
    } else {
        (now + ahead) as i64
    }
}

/// `n` stereo frames of silence.
pub open spec fn silence(n: int) -> Seq<Sample> {
    Seq::new((2 * n) as nat, |i: int| Sample(0))
}

/// Samples per channel in one chunk: `sample_rate * interval_ms / 1000`,
/// capped at [`MAX_SAMPLES_PER_CHUNK`].
pub open spec fn chunk_samples(sample_rate: u32, interval_ms: u64) -> usize {
    let p = sample_rate as int * interval_ms as int / 1000;
    if p > MAX_SAMPLES_PER_CHUNK as int {
        MAX_SAMPLES_PER_CHUNK
    } else {
        p as usize
    }
}

/// The buffer-ahead in microseconds for `ms` milliseconds, saturating.
pub open spec fn ahead_micros(ms: u64) -> i64 {
    if ms as int * 1000 > i64::MAX {
        i64::MAX
    } else {
        (ms as int * 1000) as i64
    }
}

/// Every player client of `oc` got frame `f` queued, and every other client
/// is unchanged.
pub open spec fn sent_to_players(oc: ClientManager, nc: ClientManager, f: Seq<u8>) -> bool {
    &&& nc.spec_clients().len() == oc.spec_clients().len()
    &&& forall|i: int| 0 <= i < oc.spec_clients().len() ==> {
        let o = oc.spec_clients()[i];
        let n = #[trigger] nc.spec_clients()[i];
        if has_player_role(o.active_roles@) {
            queued_one(o, n) && is_binary_of(n.outbound().last(), f)
        } else {
            n == o
        }
    }
}

/// Later clock readings never give earlier deadlines: with the engine's
/// fixed buffer-ahead, consecutive frames carry non-decreasing deadlines
/// whenever the clock does not run backwards.
pub proof fn lemma_deadlines_non_decreasing(ahead: i64, now1: i64, now2: i64)
    requires
        now1 <= now2,
    ensures
        deadline_at(now1, ahead) <= deadline_at(now2, ahead),
{
}

/// A silent chunk of `n` stereo frames makes a frame of `9 + 6n` bytes
/// whose payload is all zero bytes.
pub proof fn lemma_silence_frame(deadline: i64, n: nat)
    ensures
        chunk_frame(deadline, silence(n as int)).len() == 9 + 6 * n,
        forall|j: int| 9 <= j < 9 + 6 * n ==> #[trigger] chunk_frame(deadline, silence(n as int))[j] == 0,
{
    let f = chunk_frame(deadline, silence(n as int));
    let p = pcm24_encoded(silence(n as int));
    assert(p.len() == 6 * n);
    assert forall|j: int| 9 <= j < 9 + 6 * n implies #[trigger] f[j] == 0 by {
        assert(f[j] == p[j - 9]);
        assert(silence(n as int)[(j - 9) / 3].0 == 0);
        assert((0i32 & 0xff) as u8 == 0 && ((0i32 >> 8u32) & 0xff) as u8 == 0 && ((0i32 >> 16u32) & 0xff) as u8 == 0) by (bit_vector);
    }
}

fn samples_for(sample_rate: u32, interval_ms: u64) -> (r: usize)
    ensures
        r == chunk_samples(sample_rate, interval_ms),
{
    let a: u128 = sample_rate as u128;
    let b: u128 = interval_ms as u128;
    assert(a * b <= 0xffff_ffff * 0xffff_ffff_ffff_ffffu128) by (nonlinear_arith)
        requires
            a <= 0xffff_ffff,
            b <= 0xffff_ffff_ffff_ffff,
    ;
    let p: u128 = a * b / 1000;
    if p > MAX_SAMPLES_PER_CHUNK as u128 {
        MAX_SAMPLES_PER_CHUNK
    } else {
        p as usize
    }
}

fn push_be_i64(out: &mut Vec<u8>, v: i64)
    ensures
        final(out)@ == old(out)@ + be_i64(v),
{
    out.push(((v >> 56u64) & 0xff) as u8);
    out.push(((v >> 48u64) & 0xff) as u8);
    out.push(((v >> 40u64) & 0xff) as u8);
    out.push(((v >> 32u64) & 0xff) as u8);
    out.push(((v >> 24u64) & 0xff) as u8);
    out.push(((v >> 16u64) & 0xff) as u8);
    out.push(((v >> 8u64) & 0xff) as u8);
    out.push((v & 0xff) as u8);
    assert(out@ =~= old(out)@ + be_i64(v));
}

/// The audio engine.
pub struct AudioEngine<S: AudioSource> {
    source: S,
    chunk_interval_ms: u64,
    samples_per_chunk: usize,
    buffer_ahead_micros: i64,
    state: EngineState,
    encoder: PcmEncoder,
}

impl<S: AudioSource> AudioEngine<S> {
    /// Samples per channel in each chunk.
    pub closed spec fn spec_samples_per_chunk(&self) -> usize {
        self.samples_per_chunk
    }

    /// How far ahead of the clock chunks are stamped, in microseconds.
    pub closed spec fn spec_buffer_ahead(&self) -> i64 {
        self.buffer_ahead_micros
    }

    /// The tick period in milliseconds.
    pub closed spec fn spec_chunk_interval(&self) -> u64 {
        self.chunk_interval_ms
    }

    /// The sample rate read from the current source.
    pub closed spec fn spec_sample_rate(&self) -> u32 {
        self.encoder.spec_sample_rate()
    }

    /// The engine state.
    pub closed spec fn spec_state(&self) -> EngineState {
        self.state
    }

    /// The engine's sizes stay within what a frame can hold.
    pub closed spec fn wf(&self) -> bool {
        &&& self.samples_per_chunk <= MAX_SAMPLES_PER_CHUNK
        &&& self.buffer_ahead_micros >= 0
    }

    /// Create a stopped engine over `source`, whose sample rate is
    /// `sample_rate`, ticking every `chunk_interval_ms` and stamping chunks
    /// `buffer_ahead_ms` ahead (saturating).
    pub fn with_rate(source: S, sample_rate: u32, chunk_interval_ms: u64, buffer_ahead_ms: u64) -> (r: Self)
        ensures
            r.wf(),
            r.spec_state() == EngineState::Stopped,
            r.spec_sample_rate() == sample_rate,
            r.spec_samples_per_chunk() == chunk_samples(sample_rate, chunk_interval_ms),
            r.spec_chunk_interval() == chunk_interval_ms,
            r.spec_buffer_ahead() == ahead_micros(buffer_ahead_ms),
    {
        let ahead: i64 = if buffer_ahead_ms > 9_223_372_036_854_775 {
            0x7fff_ffff_ffff_ffff
        } else {
            (buffer_ahead_ms * 1000) as i64
        };
        AudioEngine {
            source,
            chunk_interval_ms,
            samples_per_chunk: samples_for(sample_rate, chunk_interval_ms),
            buffer_ahead_micros: ahead,
            state: EngineState::Stopped,
            encoder: PcmEncoder::new(sample_rate, 2),
        }
    }

    /// Create a stopped engine over `source` at the sample rate the source
    /// reports; see [`AudioEngine::with_rate`].
    pub fn new(source: S, chunk_interval_ms: u64, buffer_ahead_ms: u64) -> (r: Self)
        ensures
            r.wf(),
            r.spec_state() == EngineState::Stopped,
            r.spec_samples_per_chunk() == chunk_samples(r.spec_sample_rate(), chunk_interval_ms),
            r.spec_chunk_interval() == chunk_interval_ms,
            r.spec_buffer_ahead() == ahead_micros(buffer_ahead_ms),
    {
        let sample_rate = source.sample_rate();
        AudioEngine::with_rate(source, sample_rate, chunk_interval_ms, buffer_ahead_ms)
    }

    /// The engine state.
    pub fn state(&self) -> (r: EngineState)
        ensures
            r == self.spec_state(),
    {
        self.state
    }

    /// The sample rate the current source reported.
    pub fn sample_rate(&self) -> (r: u32)
        ensures
            r == self.spec_sample_rate(),
    {
        self.encoder.sample_rate()
    }

    /// Samples per channel in each chunk.
    pub fn samples_per_chunk(&self) -> (r: usize)
        ensures
            r == self.spec_samples_per_chunk(),
    {
        self.samples_per_chunk
    }

    /// The buffer-ahead in microseconds.
    pub fn buffer_ahead_micros(&self) -> (r: i64)
        ensures
            r == self.spec_buffer_ahead(),
    {
        self.buffer_ahead_micros
    }

    /// The tick period in milliseconds.
    pub fn chunk_interval_ms(&self) -> (r: u64)
        ensures
            r == self.spec_chunk_interval(),
    {
        self.chunk_interval_ms
    }

    fn set_state(&mut self, state: EngineState)
        requires
            old(self).wf(),
        ensures
            final(self).wf(),
            final(self).spec_state() == state,
            final(self).spec_samples_per_chunk() == old(self).spec_samples_per_chunk(),
            final(self).spec_buffer_ahead() == old(self).spec_buffer_ahead(),
            final(self).spec_chunk_interval() == old(self).spec_chunk_interval(),
            final(self).spec_sample_rate() == old(self).spec_sample_rate(),
    {
        self.state = state;
    }

    /// Start producing chunks from the source.
    pub fn start(&mut self)
        requires
            old(self).wf(),
        ensures
            final(self).wf(),
            final(self).spec_state() == EngineState::Running,
            final(self).spec_samples_per_chunk() == old(self).spec_samples_per_chunk(),
            final(self).spec_buffer_ahead() == old(self).spec_buffer_ahead(),
            final(self).spec_chunk_interval() == old(self).spec_chunk_interval(),
            final(self).spec_sample_rate() == old(self).spec_sample_rate(),
    {
        self.set_state(EngineState::Running);
    }

    /// Keep ticking, with silence in every chunk.
    pub fn pause(&mut self)
        requires
            old(self).wf(),
        ensures
            final(self).wf(),
            final(self).spec_state() == EngineState::Paused,
            final(self).spec_samples_per_chunk() == old(self).spec_samples_per_chunk(),
            final(self).spec_buffer_ahead() == old(self).spec_buffer_ahead(),
            final(self).spec_chunk_interval() == old(self).spec_chunk_interval(),
            final(self).spec_sample_rate() == old(self).spec_sample_rate(),
    {
        self.set_state(EngineState::Paused);
    }

    /// Stop producing chunks.
    pub fn stop(&mut self)
        requires
            old(self).wf(),
        ensures
            final(self).wf(),
            final(self).spec_state() == EngineState::Stopped,
            final(self).spec_samples_per_chunk() == old(self).spec_samples_per_chunk(),
            final(self).spec_buffer_ahead() == old(self).spec_buffer_ahead(),
            final(self).spec_chunk_interval() == old(self).spec_chunk_interval(),
            final(self).spec_sample_rate() == old(self).spec_sample_rate(),
    {
        self.set_state(EngineState::Stopped);
    }

    /// Replace the source with one whose sample rate is `sample_rate`: the
    /// rate, the chunk size and the encoder all follow it, between two
    /// ticks.
    pub fn set_source_with_rate(&mut self, source: S, sample_rate: u32)
        requires
            old(self).wf(),
        ensures
            final(self).wf(),
            final(self).spec_state() == old(self).spec_state(),
            final(self).spec_buffer_ahead() == old(self).spec_buffer_ahead(),
            final(self).spec_chunk_interval() == old(self).spec_chunk_interval(),
            final(self).spec_sample_rate() == sample_rate,
            final(self).spec_samples_per_chunk() == chunk_samples(sample_rate, old(self).spec_chunk_interval()),
    {
        self.source = source;
        self.samples_per_chunk = samples_for(sample_rate, self.chunk_interval_ms);
        self.encoder = PcmEncoder::new(sample_rate, 2);
    }

    /// Replace the source, at the sample rate the new source reports; see
    /// [`AudioEngine::set_source_with_rate`].
    pub fn set_source(&mut self, source: S)
        requires
            old(self).wf(),
        ensures
            final(self).wf(),
            final(self).spec_state() == old(self).spec_state(),
            final(self).spec_buffer_ahead() == old(self).spec_buffer_ahead(),
            final(self).spec_chunk_interval() == old(self).spec_chunk_interval(),
            final(self).spec_samples_per_chunk() == chunk_samples(final(self).spec_sample_rate(), final(self).spec_chunk_interval()),
    {
        let sample_rate = source.sample_rate();
        self.set_source_with_rate(source, sample_rate);
    }

    /// The samples a chunk carries: silence while paused, when the source
    /// had nothing, or when it returned more than `2 * MAX_SAMPLES_PER_CHUNK`
    /// samples (more than one frame is allowed to hold); else the source's
    /// chunk as it came.
    pub open spec fn chunk_samples_for(&self, chunk: Option<Vec<Sample>>) -> Seq<Sample> {
        match chunk {
            Some(v) => if self.spec_state() != EngineState::Paused && v@.len() <= MAX_SAMPLES_PER_CHUNK * 2 {
                v@
            } else {
                silence(self.spec_samples_per_chunk() as int)
            },
            None => silence(self.spec_samples_per_chunk() as int),
        }
    }

    /// Frame one chunk stamped for clock reading `now`.
    pub fn frame_for(&mut self, now: i64, chunk: Option<Vec<Sample>>) -> (r: Vec<u8>)
        requires
            old(self).wf(),
        ensures
            final(self).wf(),
            final(self).spec_state() == old(self).spec_state(),
            final(self).spec_samples_per_chunk() == old(self).spec_samples_per_chunk(),
            final(self).spec_buffer_ahead() == old(self).spec_buffer_ahead(),
            final(self).spec_chunk_interval() == old(self).spec_chunk_interval(),
            final(self).spec_sample_rate() == old(self).spec_sample_rate(),
            r@ == chunk_frame(deadline_at(now, old(self).spec_buffer_ahead()), old(self).chunk_samples_for(chunk)),
    {
        let deadline: i64 = if now > 0x7fff_ffff_ffff_ffff - self.buffer_ahead_micros {
            0x7fff_ffff_ffff_ffff
        } else {
            now + self.buffer_ahead_micros
        };
        let samples: Vec<Sample> = match chunk {
            Some(v) => if self.state != EngineState::Paused && v.len() <= MAX_SAMPLES_PER_CHUNK * 2 {
                v
            } else {
                SilenceSource::silence(self.samples_per_chunk)
            },
            None => SilenceSource::silence(self.samples_per_chunk),
        };
        let mut message: Vec<u8> = Vec::new();
        message.push(AUDIO_CHUNK_TYPE);
        push_be_i64(&mut message, deadline);
        let mut encoded = self.encoder.encode(samples.as_slice());
        message.append(&mut encoded);
        message
    }

    /// Frame `chunk` for clock reading `now` and queue the frame for every
    /// player; returns the frame.
    pub fn broadcast_chunk(&mut self, now: i64, chunk: Option<Vec<Sample>>, clients: &mut ClientManager) -> (r: Vec<u8>)
        requires
            old(self).wf(),
            old(clients).wf(),
        ensures
            final(self).wf(),
            final(clients).wf(),
            final(self).spec_state() == old(self).spec_state(),
            final(self).spec_samples_per_chunk() == old(self).spec_samples_per_chunk(),
            final(self).spec_buffer_ahead() == old(self).spec_buffer_ahead(),
            final(self).spec_chunk_interval() == old(self).spec_chunk_interval(),
            final(self).spec_sample_rate() == old(self).spec_sample_rate(),
            r@ == chunk_frame(deadline_at(now, old(self).spec_buffer_ahead()), old(self).chunk_samples_for(chunk)),
            sent_to_players(*old(clients), *final(clients), r@),
    {
        let frame = self.frame_for(now, chunk);
        clients.broadcast_audio(frame.as_slice());
        frame
    }

    /// One engine tick at clock reading `now`: unless stopped, read a chunk
    /// (none while paused), frame it, queue it for every player, and return
    /// the frame. A source with nothing to give yields a silent frame.
    pub fn tick(&mut self, now: i64, clients: &mut ClientManager) -> (r: Option<Vec<u8>>)
        requires
            old(self).wf(),
            old(clients).wf(),
        ensures
            final(self).wf(),
            final(clients).wf(),
            final(self).spec_state() == old(self).spec_state(),
            final(self).spec_samples_per_chunk() == old(self).spec_samples_per_chunk(),
            final(self).spec_buffer_ahead() == old(self).spec_buffer_ahead(),
            final(self).spec_chunk_interval() == old(self).spec_chunk_interval(),
            final(self).spec_sample_rate() == old(self).spec_sample_rate(),
            old(self).spec_state() == EngineState::Stopped ==> r is None && *final(clients) == *old(clients),
            old(self).spec_state() != EngineState::Stopped ==> r is Some,
            old(self).spec_state() == EngineState::Paused ==> (r matches Some(f)
                && f@ == chunk_frame(deadline_at(now, old(self).spec_buffer_ahead()), silence(old(self).spec_samples_per_chunk() as int))),
            r matches Some(f) ==> exists|c: Option<Vec<Sample>>|
                f@ == chunk_frame(deadline_at(now, old(self).spec_buffer_ahead()), #[trigger] old(self).chunk_samples_for(c)),
            r matches Some(f) ==> sent_to_players(*old(clients), *final(clients), f@),
    {
        if self.state == EngineState::Stopped {
            return None;
        }
        let chunk = if self.state == EngineState::Paused {
            None
        } else {
            self.source.read_chunk(self.samples_per_chunk)
        };
        let ghost c = chunk;
        let frame = self.broadcast_chunk(now, chunk, clients);
        assert(frame@ == chunk_frame(deadline_at(now, old(self).spec_buffer_ahead()), old(self).chunk_samples_for(c)));
        Some(frame)
    }
}

} // verus!
