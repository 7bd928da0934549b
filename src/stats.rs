//! Streaming statistics shown by the dashboard.
use vstd::prelude::*;
use std::time::{Duration, Instant};
use crate::clock::{elapsed_since, instant_now};

verus! {

/// Server statistics.
pub struct ServerStats {
    /// Server start time.
    pub start_time: Instant,
    /// Total audio chunks sent.
    pub chunks_sent: u64,
    /// Total bytes sent.
    pub bytes_sent: u64,
    /// Current sample rate.
    pub sample_rate: u32,
    /// Current chunk size in milliseconds.
    pub chunk_size_ms: u64,
}

impl ServerStats {
    /// Fresh statistics starting now.
    pub fn new(sample_rate: u32, chunk_size_ms: u64) -> (r: Self)
        ensures
            r.chunks_sent == 0,
            r.bytes_sent == 0,
            r.sample_rate == sample_rate,
            r.chunk_size_ms == chunk_size_ms,
    {
        ServerStats { start_time: instant_now(), chunks_sent: 0, bytes_sent: 0, sample_rate, chunk_size_ms }
    }

    /// Time since the statistics started.
    pub fn uptime(&self) -> (r: Duration) {
        elapsed_since(&self.start_time)
    }

    /// Count one chunk of `bytes` bytes; the counters saturate.
    pub fn record_chunk(&mut self, bytes: u64)
        ensures
            final(self).start_time == old(self).start_time,
            final(self).sample_rate == old(self).sample_rate,
            final(self).chunk_size_ms == old(self).chunk_size_ms,
            final(self).chunks_sent == if old(self).chunks_sent == u64::MAX { u64::MAX } else { (old(self).chunks_sent + 1) as u64 },
            final(self).bytes_sent == if old(self).bytes_sent + bytes > u64::MAX { u64::MAX } else { (old(self).bytes_sent + bytes) as u64 },
    {
        self.chunks_sent = self.chunks_sent.saturating_add(1);
        self.bytes_sent = self.bytes_sent.saturating_add(bytes);
    }
}

} // verus!
