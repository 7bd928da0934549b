//! Basic audio value types: samples, codecs and stream formats.
use vstd::prelude::*;

verus! {

/// Largest value a 24-bit sample can hold.
pub const SAMPLE_MAX_VALUE: i32 = 8388607;

/// Smallest value a 24-bit sample can hold.
pub const SAMPLE_MIN_VALUE: i32 = -8388608;

/// A signed 24-bit sample carried in a 32-bit container.
#[derive(Debug, Clone, Copy, PartialEq, Eq, Structural)]
pub struct Sample(pub i32);

impl Sample {
    /// The sample lies in the 24-bit range.
    pub open spec fn in_range(self) -> bool {
        SAMPLE_MIN_VALUE <= self.0 <= SAMPLE_MAX_VALUE
    }
}

/// Every sample of the sequence lies in the 24-bit range.
pub open spec fn all_in_range(s: Seq<Sample>) -> bool {
    forall|i: int| 0 <= i < s.len() ==> #[trigger] s[i].in_range()
}

/// Audio codecs known to the protocol.
#[derive(Debug, Clone, Copy, PartialEq, Eq, Structural)]
pub enum Codec {
    /// Uncompressed PCM.
    Pcm,
    /// Opus.
    Opus,
    /// FLAC.
    Flac,
    /// MP3.
    Mp3,
}

/// The protocol name of a codec.
pub open spec fn codec_name(c: Codec) -> Seq<char> {
    match c {
        Codec::Pcm => "pcm"@,
        Codec::Opus => "opus"@,
        Codec::Flac => "flac"@,
        Codec::Mp3 => "mp3"@,
    }
}

/// The codec a protocol name stands for; unknown names fall back to PCM.
pub open spec fn codec_of_name(n: Seq<char>) -> Codec {
    if n == "opus"@ {
        Codec::Opus
    } else if n == "flac"@ {
        Codec::Flac
    } else if n == "mp3"@ {
        Codec::Mp3
    } else {
        Codec::Pcm
    }
}

impl Codec {
    /// The protocol name of this codec.
    pub fn name(&self) -> (r: String)
        ensures
            r@ == codec_name(*self),
    {
        match self {
            Codec::Pcm => "pcm".to_string(),
            Codec::Opus => "opus".to_string(),
            Codec::Flac => "flac".to_string(),
            Codec::Mp3 => "mp3".to_string(),
        }
    }
}

/// A negotiated audio stream format.
#[derive(Debug, Clone, PartialEq, Eq)]
pub struct AudioFormat {
    /// Codec of the stream.
    pub codec: Codec,
    /// Sample rate in Hz.
    pub sample_rate: u32,
    /// Number of channels.
    pub channels: u8,
    /// Bits per sample.
    pub bit_depth: u8,
    /// Optional codec-specific header.
    pub codec_header: Option<Vec<u8>>,
}

} // verus!
