//! Synchronized multi-room audio streaming server: the verified core.
//!
//! The session state machine, the audio engine's chunk framing, the client
//! and group registries and the protocol codec live here; transports, timers
//! and audio decoding are driven from outside through plain values.
use vstd::prelude::*;

pub mod audio;
pub mod client_manager;
pub mod clock;
pub mod config;
pub mod encoder;
pub mod engine;
pub mod group;
pub mod messages;
pub mod session;
pub mod source;
pub mod stats;
pub mod text;

verus! {

/// Error kinds reported by the library.
#[derive(Debug, Clone, PartialEq, Eq)]
pub enum Error {
    /// Transport-level failure.
    WebSocket(String),
    /// Protocol violation or parse failure.
    Protocol(String),
    /// A message that does not have the expected shape.
    InvalidMessage,
    /// Connection-level failure.
    Connection(String),
    /// Audio output failure.
    Output(String),
}

} // verus!
