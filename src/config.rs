//! Server configuration.
use vstd::prelude::*;

verus! {

/// Relies on `uuid::Uuid::new_v4` and `Uuid`'s `Display`, which writes the
/// hyphenated form: a random identifier of 36 characters.
#[verifier::external_body]
fn new_server_id() -> (r: String)
    ensures
        r@.len() == 36,
{
    uuid::Uuid::new_v4().to_string()
}

/// Server configuration.
#[derive(Clone, Debug)]
pub struct ServerConfig {
    /// Address to bind the server to, as `host:port`.
    pub bind_addr: String,
    /// WebSocket endpoint path.
    pub ws_path: String,
    /// Server name for client discovery.
    pub name: String,
    /// Unique server identifier.
    pub server_id: String,
    /// Audio chunk interval in milliseconds.
    pub chunk_interval_ms: u64,
    /// How far ahead of now audio is stamped, in milliseconds.
    pub buffer_ahead_ms: u64,
    /// Default sample rate in Hz.
    pub default_sample_rate: u32,
    /// Default number of channels.
    pub default_channels: u8,
    /// Default bit depth.
    pub default_bit_depth: u8,
}

/// The configuration holds the default settings, with this name.
pub open spec fn is_default_config(c: ServerConfig, name: Seq<char>) -> bool {
    &&& c.bind_addr@ == "0.0.0.0:8927"@
    &&& c.ws_path@ == "/sendspin"@
    &&& c.name@ == name
    &&& c.server_id@.len() == 36
    &&& c.chunk_interval_ms == 20
    &&& c.buffer_ahead_ms == 500
    &&& c.default_sample_rate == 48000
    &&& c.default_channels == 2
    &&& c.default_bit_depth == 24
}

impl ServerConfig {
    /// The default configuration with the given server name.
    pub fn new(name: &str) -> (r: Self)
        ensures
            is_default_config(r, name@),
    {
        ServerConfig {
            bind_addr: "0.0.0.0:8927".to_string(),
            ws_path: "/sendspin".to_string(),
            name: name.to_string(),
            server_id: new_server_id(),
            chunk_interval_ms: 20,
            buffer_ahead_ms: 500,
            default_sample_rate: 48000,
            default_channels: 2,
            default_bit_depth: 24,
        }
    }

    /// Set the bind address.
    pub fn bind_addr(self, addr: &str) -> (r: Self)
        ensures
            r == (ServerConfig { bind_addr: r.bind_addr, ..self }),
            r.bind_addr@ == addr@,
    {
        ServerConfig { bind_addr: addr.to_string(), ..self }
    }

    /// Set the WebSocket path.
    pub fn ws_path(self, path: &str) -> (r: Self)
        ensures
            r == (ServerConfig { ws_path: r.ws_path, ..self }),
            r.ws_path@ == path@,
    {
        ServerConfig { ws_path: path.to_string(), ..self }
    }

    /// Set the chunk interval in milliseconds.
    pub fn chunk_interval_ms(self, ms: u64) -> (r: Self)
        ensures
            r == (ServerConfig { chunk_interval_ms: ms, ..self }),
    {
        ServerConfig { chunk_interval_ms: ms, ..self }
    }

    /// Set the buffer-ahead time in milliseconds.
    pub fn buffer_ahead_ms(self, ms: u64) -> (r: Self)
        ensures
            r == (ServerConfig { buffer_ahead_ms: ms, ..self }),
    {
        ServerConfig { buffer_ahead_ms: ms, ..self }
    }
}

impl Default for ServerConfig {
    fn default() -> (r: Self)
        ensures
            is_default_config(r, "Sendspin Rust Server"@),
    {
        ServerConfig::new("Sendspin Rust Server")
    }
}

} // verus!
