//! Protocol messages: the tagged union carried in every control frame.
//!
//! On the wire each message is a JSON object `{"type": <tag>, "payload":
//! <body>}`; absent optional fields are left out.
use vstd::prelude::*;
use crate::text::str_eq;

verus! {

/// Top-level protocol message envelope
#[derive(Debug, Clone)]
pub enum Message {
    /// Client hello handshake message
    ClientHello(ClientHello),

    /// Server hello handshake response
    ServerHello(ServerHello),

    /// Client time synchronization request
    ClientTime(ClientTime),

    /// Server time synchronization response
    ServerTime(ServerTime),

    /// Stream start notification
    StreamStart(StreamStart),

    /// Stream clear notification (for seek)
    StreamClear(StreamClear),

    /// Stream end notification
    StreamEnd(StreamEnd),

    /// Server command to client
    ServerCommand(ServerCommand),

    /// Server state update to client
    ServerState(ServerState),

    /// Group update notification
    GroupUpdate(GroupUpdate),

    /// Client state update to server
    ClientState(ClientState),

    /// Client goodbye message
    ClientGoodbye(ClientGoodbye),

    /// Client request for format change (adaptive streaming)
    StreamRequestFormat(StreamRequestFormat),
}

/// Client hello message
#[derive(Debug, Clone)]
pub struct ClientHello {
    /// Unique client identifier
    pub client_id: String,
    /// Human-readable client name
    pub name: String,
    /// Protocol version number
    pub version: u32,
    /// List of supported roles with versions (e.g., "player@v1", "metadata@v1")
    pub supported_roles: Vec<String>,
    /// Device information
    pub device_info: DeviceInfo,
    /// Player@v1 capabilities (if client supports player@v1 role)
    pub player_support: Option<PlayerSupport>,
    /// Metadata@v1 capabilities (if client supports metadata@v1 role)
    pub metadata_support: Option<MetadataSupport>,
}

/// Device information
#[derive(Debug, Clone)]
pub struct DeviceInfo {
    /// Product name (e.g., "Sendspin-RS Player")
    pub product_name: String,
    /// Manufacturer name
    pub manufacturer: String,
    /// Software version string
    pub software_version: String,
}

/// Player capabilities (the player@v1 support object)
#[derive(Debug, Clone)]
pub struct PlayerSupport {
    /// List of supported audio formats in priority order (first is preferred)
    pub supported_formats: Vec<AudioFormatSpec>,
    /// Max size in bytes of compressed audio messages in the buffer yet to be played
    pub buffer_capacity: u32,
    /// List of supported playback commands (subset of: 'volume', 'mute')
    pub supported_commands: Vec<String>,
}

/// Audio format specification
#[derive(Debug, Clone)]
pub struct AudioFormatSpec {
    /// Codec name (e.g., "pcm", "opus")
    pub codec: String,
    /// Number of audio channels
    pub channels: u8,
    /// Sample rate in Hz
    pub sample_rate: u32,
    /// Bit depth per sample
    pub bit_depth: u8,
}

/// Metadata display capabilities
#[derive(Debug, Clone)]
pub struct MetadataSupport {
    /// Supported picture formats (e.g., "jpeg", "png")
    pub support_picture_formats: Vec<String>,
    /// Display width in pixels
    pub media_width: u32,
    /// Display height in pixels
    pub media_height: u32,
}

/// Server hello message
#[derive(Debug, Clone)]
pub struct ServerHello {
    /// Unique server identifier
    pub server_id: String,
    /// Human-readable server name
    pub name: String,
    /// Protocol version number
    pub version: u32,
    /// Active roles for this client
    pub active_roles: Vec<String>,
    /// Connection reason (for server-initiated connections)
    pub connection_reason: Option<String>,
}

/// Client time sync message
#[derive(Debug, Clone)]
pub struct ClientTime {
    /// Client transmission timestamp (Unix microseconds)
    pub client_transmitted: i64,
}

/// Server time sync response
#[derive(Debug, Clone)]
pub struct ServerTime {
    /// The client transmission timestamp, echoed back
    pub client_transmitted: i64,
    /// Server reception timestamp (server loop microseconds)
    pub server_received: i64,
    /// Server transmission timestamp (server loop microseconds)
    pub server_transmitted: i64,
}

/// Stream start message
#[derive(Debug, Clone)]
pub struct StreamStart {
    /// Player stream configuration
    pub player: StreamPlayerConfig,
}

/// Stream player configuration
#[derive(Debug, Clone)]
pub struct StreamPlayerConfig {
    /// Audio codec name
    pub codec: String,
    /// Sample rate in Hz
    pub sample_rate: u32,
    /// Number of audio channels
    pub channels: u8,
    /// Bit depth per sample
    pub bit_depth: u8,
    /// Optional codec-specific header (base64 encoded)
    pub codec_header: Option<String>,
}

/// Server command message (server -> client)
/// server/command contains role-specific command objects
#[derive(Debug, Clone)]
pub struct ServerCommand {
    /// Player command (if client has player role)
    pub player: Option<PlayerCommand>,
}

/// Player command in server/command message
/// command must be one of supported_commands from client/hello
#[derive(Debug, Clone)]
pub struct PlayerCommand {
    /// Command to execute: 'volume' or 'mute'
    pub command: String,
    /// Volume level (0-100) - only set if command is 'volume'
    pub volume: Option<u8>,
    /// Mute state - only set if command is 'mute'
    pub mute: Option<bool>,
}

/// Group update message (server -> client)
#[derive(Debug, Clone)]
pub struct GroupUpdate {
    /// Playback state of the group
    pub playback_state: Option<String>,
    /// Group identifier
    pub group_id: Option<String>,
    /// Group name
    pub group_name: Option<String>,
}

/// Client state message (client -> server)
#[derive(Debug, Clone)]
pub struct ClientState {
    /// Player state (if client has player role)
    pub player: Option<PlayerState>,
}

/// Player state in client/state message
#[derive(Debug, Clone)]
pub struct PlayerState {
    /// Current state: "synchronized" or "error"
    pub state: String,
    /// Current volume (0-100)
    pub volume: Option<u8>,
    /// Mute state
    pub muted: Option<bool>,
}

/// Stream clear message (server -> client)
#[derive(Debug, Clone)]
pub struct StreamClear {
    /// Roles to clear buffers for
    pub roles: Option<Vec<String>>,
}

/// Stream end message (server -> client)
#[derive(Debug, Clone)]
pub struct StreamEnd {
    /// Roles to end streams for
    pub roles: Option<Vec<String>>,
}

/// Client goodbye message (client -> server)
/// reason must be one of 'another_server', 'shutdown', 'restart', 'user_request'
#[derive(Debug, Clone)]
pub struct ClientGoodbye {
    /// Reason for disconnect
    pub reason: String,
}

/// Stream request format message (client -> server)
/// client requests a different stream format (adaptive streaming)
#[derive(Debug, Clone)]
pub struct StreamRequestFormat {
    /// Player format request (if client has player role)
    pub player: Option<PlayerFormatRequest>,
    /// Artwork format request (if client has artwork role)
    pub artwork: Option<ArtworkFormatRequest>,
}

/// Player format request in stream/request-format message
#[derive(Debug, Clone)]
pub struct PlayerFormatRequest {
    /// Requested codec: 'opus', 'flac', or 'pcm'
    pub codec: Option<String>,
    /// Requested number of channels
    pub channels: Option<u8>,
    /// Requested sample rate in Hz
    pub sample_rate: Option<u32>,
    /// Requested bit depth
    pub bit_depth: Option<u8>,
}

/// Artwork format request in stream/request-format message
#[derive(Debug, Clone)]
pub struct ArtworkFormatRequest {
    /// Artwork channel (0-3)
    pub channel: u8,
    /// Artwork source: 'album', 'artist', or 'none'
    pub source: Option<String>,
    /// Image format: 'jpeg', 'png', or 'bmp'
    pub format: Option<String>,
    /// Maximum width in pixels
    pub media_width: Option<u32>,
    /// Maximum height in pixels
    pub media_height: Option<u32>,
}

/// Server state message (server -> client)
#[derive(Debug, Clone)]
pub struct ServerState {
    /// Metadata state (if client has metadata role)
    pub metadata: Option<MetadataState>,
    /// Controller state (if client has controller role)
    pub controller: Option<ControllerState>,
}

/// Metadata state in server/state message
#[derive(Debug, Clone)]
pub struct MetadataState {
    /// Server timestamp for this metadata
    pub timestamp: i64,
    /// Track title
    pub title: Option<String>,
    /// Artist name
    pub artist: Option<String>,
    /// Album name
    pub album: Option<String>,
}

/// Controller state in server/state message
#[derive(Debug, Clone)]
pub struct ControllerState {
    /// Supported commands
    pub supported_commands: Vec<String>,
    /// Group volume (0-100)
    pub volume: u8,
    /// Group mute state
    pub muted: bool,
}


/// The kinds of message, one for each wire tag.
#[derive(Debug, Clone, Copy, PartialEq, Eq, Structural)]
pub enum MessageKind {
    /// `client/hello`.
    ClientHello,
    /// `server/hello`.
    ServerHello,
    /// `client/time`.
    ClientTime,
    /// `server/time`.
    ServerTime,
    /// `stream/start`.
    StreamStart,
    /// `stream/clear`.
    StreamClear,
    /// `stream/end`.
    StreamEnd,
    /// `server/command`.
    ServerCommand,
    /// `server/state`.
    ServerState,
    /// `group/update`.
    GroupUpdate,
    /// `client/state`.
    ClientState,
    /// `client/goodbye`.
    ClientGoodbye,
    /// `stream/request-format`.
    StreamRequestFormat,
}

/// The wire tag of a message kind.
pub open spec fn kind_tag(k: MessageKind) -> Seq<char> {
    match k {
        MessageKind::ClientHello => "client/hello"@,
        MessageKind::ServerHello => "server/hello"@,
        MessageKind::ClientTime => "client/time"@,
        MessageKind::ServerTime => "server/time"@,
        MessageKind::StreamStart => "stream/start"@,
        MessageKind::StreamClear => "stream/clear"@,
        MessageKind::StreamEnd => "stream/end"@,
        MessageKind::ServerCommand => "server/command"@,
        MessageKind::ServerState => "server/state"@,
        MessageKind::GroupUpdate => "group/update"@,
        MessageKind::ClientState => "client/state"@,
        MessageKind::ClientGoodbye => "client/goodbye"@,
        MessageKind::StreamRequestFormat => "stream/request-format"@,
    }
}

/// The kind of a message.
pub open spec fn message_kind(m: Message) -> MessageKind {
    match m {
        Message::ClientHello(_) => MessageKind::ClientHello,
        Message::ServerHello(_) => MessageKind::ServerHello,
        Message::ClientTime(_) => MessageKind::ClientTime,
        Message::ServerTime(_) => MessageKind::ServerTime,
        Message::StreamStart(_) => MessageKind::StreamStart,
        Message::StreamClear(_) => MessageKind::StreamClear,
        Message::StreamEnd(_) => MessageKind::StreamEnd,
        Message::ServerCommand(_) => MessageKind::ServerCommand,
        Message::ServerState(_) => MessageKind::ServerState,
        Message::GroupUpdate(_) => MessageKind::GroupUpdate,
        Message::ClientState(_) => MessageKind::ClientState,
        Message::ClientGoodbye(_) => MessageKind::ClientGoodbye,
        Message::StreamRequestFormat(_) => MessageKind::StreamRequestFormat,
    }
}

impl MessageKind {
    /// The wire tag of this kind.
    pub fn tag(&self) -> (r: &'static str)
        ensures
            r@ == kind_tag(*self),
    {
        match self {
            MessageKind::ClientHello => "client/hello",
            MessageKind::ServerHello => "server/hello",
            MessageKind::ClientTime => "client/time",
            MessageKind::ServerTime => "server/time",
            MessageKind::StreamStart => "stream/start",
            MessageKind::StreamClear => "stream/clear",
            MessageKind::StreamEnd => "stream/end",
            MessageKind::ServerCommand => "server/command",
            MessageKind::ServerState => "server/state",
            MessageKind::GroupUpdate => "group/update",
            MessageKind::ClientState => "client/state",
            MessageKind::ClientGoodbye => "client/goodbye",
            MessageKind::StreamRequestFormat => "stream/request-format",
        }
    }
}

impl Message {
    /// The kind of this message.
    pub fn kind(&self) -> (r: MessageKind)
        ensures
            r == message_kind(*self),
    {
        match self {
            Message::ClientHello(_) => MessageKind::ClientHello,
            Message::ServerHello(_) => MessageKind::ServerHello,
            Message::ClientTime(_) => MessageKind::ClientTime,
            Message::ServerTime(_) => MessageKind::ServerTime,
            Message::StreamStart(_) => MessageKind::StreamStart,
            Message::StreamClear(_) => MessageKind::StreamClear,
            Message::StreamEnd(_) => MessageKind::StreamEnd,
            Message::ServerCommand(_) => MessageKind::ServerCommand,
            Message::ServerState(_) => MessageKind::ServerState,
            Message::GroupUpdate(_) => MessageKind::GroupUpdate,
            Message::ClientState(_) => MessageKind::ClientState,
            Message::ClientGoodbye(_) => MessageKind::ClientGoodbye,
            Message::StreamRequestFormat(_) => MessageKind::StreamRequestFormat,
        }
    }
}

/// Distinct kinds have distinct wire tags.
pub proof fn lemma_tags_distinct(a: MessageKind, b: MessageKind)
    ensures
        kind_tag(a) == kind_tag(b) ==> a == b,
{
    reveal_strlit("client/hello");
    reveal_strlit("server/hello");
    reveal_strlit("client/time");
    reveal_strlit("server/time");
    reveal_strlit("stream/start");
    reveal_strlit("stream/clear");
    reveal_strlit("stream/end");
    reveal_strlit("server/command");
    reveal_strlit("server/state");
    reveal_strlit("group/update");
    reveal_strlit("client/state");
    reveal_strlit("client/goodbye");
    reveal_strlit("stream/request-format");
    let (x, y) = (kind_tag(a), kind_tag(b));
    if a != b {
        assert(x.len() != y.len() || x[1] != y[1] || x[7] != y[7]);
    }
}

/// The message kind a wire tag names; `None` for a tag this protocol does
/// not define.
pub fn kind_of_tag(tag: &str) -> (r: Option<MessageKind>)
    ensures
        r matches Some(k) ==> kind_tag(k) == tag@,
        r is None ==> forall|k: MessageKind| kind_tag(k) != tag@,
{
    if str_eq(tag, "client/hello") {
        Some(MessageKind::ClientHello)
    } else if str_eq(tag, "server/hello") {
        Some(MessageKind::ServerHello)
    } else if str_eq(tag, "client/time") {
        Some(MessageKind::ClientTime)
    } else if str_eq(tag, "server/time") {
        Some(MessageKind::ServerTime)
    } else if str_eq(tag, "stream/start") {
        Some(MessageKind::StreamStart)
    } else if str_eq(tag, "stream/clear") {
        Some(MessageKind::StreamClear)
    } else if str_eq(tag, "stream/end") {
        Some(MessageKind::StreamEnd)
    } else if str_eq(tag, "server/command") {
        Some(MessageKind::ServerCommand)
    } else if str_eq(tag, "server/state") {
        Some(MessageKind::ServerState)
    } else if str_eq(tag, "group/update") {
        Some(MessageKind::GroupUpdate)
    } else if str_eq(tag, "client/state") {
        Some(MessageKind::ClientState)
    } else if str_eq(tag, "client/goodbye") {
        Some(MessageKind::ClientGoodbye)
    } else if str_eq(tag, "stream/request-format") {
        Some(MessageKind::StreamRequestFormat)
    } else {
        None
    }
}

/// Reading back the tag written for a kind gives that kind again: any
/// result `kind_of_tag` may return for the tag of `k` is `Some(k)`.
pub proof fn lemma_tag_round_trip(k: MessageKind, r: Option<MessageKind>)
    requires
        r is Some ==> kind_tag(r->Some_0) == kind_tag(k),
        r is None ==> forall|j: MessageKind| #[trigger] kind_tag(j) != kind_tag(k),
    ensures
        r == Some(k),
{
    match r {
        Some(j) => {
            lemma_tags_distinct(j, k);
        },
        None => {
            let t = kind_tag(k);
            assert(t != kind_tag(k));
        },
    }
}

} // verus!
