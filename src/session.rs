//! Per-connection session state machine: handshake, role and format
//! negotiation, inbound message handling and teardown.
//!
//! The transport loop lives outside the library: it decodes each inbound
//! frame into a [`SessionEvent`], hands it to [`Session::handle_event`], and
//! drains the client's outbound queue from the [`ClientManager`].
use vstd::prelude::*;
use base64::Engine;
use crate::audio::{codec_name, codec_of_name, AudioFormat, Codec};
use crate::client_manager::{
    copy_format, copy_strings, text_of, distinct_clients, has_client, has_player_role, client_at, strings_view, ClientManager,
    ConnectedClient, ServerMessage,
};
use crate::clock::ServerClock;
use crate::config::ServerConfig;
use crate::group::{GroupManager, group_at, group_holds, in_some_group};
use crate::messages::{
    AudioFormatSpec, ClientHello, ClientState, ClientTime, Message, ServerHello, ServerTime, StreamPlayerConfig, StreamStart,
};
use crate::text::{is_prefix, starts_with, str_eq};
use std::sync::Arc;

verus! {

/// The standard base64 encoding (with padding) of a byte sequence.
pub uninterp spec fn base64_of(b: Seq<u8>) -> Seq<char>;

/// Relies on `base64::engine::general_purpose::STANDARD.encode`: the padded
/// standard encoding, four characters for every started group of three
/// bytes. The length bound keeps the crate's size computation from
/// overflowing, which it reports by panicking.
#[verifier::external_body]
fn base64_encode(data: &[u8]) -> (r: String)
    requires
        data@.len() <= usize::MAX / 2,
    ensures
        r@ == base64_of(data@),
        r@.len() == 4 * ((data@.len() + 2) / 3),
{
    base64::engine::general_purpose::STANDARD.encode(data)
}

/// Role `r` belongs to family `f` (bare, or tagged `f@...`).
pub open spec fn in_family(r: Seq<char>, f: Seq<char>, tagged: Seq<char>) -> bool {
    r == f || is_prefix(tagged, r)
}

/// Some advertised role belongs to family `f`.
pub open spec fn advertises_family(roles: Seq<Seq<char>>, f: Seq<char>, tagged: Seq<char>) -> bool {
    exists|i: int| 0 <= i < roles.len() && in_family(#[trigger] roles[i], f, tagged)
}

/// The active roles granted for the advertised ones: `player@v1`,
/// `controller@v1`, `metadata@v1`, each when its family is advertised, in
/// this order.
pub open spec fn negotiated_roles(roles: Seq<Seq<char>>) -> Seq<Seq<char>> {
    (if advertises_family(roles, "player"@, "player@"@) { seq!["player@v1"@] } else { seq![] })
        + (if advertises_family(roles, "controller"@, "controller@"@) { seq!["controller@v1"@] } else { seq![] })
        + (if advertises_family(roles, "metadata"@, "metadata@"@) { seq!["metadata@v1"@] } else { seq![] })
}

fn advertises(roles: &[String], family: &str, tagged: &str) -> (r: bool)
    ensures
        r == advertises_family(strings_view(roles@), family@, tagged@),
{
    let n = roles.len();
    let mut i: usize = 0;
    while i < n
        invariant
            n == roles@.len(),
            i <= n,
            forall|k: int| 0 <= k < i ==> !in_family(#[trigger] strings_view(roles@)[k], family@, tagged@),
        decreases n - i,
    {
        if str_eq(roles[i].as_str(), family) || starts_with(roles[i].as_str(), tagged) {
            assert(strings_view(roles@)[i as int] == roles@[i as int]@);
            return true;
        }
        assert(strings_view(roles@)[i as int] == roles@[i as int]@);
        i = i + 1;
    }
    false
}

/// Negotiate the active roles from the roles a client advertises.
pub fn negotiate_roles(supported_roles: &[String]) -> (r: Vec<String>)
    ensures
        strings_view(r@) == negotiated_roles(strings_view(supported_roles@)),
{
    let mut active: Vec<String> = Vec::new();
    if advertises(supported_roles, "player", "player@") {
        active.push("player@v1".to_string());
    }
    let ghost a1 = strings_view(active@);
    if advertises(supported_roles, "controller", "controller@") {
        active.push("controller@v1".to_string());
    }
    let ghost a2 = strings_view(active@);
    if advertises(supported_roles, "metadata", "metadata@") {
        active.push("metadata@v1".to_string());
    }
    proof {
        let v = strings_view(supported_roles@);
        let p: Seq<Seq<char>> = if advertises_family(v, "player"@, "player@"@) { seq!["player@v1"@] } else { seq![] };
        let c: Seq<Seq<char>> = if advertises_family(v, "controller"@, "controller@"@) { seq!["controller@v1"@] } else { seq![] };
        let m: Seq<Seq<char>> = if advertises_family(v, "metadata"@, "metadata@"@) { seq!["metadata@v1"@] } else { seq![] };
        assert(a1 =~= p);
        assert(a2 =~= p + c);
        assert(strings_view(active@) =~= p + c + m);
    }
    active
}

/// Index of the first PCM entry of `fs`, or `fs.len()` when there is none.
pub open spec fn first_pcm(fs: Seq<AudioFormatSpec>) -> int
    decreases fs.len(),
{
    if fs.len() == 0 {
        0
    } else if fs[0].codec@ == "pcm"@ {
        0
    } else {
        1 + first_pcm(fs.drop_first())
    }
}

proof fn lemma_first_pcm(fs: Seq<AudioFormatSpec>, i: int)
    requires
        0 <= i <= fs.len(),
        forall|k: int| 0 <= k < i ==> (#[trigger] fs[k]).codec@ != "pcm"@,
        i == fs.len() || fs[i].codec@ == "pcm"@,
    ensures
        first_pcm(fs) == i,
    decreases i,
{
    if i > 0 {
        assert(fs[0].codec@ != "pcm"@);
        let t = fs.drop_first();
        assert forall|k: int| 0 <= k < i - 1 implies (#[trigger] t[k]).codec@ != "pcm"@ by {
            assert(t[k] == fs[k + 1]);
        }
        if i < fs.len() {
            assert(t[i - 1] == fs[i]);
        }
        lemma_first_pcm(t, i - 1);
    }
}

/// The format a session settles on: the first PCM entry the client lists;
/// else the client's first entry, its codec read by name; else the
/// server's defaults in PCM.
pub open spec fn negotiated_format(hello: ClientHello, config: ServerConfig) -> (Codec, u32, u8, u8) {
    match hello.player_support {
        Some(ps) => {
            let fs = ps.supported_formats@;
            let i = first_pcm(fs);
            if i < fs.len() {
                (Codec::Pcm, fs[i].sample_rate, fs[i].channels, fs[i].bit_depth)
            } else if fs.len() > 0 {
                (codec_of_name(fs[0].codec@), fs[0].sample_rate, fs[0].channels, fs[0].bit_depth)
            } else {
                (Codec::Pcm, config.default_sample_rate, config.default_channels, config.default_bit_depth)
            }
        },
        None => (Codec::Pcm, config.default_sample_rate, config.default_channels, config.default_bit_depth),
    }
}

/// The format fields of `f` are `t`, and it has no codec header.
pub open spec fn format_is(f: AudioFormat, t: (Codec, u32, u8, u8)) -> bool {
    &&& f.codec == t.0
    &&& f.sample_rate == t.1
    &&& f.channels == t.2
    &&& f.bit_depth == t.3
    &&& f.codec_header is None
}

fn codec_from_name(name: &str) -> (r: Codec)
    ensures
        r == codec_of_name(name@),
{
    if str_eq(name, "opus") {
        Codec::Opus
    } else if str_eq(name, "flac") {
        Codec::Flac
    } else if str_eq(name, "mp3") {
        Codec::Mp3
    } else {
        Codec::Pcm
    }
}

/// Negotiate the audio format from the client's capabilities.
pub fn negotiate_audio_format(client_hello: &ClientHello, config: &ServerConfig) -> (r: AudioFormat)
    ensures
        format_is(r, negotiated_format(*client_hello, *config)),
{
    let mut format = AudioFormat {
        codec: Codec::Pcm,
        sample_rate: config.default_sample_rate,
        channels: config.default_channels,
        bit_depth: config.default_bit_depth,
        codec_header: None,
    };
    if let Some(ps) = &client_hello.player_support {
        let fs = &ps.supported_formats;
        let n = fs.len();
        let mut i: usize = 0;
        while i < n
            invariant
                n == fs@.len(),
                i <= n,
                client_hello.player_support == Some(*ps),
                fs@ == ps.supported_formats@,
                format_is(format, (Codec::Pcm, config.default_sample_rate, config.default_channels, config.default_bit_depth)),
                forall|k: int| 0 <= k < i ==> (#[trigger] fs@[k]).codec@ != "pcm"@,
            decreases n - i,
        {
            if str_eq(fs[i].codec.as_str(), "pcm") {
                proof { lemma_first_pcm(fs@, i as int); }
                format.sample_rate = fs[i].sample_rate;
                format.channels = fs[i].channels;
                format.bit_depth = fs[i].bit_depth;
                return format;
            }
            i = i + 1;
        }
        proof { lemma_first_pcm(fs@, n as int); }
        if n > 0 {
            format.codec = codec_from_name(fs[0].codec.as_str());
            format.sample_rate = fs[0].sample_rate;
            format.channels = fs[0].channels;
            format.bit_depth = fs[0].bit_depth;
        }
    }
    format
}

/// The stream/start message describing `f`, its codec header in base64.
pub open spec fn describes_stream(m: Message, f: AudioFormat) -> bool {
    &&& m matches Message::StreamStart(s)
    &&& s.player.codec@ == codec_name(f.codec)
    &&& s.player.sample_rate == f.sample_rate
    &&& s.player.channels == f.channels
    &&& s.player.bit_depth == f.bit_depth
    &&& match (s.player.codec_header, f.codec_header) {
        (Some(t), Some(h)) => t@ == base64_of(h@),
        (None, None) => true,
        _ => false,
    }
}

/// Build the stream/start message for a negotiated format.
pub fn create_stream_start(format: &AudioFormat) -> (r: Message)
    requires
        format.codec_header matches Some(h) ==> h@.len() <= usize::MAX / 2,
    ensures
        describes_stream(r, *format),
{
    let header = match &format.codec_header {
        Some(h) => Some(base64_encode(h.as_slice())),
        None => None,
    };
    Message::StreamStart(StreamStart {
        player: StreamPlayerConfig {
            codec: format.codec.name(),
            sample_rate: format.sample_rate,
            channels: format.channels,
            bit_depth: format.bit_depth,
            codec_header: header,
        },
    })
}

/// Milliseconds a new connection may take to send its client/hello.
pub const HELLO_TIMEOUT_MS: u64 = 10000;

/// Where a session stands.
#[derive(Debug, Clone, Copy, PartialEq, Eq, Structural)]
pub enum SessionState {
    /// Connected; waiting for client/hello.
    AwaitingHello,
    /// Registered; exchanging messages and receiving audio.
    Streaming,
    /// The client said goodbye; waiting for the transport to close.
    Closing,
    /// Finished; every further event is absorbed.
    Terminated,
}

/// What happened on the transport, as the session sees it.
#[derive(Debug, Clone)]
pub enum SessionEvent {
    /// A text frame that decoded to a protocol message.
    Message(Message),
    /// A text frame with a message tag this server does not know.
    UnknownMessage,
    /// A text frame that is not a valid message.
    Malformed,
    /// A binary frame.
    Binary,
    /// A ping or pong frame.
    KeepAlive,
    /// The peer closed the connection, or the stream ended.
    Closed,
    /// Receiving from the transport failed.
    TransportError,
    /// The writer could not deliver an outbound frame.
    SendFailed,
    /// This many milliseconds have passed since the connection opened.
    Elapsed(u64),
}

/// The event is a client/hello message.
pub open spec fn is_hello_event(ev: SessionEvent) -> bool {
    ev matches SessionEvent::Message(Message::ClientHello(_))
}

/// The event ends a streaming session without a goodbye.
pub open spec fn is_fatal_event(ev: SessionEvent) -> bool {
    ev is Malformed || ev is Closed || ev is TransportError || ev is SendFailed
}

/// The state a session moves to on an event.
pub open spec fn next_state(s: SessionState, ev: SessionEvent) -> SessionState {
    match s {
        SessionState::AwaitingHello => if is_hello_event(ev) {
            SessionState::Streaming
        } else if ev is Binary || ev is KeepAlive {
            SessionState::AwaitingHello
        } else {
            match ev {
                SessionEvent::Elapsed(ms) => if ms >= HELLO_TIMEOUT_MS {
                    SessionState::Terminated
                } else {
                    SessionState::AwaitingHello
                },
                _ => SessionState::Terminated,
            }
        },
        SessionState::Streaming => if ev matches SessionEvent::Message(Message::ClientGoodbye(_)) {
            SessionState::Closing
        } else if is_fatal_event(ev) {
            SessionState::Terminated
        } else {
            SessionState::Streaming
        },
        SessionState::Closing => if ev is Closed || ev is TransportError || ev is SendFailed {
            SessionState::Terminated
        } else {
            SessionState::Closing
        },
        SessionState::Terminated => SessionState::Terminated,
    }
}

/// On this event a streaming session leaves the registries.
pub open spec fn leaves_registry(s: SessionState, ev: SessionEvent) -> bool {
    s == SessionState::Streaming && (is_fatal_event(ev) || ev matches SessionEvent::Message(Message::ClientGoodbye(_)))
}

/// The frame is a stream/start for the negotiated format `t`.
pub open spec fn starts_stream(m: ServerMessage, t: (Codec, u32, u8, u8)) -> bool {
    &&& text_of(m) matches Some(Message::StreamStart(st))
    &&& st.player.codec@ == codec_name(t.0)
    &&& st.player.sample_rate == t.1
    &&& st.player.channels == t.2
    &&& st.player.bit_depth == t.3
    &&& st.player.codec_header is None
}

/// The frame is the server/hello granting `roles`.
pub open spec fn greets(m: ServerMessage, config: ServerConfig, roles: Seq<Seq<char>>) -> bool {
    &&& text_of(m) matches Some(Message::ServerHello(sh))
    &&& sh.server_id@ == config.server_id@
    &&& sh.name@ == config.name@
    &&& sh.version == 1
    &&& strings_view(sh.active_roles@) == roles
    &&& sh.connection_reason matches Some(reason)
    &&& reason@ == "discovery"@
}

/// The record `c` is what a session registers for `hello`.
pub open spec fn registered_record(c: ConnectedClient, hello: ClientHello, config: ServerConfig, default_id: Seq<char>) -> bool {
    let roles = negotiated_roles(strings_view(hello.supported_roles@));
    let t = negotiated_format(hello, config);
    &&& c.client_id@ == hello.client_id@
    &&& c.name@ == hello.name@
    &&& strings_view(c.active_roles@) == roles
    &&& c.audio_format matches Some(f)
    &&& format_is(f, t)
    &&& c.group_id matches Some(g)
    &&& g@ == default_id
    &&& c.volume == 100
    &&& !c.muted
    &&& c.buffer_capacity == match hello.player_support {
        Some(ps) => ps.buffer_capacity,
        None => 0,
    }
    &&& c.spec_delivered().len() == 0
    &&& greets(c.outbound()[0], config, roles)
    &&& if has_player_role(c.active_roles@) {
        c.outbound().len() == 2 && starts_stream(c.outbound()[1], t)
    } else {
        c.outbound().len() == 1
    }
}

/// After a client/hello: the client is registered with its negotiated
/// record, sits in the default group, and the registry grew by one unless
/// the id was already there.
pub open spec fn hello_registered(
    hello: ClientHello,
    config: ServerConfig,
    oc: ClientManager,
    nc: ClientManager,
    ng: GroupManager,
) -> bool {
    &&& exists|k: int| #[trigger] client_at(nc.spec_clients(), hello.client_id@, k)
        && registered_record(nc.spec_clients()[k], hello, config, ng.spec_default_id())
    &&& group_holds(ng.spec_groups(), ng.spec_default_id(), hello.client_id@)
    &&& forall|x: Seq<char>| #[trigger] has_client(nc.spec_clients(), x) == (has_client(oc.spec_clients(), x) || x == hello.client_id@)
    &&& nc.spec_clients().len() == oc.spec_clients().len() + if has_client(oc.spec_clients(), hello.client_id@) {
        0int
    } else {
        1int
    }
}

/// After a teardown: the client is in neither registry, the registry
/// shrank by one when it was there, and every other client record and every
/// other group membership is kept as it was.
pub open spec fn torn_down(id: Seq<char>, oc: ClientManager, nc: ClientManager, og: GroupManager, ng: GroupManager) -> bool {
    &&& !has_client(nc.spec_clients(), id)
    &&& forall|x: Seq<char>| #[trigger] has_client(nc.spec_clients(), x) == (has_client(oc.spec_clients(), x) && x != id)
    &&& has_client(oc.spec_clients(), id) ==> exists|k: int| #[trigger] client_at(oc.spec_clients(), id, k)
        && nc.spec_clients() == oc.spec_clients().remove(k)
    &&& !has_client(oc.spec_clients(), id) ==> nc.spec_clients() == oc.spec_clients()
    &&& nc.spec_clients().len() == oc.spec_clients().len() - if has_client(oc.spec_clients(), id) {
        1int
    } else {
        0int
    }
    &&& !in_some_group(ng.spec_groups(), id)
    &&& ng.spec_default_id() == og.spec_default_id()
    &&& ng.spec_groups().len() == og.spec_groups().len()
    &&& forall|i: int| 0 <= i < og.spec_groups().len() ==> (#[trigger] ng.spec_groups()[i]).same_settings(&og.spec_groups()[i])
    &&& forall|i: int, c: Seq<char>| 0 <= i < og.spec_groups().len()
        ==> (#[trigger] ng.spec_groups()[i].has(c) == (og.spec_groups()[i].has(c) && c != id))
}

/// After a client/time: the client got a server/time echoing its
/// timestamp, both server stamps being the one clock reading taken for the
/// reply (never negative).
pub open spec fn time_replied(id: Seq<char>, t: ClientTime, oc: ClientManager, nc: ClientManager) -> bool {
    &&& nc.spec_clients().len() == oc.spec_clients().len()
    &&& forall|i: int| 0 <= i < oc.spec_clients().len() ==> {
        let o = oc.spec_clients()[i];
        let n = #[trigger] nc.spec_clients()[i];
        if o.client_id@ == id {
            &&& n.same_record(&o)
            &&& n.outbound().len() == o.outbound().len() + 1
            &&& n.outbound().drop_last() == o.outbound()
            &&& text_of(n.outbound().last()) matches Some(Message::ServerTime(st))
            &&& st.client_transmitted == t.client_transmitted
            &&& st.server_received >= 0
            &&& st.server_received == st.server_transmitted
        } else {
            n == o
        }
    }
}

/// After a client/state: volume and mute were recorded when both are
/// present, and nothing changed otherwise.
pub open spec fn state_applied(id: Seq<char>, st: ClientState, oc: ClientManager, nc: ClientManager) -> bool {
    match st.player {
        Some(p) => match (p.volume, p.muted) {
            (Some(v), Some(m)) => {
                &&& nc.spec_clients().len() == oc.spec_clients().len()
                &&& forall|i: int| 0 <= i < oc.spec_clients().len() ==> {
                    let o = oc.spec_clients()[i];
                    let n = #[trigger] nc.spec_clients()[i];
                    if o.client_id@ == id {
                        &&& n.same_identity(&o)
                        &&& n.outbound() == o.outbound()
                        &&& n.audio_format == o.audio_format
                        &&& n.volume == v
                        &&& n.muted == m
                    } else {
                        n == o
                    }
                }
            },
            _ => nc == oc,
        },
        None => nc == oc,
    }
}

proof fn lemma_same_ids(oc: Seq<ConnectedClient>, nc: Seq<ConnectedClient>)
    requires
        oc.len() == nc.len(),
        forall|i: int| 0 <= i < oc.len() ==> (#[trigger] nc[i]).client_id@ == oc[i].client_id@,
    ensures
        forall|x: Seq<char>| #[trigger] has_client(nc, x) == has_client(oc, x),
{
    assert forall|x: Seq<char>| #[trigger] has_client(nc, x) == has_client(oc, x) by {
        if has_client(oc, x) {
            let j = choose|j: int| #[trigger] client_at(oc, x, j);
            assert(client_at(nc, x, j));
        }
        if has_client(nc, x) {
            let j = choose|j: int| #[trigger] client_at(nc, x, j);
            assert(client_at(oc, x, j));
        }
    }
}

/// The server/time reply to `t` for clock reading `now`: the client's
/// stamp echoed, and `now` as both the receive and the transmit stamp.
pub fn server_time_for(t: ClientTime, now: i64) -> (r: Message)
    ensures
        r matches Message::ServerTime(st) && st.client_transmitted == t.client_transmitted
            && st.server_received == now && st.server_transmitted == now,
{
    Message::ServerTime(ServerTime {
        client_transmitted: t.client_transmitted,
        server_received: now,
        server_transmitted: now,
    })
}

/// One live connection.
pub struct Session {
    /// Where the session stands.
    pub state: SessionState,
    /// The client id, once client/hello arrived.
    pub client_id: Option<String>,
    /// The reason the client gave when saying goodbye.
    pub goodbye_reason: Option<String>,
}

impl Session {
    /// A registered session knows its client id.
    pub open spec fn wf(&self) -> bool {
        (self.state == SessionState::Streaming || self.state == SessionState::Closing) ==> self.client_id is Some
    }

    /// A fresh session waiting for client/hello.
    pub fn new() -> (r: Self)
        ensures
            r.wf(),
            r.state == SessionState::AwaitingHello,
            r.client_id is None,
            r.goodbye_reason is None,
    {
        Session { state: SessionState::AwaitingHello, client_id: None, goodbye_reason: None }
    }

    fn accept_hello(
        &mut self,
        hello: ClientHello,
        clients: &mut ClientManager,
        groups: &mut GroupManager,
        config: &ServerConfig,
    )
        requires
            old(clients).wf(),
            old(groups).wf(),
        ensures
            final(clients).wf(),
            final(groups).wf(),
            final(self).state == SessionState::Streaming,
            final(self).client_id matches Some(id) && id@ == hello.client_id@,
            final(self).goodbye_reason == old(self).goodbye_reason,
            hello_registered(hello, *config, *old(clients), *final(clients), *final(groups)),
    {
        let roles = negotiate_roles(hello.supported_roles.as_slice());
        let format = negotiate_audio_format(&hello, config);
        let default_id = groups.default_group_id().to_string();
        let mut c = ConnectedClient::new(hello.client_id.clone(), hello.name.clone());
        c.active_roles = copy_strings(&roles);
        c.audio_format = Some(copy_format(&format));
        c.group_id = Some(default_id.clone());
        if let Some(ps) = &hello.player_support {
            c.buffer_capacity = ps.buffer_capacity;
        }
        let greeting = Message::ServerHello(ServerHello {
            server_id: config.server_id.clone(),
            name: config.name.clone(),
            version: 1,
            active_roles: roles,
            connection_reason: Some("discovery".to_string()),
        });
        c.send(ServerMessage::Text(Arc::new(greeting)));
        if c.is_player() {
            c.send(ServerMessage::Text(Arc::new(create_stream_start(&format))));
        }
        let ghost rec = c;
        let ghost oc = *clients;
        clients.add_client(c);
        let ghost nc = *clients;
        let _ = groups.add_to_group(hello.client_id.as_str(), default_id.as_str());
        self.client_id = Some(hello.client_id.clone());
        self.state = SessionState::Streaming;
        proof {
            let gs = groups.spec_groups();
            assert(registered_record(rec, hello, *config, groups.spec_default_id()));
            let d = choose|i: int| group_at(gs, groups.spec_default_id(), i);
            assert(gs[d].has(hello.client_id@));
            assert(group_holds(gs, groups.spec_default_id(), hello.client_id@));
            let hid = hello.client_id@;
            if has_client(oc.spec_clients(), hid) {
                let k = choose|k: int| #[trigger] client_at(oc.spec_clients(), hid, k)
                    && nc.spec_clients() == oc.spec_clients().update(k, rec);
                assert(client_at(nc.spec_clients(), hid, k));
                assert forall|x: Seq<char>| #[trigger] has_client(nc.spec_clients(), x) == (has_client(oc.spec_clients(), x) || x == hid) by {
                    if has_client(oc.spec_clients(), x) {
                        let j = choose|j: int| #[trigger] client_at(oc.spec_clients(), x, j);
                        if j == k {
                            assert(client_at(nc.spec_clients(), x, k));
                        } else {
                            assert(client_at(nc.spec_clients(), x, j));
                        }
                    }
                    if has_client(nc.spec_clients(), x) {
                        let j = choose|j: int| #[trigger] client_at(nc.spec_clients(), x, j);
                        if j != k {
                            assert(client_at(oc.spec_clients(), x, j));
                        }
                    }
                }
            } else {
                let n = oc.spec_clients().len() as int;
                assert(client_at(nc.spec_clients(), hid, n));
                assert forall|x: Seq<char>| #[trigger] has_client(nc.spec_clients(), x) == (has_client(oc.spec_clients(), x) || x == hid) by {
                    if has_client(oc.spec_clients(), x) {
                        let j = choose|j: int| #[trigger] client_at(oc.spec_clients(), x, j);
                        assert(client_at(nc.spec_clients(), x, j));
                    }
                    if has_client(nc.spec_clients(), x) {
                        let j = choose|j: int| #[trigger] client_at(nc.spec_clients(), x, j);
                        if j != n {
                            assert(client_at(oc.spec_clients(), x, j));
                        }
                    }
                }
            }
        }
    }

    fn teardown(&self, clients: &mut ClientManager, groups: &mut GroupManager)
        requires
            old(clients).wf(),
            old(groups).wf(),
            self.client_id is Some,
        ensures
            final(clients).wf(),
            final(groups).wf(),
            torn_down(self.client_id->Some_0@, *old(clients), *final(clients), *old(groups), *final(groups)),
    {
        match &self.client_id {
            Some(id) => {
                let ghost oc = *clients;
                let _ = clients.remove_client(id.as_str());
                proof {
                    let nc = clients.spec_clients();
                    if has_client(oc.spec_clients(), id@) {
                        let k = choose|k: int| #[trigger] client_at(oc.spec_clients(), id@, k)
                            && nc == oc.spec_clients().remove(k);
                        assert forall|x: Seq<char>| #[trigger] has_client(nc, x) == (has_client(oc.spec_clients(), x) && x != id@) by {
                            if has_client(oc.spec_clients(), x) && x != id@ {
                                let j = choose|j: int| #[trigger] client_at(oc.spec_clients(), x, j);
                                assert(j != k);
                                if j < k {
                                    assert(client_at(nc, x, j));
                                } else {
                                    assert(client_at(nc, x, j - 1));
                                }
                            }
                            if has_client(nc, x) {
                                let j = choose|j: int| #[trigger] client_at(nc, x, j);
                                if j < k {
                                    assert(client_at(oc.spec_clients(), x, j));
                                } else {
                                    assert(client_at(oc.spec_clients(), x, j + 1));
                                }
                            }
                        }
                    }
                }
                groups.remove_client(id.as_str());
            },
            None => {},
        }
    }

    fn reply_time(&self, t: ClientTime, clients: &mut ClientManager, clock: &ServerClock)
        requires
            old(clients).wf(),
            self.client_id is Some,
        ensures
            final(clients).wf(),
            time_replied(self.client_id->Some_0@, t, *old(clients), *final(clients)),
            forall|x: Seq<char>| #[trigger] has_client(final(clients).spec_clients(), x) == has_client(old(clients).spec_clients(), x),
    {
        match &self.client_id {
            Some(id) => {
                let ghost oc = *clients;
                let now = clock.now_micros();
                let reply = server_time_for(t, now);
                let _ = clients.send_to_client(id.as_str(), reply);
                proof {
                    assert forall|i: int| 0 <= i < old(clients).spec_clients().len() && old(clients).spec_clients()[i].client_id@ == id@
                        implies #[trigger] clients.spec_clients()[i].outbound().drop_last() == old(clients).spec_clients()[i].outbound() by {
                        assert(clients.spec_clients()[i].outbound().drop_last() =~= old(clients).spec_clients()[i].outbound());
                    }
                    assert forall|i: int| 0 <= i < oc.spec_clients().len() implies (#[trigger] clients.spec_clients()[i]).client_id@ == oc.spec_clients()[i].client_id@ by {
                        if oc.spec_clients()[i].client_id@ == id@ {
                            assert(clients.spec_clients()[i].same_record(&oc.spec_clients()[i]));
                        }
                    }
                    lemma_same_ids(oc.spec_clients(), clients.spec_clients());
                }
            },
            None => {},
        }
    }

    fn apply_client_state(&self, st: ClientState, clients: &mut ClientManager)
        requires
            old(clients).wf(),
            self.client_id is Some,
        ensures
            final(clients).wf(),
            state_applied(self.client_id->Some_0@, st, *old(clients), *final(clients)),
            forall|x: Seq<char>| #[trigger] has_client(final(clients).spec_clients(), x) == has_client(old(clients).spec_clients(), x),
    {
        match &self.client_id {
            Some(id) => {
                if let Some(p) = st.player {
                    if let (Some(volume), Some(muted)) = (p.volume, p.muted) {
                        let ghost oc = *clients;
                        clients.update_volume(id.as_str(), volume, muted);
                        proof {
                            assert forall|i: int| 0 <= i < oc.spec_clients().len() implies (#[trigger] clients.spec_clients()[i]).client_id@ == oc.spec_clients()[i].client_id@ by {
                                if oc.spec_clients()[i].client_id@ == id@ {
                                    assert(clients.spec_clients()[i].same_identity(&oc.spec_clients()[i]));
                                }
                            }
                            lemma_same_ids(oc.spec_clients(), clients.spec_clients());
                        }
                    }
                }
            },
            None => {},
        }
    }

    /// Advance the session by one transport event, updating the client and
    /// group registries and queueing replies.
    pub fn handle_event(
        &mut self,
        ev: SessionEvent,
        clients: &mut ClientManager,
        groups: &mut GroupManager,
        config: &ServerConfig,
        clock: &ServerClock,
    )
        requires
            old(self).wf(),
            old(clients).wf(),
            old(groups).wf(),
        ensures
            final(self).wf(),
            final(clients).wf(),
            final(groups).wf(),
            final(self).state == next_state(old(self).state, ev),
            old(self).state == SessionState::AwaitingHello && !is_hello_event(ev)
                ==> *final(clients) == *old(clients) && *final(groups) == *old(groups),
            old(self).state == SessionState::AwaitingHello ==> (ev matches SessionEvent::Message(Message::ClientHello(h))
                ==> hello_registered(h, *config, *old(clients), *final(clients), *final(groups))
                && (final(self).client_id matches Some(id) && id@ == h.client_id@)),
            old(self).state != SessionState::AwaitingHello ==> final(self).client_id == old(self).client_id,
            leaves_registry(old(self).state, ev)
                ==> torn_down(old(self).client_id->Some_0@, *old(clients), *final(clients), *old(groups), *final(groups)),
            old(self).state == SessionState::Streaming ==> (ev matches SessionEvent::Message(Message::ClientGoodbye(g))
                ==> (final(self).goodbye_reason matches Some(reason) && reason@ == g.reason@)),
            old(self).state == SessionState::Streaming ==> (ev matches SessionEvent::Message(Message::ClientTime(t))
                ==> time_replied(old(self).client_id->Some_0@, t, *old(clients), *final(clients))
                && *final(groups) == *old(groups)),
            old(self).state == SessionState::Streaming ==> (ev matches SessionEvent::Message(Message::ClientState(st))
                ==> state_applied(old(self).client_id->Some_0@, st, *old(clients), *final(clients))
                && *final(groups) == *old(groups)),
            old(self).state == SessionState::Streaming && !leaves_registry(old(self).state, ev)
                && !(ev matches SessionEvent::Message(Message::ClientTime(_)))
                && !(ev matches SessionEvent::Message(Message::ClientState(_)))
                ==> *final(clients) == *old(clients) && *final(groups) == *old(groups),
            old(self).state == SessionState::Closing || old(self).state == SessionState::Terminated
                ==> *final(clients) == *old(clients) && *final(groups) == *old(groups),
            !leaves_registry(old(self).state, ev) && !(old(self).state == SessionState::AwaitingHello && is_hello_event(ev))
                ==> forall|x: Seq<char>| #[trigger] has_client(final(clients).spec_clients(), x) == has_client(old(clients).spec_clients(), x),
    {
        match self.state {
            SessionState::AwaitingHello => match ev {
                SessionEvent::Message(Message::ClientHello(hello)) => {
                    self.accept_hello(hello, clients, groups, config);
                },
                SessionEvent::Binary | SessionEvent::KeepAlive => {},
                SessionEvent::Elapsed(ms) => {
                    if ms >= HELLO_TIMEOUT_MS {
                        self.state = SessionState::Terminated;
                    }
                },
                _ => {
                    self.state = SessionState::Terminated;
                },
            },
            SessionState::Streaming => match ev {
                SessionEvent::Message(Message::ClientTime(t)) => {
                    self.reply_time(t, clients, clock);
                },
                SessionEvent::Message(Message::ClientState(st)) => {
                    self.apply_client_state(st, clients);
                },
                SessionEvent::Message(Message::ClientGoodbye(g)) => {
                    self.teardown(clients, groups);
                    self.goodbye_reason = Some(g.reason);
                    self.state = SessionState::Closing;
                },
                SessionEvent::Malformed | SessionEvent::Closed | SessionEvent::TransportError
                | SessionEvent::SendFailed => {
                    self.teardown(clients, groups);
                    self.state = SessionState::Terminated;
                },
                _ => {},
            },
            SessionState::Closing => match ev {
                SessionEvent::Closed | SessionEvent::TransportError | SessionEvent::SendFailed => {
                    self.state = SessionState::Terminated;
                },
                _ => {},
            },
            SessionState::Terminated => {},
        }
    }
}

/// The session finished negotiating and has not left the registry.
pub open spec fn is_live(s: Session) -> bool {
    s.state == SessionState::Streaming && s.client_id is Some
}

/// Session `i` of `ss` is live with client id `x`.
pub open spec fn live_with(ss: Seq<Session>, i: int, x: Seq<char>) -> bool {
    0 <= i < ss.len() && is_live(ss[i]) && ss[i].client_id->Some_0@ == x
}

/// The number of live sessions.
pub open spec fn live_count(ss: Seq<Session>) -> int
    decreases ss.len(),
{
    if ss.len() == 0 {
        0
    } else {
        live_count(ss.drop_last()) + if is_live(ss.last()) {
            1int
        } else {
            0int
        }
    }
}

/// The registry holds exactly the ids of the live sessions, and no two live
/// sessions share an id.
pub open spec fn registry_matches(ss: Seq<Session>, cs: Seq<ConnectedClient>) -> bool {
    &&& forall|x: Seq<char>| #[trigger] has_client(cs, x) <==> exists|i: int| #[trigger] live_with(ss, i, x)
    &&& forall|i: int, j: int|
        0 <= i < j < ss.len() && is_live(#[trigger] ss[i]) && is_live(#[trigger] ss[j])
            ==> ss[i].client_id->Some_0@ != ss[j].client_id->Some_0@
}

/// When the registry holds exactly the live sessions' ids, its count is the
/// number of sessions that finished negotiating and have not yet left.
pub proof fn lemma_count_is_live_sessions(ss: Seq<Session>, cs: Seq<ConnectedClient>)
    requires
        distinct_clients(cs),
        registry_matches(ss, cs),
    ensures
        cs.len() == live_count(ss),
    decreases ss.len(),
{
    if ss.len() == 0 {
        if cs.len() > 0 {
            assert(client_at(cs, cs[0].client_id@, 0));
            assert(has_client(cs, cs[0].client_id@));
        }
    } else {
        let rest = ss.drop_last();
        let n = ss.len() - 1;
        if is_live(ss.last()) {
            let x = ss.last().client_id->Some_0@;
            assert(live_with(ss, n, x));
            assert(has_client(cs, x));
            let k = choose|k: int| #[trigger] client_at(cs, x, k);
            let cs2 = cs.remove(k);
            assert forall|a: int, b: int| 0 <= a < b < cs2.len() implies (#[trigger] cs2[a]).client_id@ != (#[trigger] cs2[b]).client_id@ by {
                let a2 = if a < k { a } else { a + 1 };
                let b2 = if b < k { b } else { b + 1 };
                assert(cs2[a] == cs[a2] && cs2[b] == cs[b2]);
                assert(cs[a2].client_id@ != cs[b2].client_id@);
            }
            assert forall|y: Seq<char>| #[trigger] has_client(cs2, y) <==> exists|i: int| #[trigger] live_with(rest, i, y) by {
                if has_client(cs2, y) {
                    let j = choose|j: int| #[trigger] client_at(cs2, y, j);
                    let j2 = if j < k { j } else { j + 1 };
                    assert(cs2[j] == cs[j2]);
                    assert(client_at(cs, y, j2));
                    assert(has_client(cs, y));
                    assert(y != x) by {
                        if j2 < k {
                            assert(cs[j2].client_id@ != cs[k].client_id@);
                        } else {
                            assert(cs[k].client_id@ != cs[j2].client_id@);
                        }
                    }
                    let i = choose|i: int| #[trigger] live_with(ss, i, y);
                    assert(i != n);
                    assert(live_with(rest, i, y));
                }
                if exists|i: int| #[trigger] live_with(rest, i, y) {
                    let i = choose|i: int| #[trigger] live_with(rest, i, y);
                    assert(live_with(ss, i, y));
                    assert(is_live(ss[i]) && is_live(ss[n]));
                    assert(y != x);
                    assert(has_client(cs, y));
                    let j = choose|j: int| #[trigger] client_at(cs, y, j);
                    assert(j != k);
                    if j < k {
                        assert(client_at(cs2, y, j));
                    } else {
                        assert(client_at(cs2, y, j - 1));
                    }
                }
            }
            assert forall|i: int, j: int|
                0 <= i < j < rest.len() && is_live(#[trigger] rest[i]) && is_live(#[trigger] rest[j])
                    implies rest[i].client_id->Some_0@ != rest[j].client_id->Some_0@ by {
                assert(ss[i] == rest[i] && ss[j] == rest[j]);
            }
            lemma_count_is_live_sessions(rest, cs2);
        } else {
            assert forall|y: Seq<char>| #[trigger] has_client(cs, y) <==> exists|i: int| #[trigger] live_with(rest, i, y) by {
                if has_client(cs, y) {
                    let i = choose|i: int| #[trigger] live_with(ss, i, y);
                    assert(i != n);
                    assert(live_with(rest, i, y));
                }
                if exists|i: int| #[trigger] live_with(rest, i, y) {
                    let i = choose|i: int| #[trigger] live_with(rest, i, y);
                    assert(live_with(ss, i, y));
                }
            }
            assert forall|i: int, j: int|
                0 <= i < j < rest.len() && is_live(#[trigger] rest[i]) && is_live(#[trigger] rest[j])
                    implies rest[i].client_id->Some_0@ != rest[j].client_id->Some_0@ by {
                assert(ss[i] == rest[i] && ss[j] == rest[j]);
            }
            lemma_count_is_live_sessions(rest, cs);
        }
    }
}

} // verus!
