use sendspin::audio::Codec;
use sendspin::client_manager::{ClientManager, ServerMessage};
use sendspin::clock::ServerClock;
use sendspin::config::ServerConfig;
use sendspin::group::GroupManager;
use sendspin::messages::{
    kind_of_tag, MessageKind, AudioFormatSpec, ClientGoodbye, ClientHello, ClientState, ClientTime, DeviceInfo, Message,
    PlayerState, PlayerSupport,
};
use sendspin::session::{negotiate_audio_format, negotiate_roles, server_time_for, Session, SessionEvent, SessionState, HELLO_TIMEOUT_MS};

fn text(m: &ServerMessage) -> Option<&Message> {
    match m {
        ServerMessage::Text(a) => Some(a.as_ref()),
        ServerMessage::Binary(_) => None,
    }
}


fn hello(id: &str, roles: &[&str], formats: Vec<AudioFormatSpec>) -> ClientHello {
    ClientHello {
        client_id: id.to_string(),
        name: format!("{id} name"),
        version: 1,
        supported_roles: roles.iter().map(|r| r.to_string()).collect(),
        device_info: DeviceInfo {
            product_name: "p".to_string(),
            manufacturer: "m".to_string(),
            software_version: "1".to_string(),
        },
        player_support: Some(PlayerSupport {
            supported_formats: formats,
            buffer_capacity: 200_000,
            supported_commands: vec!["volume".to_string(), "mute".to_string()],
        }),
        metadata_support: None,
    }
}

fn pcm(rate: u32) -> AudioFormatSpec {
    AudioFormatSpec { codec: "pcm".to_string(), channels: 2, sample_rate: rate, bit_depth: 24 }
}

struct World {
    clients: ClientManager,
    groups: GroupManager,
    config: ServerConfig,
    clock: ServerClock,
}

impl World {
    fn new() -> Self {
        World {
            clients: ClientManager::new(),
            groups: GroupManager::new(),
            config: ServerConfig::new("Test Server"),
            clock: ServerClock::new(),
        }
    }

    fn step(&mut self, s: &mut Session, ev: SessionEvent) {
        s.handle_event(ev, &mut self.clients, &mut self.groups, &self.config, &self.clock);
    }
}

#[test]
fn handshake_and_format_negotiation() {
    let mut w = World::new();
    let mut s = Session::new();
    w.step(&mut s, SessionEvent::Message(Message::ClientHello(hello("c1", &["player@v1"], vec![pcm(96000)]))));
    assert_eq!(s.state, SessionState::Streaming);
    let out = w.clients.take_outbound("c1");
    assert_eq!(out.len(), 2);
    match text(&out[0]) {
        Some(Message::ServerHello(h)) => {
            assert_eq!(h.active_roles, vec!["player@v1".to_string()]);
            assert_eq!(h.connection_reason, Some("discovery".to_string()));
            assert_eq!(h.name, "Test Server");
        }
        other => panic!("expected server/hello, got {:?}", other),
    }
    match text(&out[1]) {
        Some(Message::StreamStart(st)) => {
            assert_eq!(st.player.codec, "pcm");
            assert_eq!(st.player.sample_rate, 96000);
            assert_eq!(st.player.channels, 2);
            assert_eq!(st.player.bit_depth, 24);
            assert!(st.player.codec_header.is_none());
        }
        other => panic!("expected stream/start, got {:?}", other),
    }
    assert_eq!(w.clients.client_count(), 1);
    assert_eq!(w.groups.get_client_group("c1"), Some("default".to_string()));
}

#[test]
fn controller_only_gets_no_stream_start() {
    let mut w = World::new();
    let mut s = Session::new();
    w.step(&mut s, SessionEvent::Message(Message::ClientHello(hello("c2", &["controller"], vec![]))));
    let out = w.clients.take_outbound("c2");
    assert_eq!(out.len(), 1);
    assert!(matches!(text(&out[0]), Some(Message::ServerHello(_))));
}

#[test]
fn clock_sync_reply() {
    let mut w = World::new();
    let mut s = Session::new();
    w.step(&mut s, SessionEvent::Message(Message::ClientHello(hello("c1", &["player@v1"], vec![pcm(48000)]))));
    w.clients.take_outbound("c1");
    w.step(&mut s, SessionEvent::Message(Message::ClientTime(ClientTime { client_transmitted: 1000 })));
    let out = w.clients.take_outbound("c1");
    assert_eq!(out.len(), 1);
    match text(&out[0]) {
        Some(Message::ServerTime(t)) => {
            assert_eq!(t.client_transmitted, 1000);
            assert!(0 <= t.server_received);
            assert!(t.server_received <= t.server_transmitted);
        }
        other => panic!("expected server/time, got {:?}", other),
    }
}

#[test]
fn volume_update_needs_both_fields() {
    let mut w = World::new();
    let mut s = Session::new();
    w.step(&mut s, SessionEvent::Message(Message::ClientHello(hello("c1", &["player@v1"], vec![pcm(48000)]))));
    let state = |volume, muted| {
        SessionEvent::Message(Message::ClientState(ClientState {
            player: Some(PlayerState { state: "synchronized".to_string(), volume, muted }),
        }))
    };
    w.step(&mut s, state(Some(40), None));
    assert_eq!(w.clients.clients()[0].volume, 100);
    w.step(&mut s, state(Some(40), Some(false)));
    assert_eq!(w.clients.clients()[0].volume, 40);
    assert!(!w.clients.clients()[0].muted);
}

#[test]
fn goodbye_then_close() {
    let mut w = World::new();
    let mut s = Session::new();
    w.step(&mut s, SessionEvent::Message(Message::ClientHello(hello("c1", &["player@v1"], vec![pcm(48000)]))));
    assert_eq!(w.clients.client_count(), 1);
    w.step(&mut s, SessionEvent::Message(Message::ClientGoodbye(ClientGoodbye { reason: "user_request".to_string() })));
    assert_eq!(s.state, SessionState::Closing);
    assert_eq!(s.goodbye_reason, Some("user_request".to_string()));
    assert_eq!(w.clients.client_count(), 0);
    assert_eq!(w.groups.get_client_group("c1"), None);
    w.clients.broadcast_audio(&[4, 0, 0, 0, 0, 0, 0, 0, 0]);
    assert!(w.clients.take_outbound("c1").is_empty());
    w.step(&mut s, SessionEvent::Closed);
    assert_eq!(s.state, SessionState::Terminated);
}

#[test]
fn count_tracks_live_sessions() {
    let mut w = World::new();
    let mut a = Session::new();
    let mut b = Session::new();
    w.step(&mut a, SessionEvent::Message(Message::ClientHello(hello("a", &["player"], vec![]))));
    w.step(&mut b, SessionEvent::Message(Message::ClientHello(hello("b", &["player"], vec![]))));
    assert_eq!(w.clients.client_count(), 2);
    w.step(&mut a, SessionEvent::TransportError);
    assert_eq!(a.state, SessionState::Terminated);
    assert_eq!(w.clients.client_count(), 1);
    w.step(&mut b, SessionEvent::Malformed);
    assert_eq!(w.clients.client_count(), 0);
}

#[test]
fn hello_timeout_at_ten_seconds() {
    let mut w = World::new();
    let mut s = Session::new();
    w.step(&mut s, SessionEvent::KeepAlive);
    w.step(&mut s, SessionEvent::Elapsed(HELLO_TIMEOUT_MS - 1));
    assert_eq!(s.state, SessionState::AwaitingHello);
    w.step(&mut s, SessionEvent::Elapsed(10_000));
    assert_eq!(s.state, SessionState::Terminated);
    assert_eq!(w.clients.client_count(), 0);
    w.step(&mut s, SessionEvent::Message(Message::ClientHello(hello("late", &["player"], vec![]))));
    assert_eq!(s.state, SessionState::Terminated);
    assert_eq!(w.clients.client_count(), 0);
}

#[test]
fn wrong_first_message_terminates() {
    let mut w = World::new();
    let mut s = Session::new();
    w.step(&mut s, SessionEvent::Message(Message::ClientTime(ClientTime { client_transmitted: 5 })));
    assert_eq!(s.state, SessionState::Terminated);
    assert_eq!(w.clients.client_count(), 0);
    let mut t = Session::new();
    w.step(&mut t, SessionEvent::UnknownMessage);
    assert_eq!(t.state, SessionState::Terminated);
}

#[test]
fn unknown_messages_are_ignored_while_streaming() {
    let mut w = World::new();
    let mut s = Session::new();
    w.step(&mut s, SessionEvent::Message(Message::ClientHello(hello("c1", &["player@v1"], vec![pcm(48000)]))));
    w.step(&mut s, SessionEvent::UnknownMessage);
    w.step(&mut s, SessionEvent::Binary);
    assert_eq!(s.state, SessionState::Streaming);
    assert_eq!(w.clients.client_count(), 1);
}

#[test]
fn roles_are_normalized() {
    let roles: Vec<String> = vec!["metadata@v1".to_string(), "player".to_string(), "controller@v2".to_string(), "other".to_string()];
    assert_eq!(negotiate_roles(&roles), vec!["player@v1".to_string(), "controller@v1".to_string(), "metadata@v1".to_string()]);
    assert!(negotiate_roles(&["players".to_string()]).is_empty());
}

#[test]
fn format_negotiation_fallbacks() {
    let config = ServerConfig::new("x");
    let opus = AudioFormatSpec { codec: "opus".to_string(), channels: 1, sample_rate: 48000, bit_depth: 16 };
    let h = hello("c", &["player"], vec![opus.clone(), pcm(44100)]);
    let f = negotiate_audio_format(&h, &config);
    assert_eq!((f.codec, f.sample_rate), (Codec::Pcm, 44100));
    let h = hello("c", &["player"], vec![opus]);
    let f = negotiate_audio_format(&h, &config);
    assert_eq!((f.codec, f.sample_rate, f.channels, f.bit_depth), (Codec::Opus, 48000, 1, 16));
    let weird = AudioFormatSpec { codec: "aac".to_string(), channels: 2, sample_rate: 32000, bit_depth: 16 };
    let f = negotiate_audio_format(&hello("c", &["player"], vec![weird]), &config);
    assert_eq!(f.codec, Codec::Pcm);
    let f = negotiate_audio_format(&hello("c", &["player"], vec![]), &config);
    assert_eq!((f.codec, f.sample_rate, f.channels, f.bit_depth), (Codec::Pcm, 48000, 2, 24));
}

#[test]
fn message_tags_round_trip() {
    let kinds = [
        MessageKind::ClientHello,
        MessageKind::ServerHello,
        MessageKind::ClientTime,
        MessageKind::ServerTime,
        MessageKind::StreamStart,
        MessageKind::StreamClear,
        MessageKind::StreamEnd,
        MessageKind::ServerCommand,
        MessageKind::ServerState,
        MessageKind::GroupUpdate,
        MessageKind::ClientState,
        MessageKind::ClientGoodbye,
        MessageKind::StreamRequestFormat,
    ];
    for k in kinds {
        assert_eq!(kind_of_tag(k.tag()), Some(k));
    }
    assert_eq!(MessageKind::StreamRequestFormat.tag(), "stream/request-format");
    assert_eq!(kind_of_tag("client/unknown"), None);
    assert_eq!(kind_of_tag(""), None);
    let m = Message::ClientTime(ClientTime { client_transmitted: 1 });
    assert_eq!(m.kind(), MessageKind::ClientTime);
}

#[test]
fn server_time_stamps_are_the_reading() {
    match server_time_for(ClientTime { client_transmitted: 1000 }, 77) {
        Message::ServerTime(t) => {
            assert_eq!((t.client_transmitted, t.server_received, t.server_transmitted), (1000, 77, 77));
        }
        other => panic!("{:?}", other),
    }
}

#[test]
fn malformed_message_leaves_others_alone() {
    let mut w = World::new();
    let mut a = Session::new();
    let mut b = Session::new();
    w.step(&mut a, SessionEvent::Message(Message::ClientHello(hello("a", &["player"], vec![]))));
    w.step(&mut b, SessionEvent::Message(Message::ClientHello(hello("b", &["player"], vec![]))));
    w.step(&mut b, SessionEvent::Message(Message::ClientState(ClientState {
        player: Some(PlayerState { state: "synchronized".to_string(), volume: Some(7), muted: Some(true) }),
    })));
    w.step(&mut a, SessionEvent::Malformed);
    assert_eq!(a.state, SessionState::Terminated);
    assert_eq!(w.clients.client_ids(), vec!["b".to_string()]);
    assert_eq!(w.clients.clients()[0].volume, 7);
    assert_eq!(w.groups.get_client_group("b"), Some("default".to_string()));
    assert_eq!(w.groups.get_client_group("a"), None);
}
