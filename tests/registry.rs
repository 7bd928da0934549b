use sendspin::audio::{AudioFormat, Codec};
use sendspin::client_manager::{ClientManager, ConnectedClient, ServerMessage};
use sendspin::clock::{micros_since_start, ServerClock};
use sendspin::config::ServerConfig;
use sendspin::messages::{GroupUpdate, Message, ServerHello, StreamStart, StreamPlayerConfig};
use sendspin::stats::ServerStats;
use std::sync::Arc;

fn text(m: &ServerMessage) -> Option<&Message> {
    match m {
        ServerMessage::Text(a) => Some(a.as_ref()),
        ServerMessage::Binary(_) => None,
    }
}


fn client(id: &str, player: bool) -> ConnectedClient {
    let mut c = ConnectedClient::new(id.to_string(), id.to_string());
    c.send(ServerMessage::Text(Arc::new(Message::ServerHello(ServerHello {
        server_id: "s".to_string(),
        name: "n".to_string(),
        version: 1,
        active_roles: vec![],
        connection_reason: None,
    }))));
    if player {
        c.active_roles = vec!["player@v1".to_string()];
        c.send(ServerMessage::Text(Arc::new(Message::StreamStart(StreamStart {
            player: StreamPlayerConfig { codec: "pcm".to_string(), sample_rate: 48000, channels: 2, bit_depth: 24, codec_header: None },
        }))));
    }
    c
}

#[test]
fn registry_add_replace_remove() {
    let mut m = ClientManager::new();
    m.add_client(client("a", true));
    m.add_client(client("b", false));
    m.add_client(client("a", false));
    assert_eq!(m.client_count(), 2);
    assert_eq!(m.client_ids(), vec!["a".to_string(), "b".to_string()]);
    assert!(m.remove_client("a").is_some());
    assert!(m.remove_client("a").is_none());
    assert_eq!(m.client_count(), 1);
}

#[test]
fn broadcasts_reach_players_only() {
    let mut m = ClientManager::new();
    m.add_client(client("p", true));
    m.add_client(client("q", false));
    m.take_outbound("p");
    m.take_outbound("q");
    m.broadcast_stream_clear(Some(vec!["player@v1".to_string()]));
    m.broadcast_stream_end(None);
    m.broadcast_player_command("volume", Some(30), None);
    let p = m.take_outbound("p");
    assert_eq!(p.len(), 3);
    match text(&p[0]) {
        Some(Message::StreamClear(c)) => assert_eq!(c.roles, Some(vec!["player@v1".to_string()])),
        other => panic!("{:?}", other),
    }
    assert!(matches!(text(&p[1]), Some(Message::StreamEnd(e)) if e.roles.is_none()));
    match text(&p[2]) {
        Some(Message::ServerCommand(c)) => {
            let pc = c.player.as_ref().unwrap();
            assert_eq!(pc.command, "volume");
            assert_eq!(pc.volume, Some(30));
            assert_eq!(pc.mute, None);
        }
        other => panic!("{:?}", other),
    }
    assert!(m.take_outbound("q").is_empty());
}

fn group_update(name: &str) -> Message {
    Message::GroupUpdate(GroupUpdate {
        playback_state: Some("playing".to_string()),
        group_id: Some("default".to_string()),
        group_name: Some(name.to_string()),
    })
}

#[test]
fn direct_sends() {
    let mut m = ClientManager::new();
    m.add_client(client("p", true));
    m.add_client(client("q", false));
    assert!(m.send_player_command("p", "mute", None, Some(true)));
    assert!(!m.send_player_command("zz", "mute", None, Some(true)));
    assert!(!m.send_to_client("zz", group_update("x")));
    assert!(m.send_to_client("q", group_update("only q")));
    m.broadcast_text(group_update("everyone"));
    let out = m.take_outbound("p");
    assert_eq!(out.len(), 4);
    assert!(matches!(text(&out[0]), Some(Message::ServerHello(_))));
    assert!(matches!(text(&out[1]), Some(Message::StreamStart(_))));
    match text(&out[3]) {
        Some(Message::GroupUpdate(g)) => assert_eq!(g.group_name, Some("everyone".to_string())),
        other => panic!("{:?}", other),
    }
    let q = m.take_outbound("q");
    assert_eq!(q.len(), 3);
    match text(&q[1]) {
        Some(Message::GroupUpdate(g)) => assert_eq!(g.group_name, Some("only q".to_string())),
        other => panic!("{:?}", other),
    }
}

#[test]
fn formats_and_volume() {
    let mut m = ClientManager::new();
    m.add_client(client("p", true));
    assert!(m.get_audio_format("p").is_none());
    m.update_audio_format("p", AudioFormat { codec: Codec::Pcm, sample_rate: 96000, channels: 2, bit_depth: 24, codec_header: Some(vec![9]) });
    let f = m.get_audio_format("p").unwrap();
    assert_eq!(f.sample_rate, 96000);
    assert_eq!(f.codec_header, Some(vec![9]));
    m.update_volume("p", 10, true);
    m.update_volume("missing", 50, false);
    assert_eq!(m.clients()[0].volume, 10);
    assert!(m.clients()[0].muted);
    let d = ClientManager::default_audio_format();
    assert_eq!((d.codec, d.sample_rate, d.channels, d.bit_depth), (Codec::Pcm, 48000, 2, 24));
    assert!(m.clients()[0].is_player());
}

#[test]
fn config_defaults_and_builders() {
    let c = ServerConfig::new("Test Server");
    assert_eq!(c.bind_addr, "0.0.0.0:8927");
    assert_eq!(c.ws_path, "/sendspin");
    assert_eq!(c.server_id.len(), 36);
    assert_eq!(c.chunk_interval_ms, 20);
    assert_eq!(c.buffer_ahead_ms, 500);
    let c = c.bind_addr("127.0.0.1:9000").ws_path("/custom").chunk_interval_ms(10).buffer_ahead_ms(1000);
    assert_eq!(c.bind_addr, "127.0.0.1:9000");
    assert_eq!(c.ws_path, "/custom");
    assert_eq!(c.chunk_interval_ms, 10);
    assert_eq!(c.buffer_ahead_ms, 1000);
    let d = ServerConfig::default();
    assert_eq!(d.name, "Sendspin Rust Server");
    assert_ne!(d.server_id, ServerConfig::default().server_id);
}

#[test]
fn test_clock_monotonic() {
    let clock = ServerClock::new();
    let t1 = clock.now_micros();
    let mut t2 = clock.now_micros();
    while t2 - t1 < 10_000 {
        t2 = clock.now_micros();
    }

    assert!(t2 > t1, "Clock should be monotonically increasing");
    assert!(t2 - t1 >= 10_000, "At least 10ms should have passed");
}

#[test]
fn clock_durations() {
    let clock = ServerClock::new();
    assert_eq!(clock.micros_to_duration(1_500).as_micros(), 1_500);
    assert_eq!(clock.micros_to_duration(-3).as_micros(), 0);
    assert!(clock.start().elapsed().as_secs() < 60);
}

#[test]
fn stats_counters() {
    let mut s = ServerStats::new(48000, 20);
    s.record_chunk(5769);
    s.record_chunk(u64::MAX);
    assert_eq!(s.chunks_sent, 2);
    assert_eq!(s.bytes_sent, u64::MAX);
    assert!(s.uptime().as_secs() < 60);
}

#[test]
fn clock_timestamps_saturate() {

    assert_eq!(micros_since_start(0), 0);
    assert_eq!(micros_since_start(1_234), 1_234);
    assert_eq!(micros_since_start(u128::MAX), i64::MAX);
    assert_eq!(micros_since_start(i64::MAX as u128 + 1), i64::MAX);
}
