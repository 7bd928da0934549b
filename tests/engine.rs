use sendspin::audio::{AudioFormat, Codec, Sample};
use sendspin::client_manager::{ClientManager, ServerMessage};
use sendspin::clock::ServerClock;
use sendspin::config::ServerConfig;
use sendspin::engine::{AudioEngine, EngineState};
use sendspin::group::GroupManager;
use sendspin::messages::{ClientHello, DeviceInfo, Message};
use sendspin::session::{create_stream_start, Session, SessionEvent};
use sendspin::source::{pad_with_silence, to_stereo, AudioSource, SilenceSource};

struct Exhausted;

impl AudioSource for Exhausted {
    fn read_chunk(&mut self, _samples_per_channel: usize) -> Option<Vec<Sample>> {
        None
    }
    fn sample_rate(&self) -> u32 {
        48000
    }
    fn channels(&self) -> u8 {
        2
    }
    fn is_exhausted(&self) -> bool {
        true
    }
}

struct Ramp(i32);

impl AudioSource for Ramp {
    fn read_chunk(&mut self, n: usize) -> Option<Vec<Sample>> {
        let v: Vec<Sample> = (0..2 * n).map(|i| Sample(self.0 + i as i32)).collect();
        self.0 += 1;
        Some(v)
    }
    fn sample_rate(&self) -> u32 {
        1000
    }
    fn channels(&self) -> u8 {
        2
    }
    fn is_exhausted(&self) -> bool {
        false
    }
}

struct TestToneSource {
    frequency: f64,
    sample_rate: u32,
    phase: f64,
}

impl TestToneSource {
    fn new(frequency: f64, sample_rate: u32) -> Self {
        TestToneSource { frequency, sample_rate, phase: 0.0 }
    }
}

impl AudioSource for TestToneSource {
    fn read_chunk(&mut self, n: usize) -> Option<Vec<Sample>> {
        let step = 2.0 * std::f64::consts::PI * self.frequency / self.sample_rate as f64;
        let mut out = Vec::with_capacity(2 * n);
        for _ in 0..n {
            let s = Sample((self.phase.sin() * 4_000_000.0) as i32);
            out.push(s);
            out.push(s);
            self.phase += step;
        }
        Some(out)
    }
    fn sample_rate(&self) -> u32 {
        self.sample_rate
    }
    fn channels(&self) -> u8 {
        2
    }
    fn is_exhausted(&self) -> bool {
        false
    }
}

fn deadline_of(frame: &[u8]) -> i64 {
    let mut b = [0u8; 8];
    b.copy_from_slice(&frame[1..9]);
    i64::from_be_bytes(b)
}

#[test]
fn test_engine_creation() {
    let source = TestToneSource::new(440.0, 48000);
    let engine = AudioEngine::new(source, 20, 500);

    assert_eq!(engine.state(), EngineState::Stopped);
    assert_eq!(engine.samples_per_chunk(), 960);
}

#[test]
fn test_silence_generates_zeros() {
    let mut source = SilenceSource::new(48000);
    let samples = source.read_chunk(960).unwrap();

    assert_eq!(samples.len(), 1920);
    for sample in &samples {
        assert_eq!(sample.0, 0);
    }
}

#[test]
fn exhausted_source_gives_silence_frame() {
    let mut engine = AudioEngine::new(Exhausted, 20, 500);
    let mut clients = ClientManager::new();
    engine.start();
    let frame = engine.tick(1_000, &mut clients).unwrap();
    assert_eq!(frame.len(), 9 + 960 * 2 * 3);
    assert_eq!(frame[0], 4);
    assert_eq!(deadline_of(&frame), 501_000);
    assert!(frame[9..].iter().all(|b| *b == 0));
}

#[test]
fn stopped_engine_emits_nothing() {
    let mut engine = AudioEngine::new(SilenceSource::new(48000), 20, 500);
    let mut clients = ClientManager::new();
    assert!(engine.tick(0, &mut clients).is_none());
    engine.start();
    assert!(engine.tick(0, &mut clients).is_some());
    engine.stop();
    assert!(engine.tick(0, &mut clients).is_none());
}

#[test]
fn paused_engine_sends_silence() {
    let mut engine = AudioEngine::new(Ramp(7), 20, 0);
    let mut clients = ClientManager::new();
    engine.start();
    let live = engine.tick(0, &mut clients).unwrap();
    assert_eq!(&live[9..12], &[7, 0, 0]);
    engine.pause();
    let quiet = engine.tick(0, &mut clients).unwrap();
    assert_eq!(quiet.len(), 9 + 20 * 2 * 3);
    assert!(quiet[9..].iter().all(|b| *b == 0));
}

#[test]
fn deadlines_follow_the_clock() {
    let mut engine = AudioEngine::new(SilenceSource::new(48000), 20, 500);
    let mut clients = ClientManager::new();
    engine.start();
    let mut last = i64::MIN;
    for k in 0..50i64 {
        let frame = engine.tick(k * 20_000, &mut clients).unwrap();
        let d = deadline_of(&frame);
        assert!(d >= last);
        assert_eq!(d, k * 20_000 + 500_000);
        assert_eq!(frame.len() - 9, 5760);
        last = d;
    }
    let f = engine.frame_for(i64::MAX - 5, None);
    assert_eq!(deadline_of(&f), i64::MAX);
}

#[test]
fn new_source_changes_chunk_size() {
    let mut engine = AudioEngine::new(SilenceSource::new(48000), 20, 500);
    engine.set_source(SilenceSource::new(44100));
    assert_eq!(engine.samples_per_chunk(), 882);
    assert_eq!(engine.buffer_ahead_micros(), 500_000);
    assert_eq!(engine.chunk_interval_ms(), 20);
}

fn join(w: (&mut ClientManager, &mut GroupManager), id: &str, roles: &[&str]) {
    let config = ServerConfig::new("s");
    let clock = ServerClock::new();
    let mut s = Session::new();
    let hello = ClientHello {
        client_id: id.to_string(),
        name: id.to_string(),
        version: 1,
        supported_roles: roles.iter().map(|r| r.to_string()).collect(),
        device_info: DeviceInfo { product_name: "p".to_string(), manufacturer: "m".to_string(), software_version: "1".to_string() },
        player_support: None,
        metadata_support: None,
    };
    s.handle_event(SessionEvent::Message(Message::ClientHello(hello)), w.0, w.1, &config, &clock);
}

#[test]
fn two_players_get_identical_frames() {
    let mut clients = ClientManager::new();
    let mut groups = GroupManager::new();
    join((&mut clients, &mut groups), "a", &["player@v1"]);
    join((&mut clients, &mut groups), "b", &["player@v1"]);
    join((&mut clients, &mut groups), "c", &["controller@v1"]);
    for id in ["a", "b", "c"] {
        clients.take_outbound(id);
    }
    let mut engine = AudioEngine::new(Ramp(1), 20, 500);
    engine.start();
    engine.tick(100, &mut clients).unwrap();
    let a = clients.take_outbound("a");
    let b = clients.take_outbound("b");
    assert!(clients.take_outbound("c").is_empty());
    match (&a[0], &b[0]) {
        (ServerMessage::Binary(x), ServerMessage::Binary(y)) => {
            assert_eq!(x, y);
            assert_eq!(deadline_of(x), 500_100);
        }
        _ => panic!("expected audio frames"),
    }
}

#[test]
fn stream_start_carries_base64_header() {
    let format = AudioFormat { codec: Codec::Flac, sample_rate: 44100, channels: 2, bit_depth: 16, codec_header: Some(vec![1, 2, 3, 4]) };
    match create_stream_start(&format) {
        Message::StreamStart(s) => {
            assert_eq!(s.player.codec, "flac");
            assert_eq!(s.player.codec_header, Some("AQIDBA==".to_string()));
        }
        other => panic!("expected stream/start, got {:?}", other),
    }
}

#[test]
fn mono_frames_are_duplicated_and_narrowed() {
    let mut out = Vec::new();
    let buf = [0x0100_0000, -0x0100_0000, 0x7fff_ffff];
    let pos = to_stereo(&mut out, &buf, 0, 1, 4);
    assert_eq!(pos, 2);
    let vals: Vec<i32> = out.iter().map(|s| s.0).collect();
    assert_eq!(vals, vec![0x1_0000, 0x1_0000, -0x1_0000, -0x1_0000]);
}

#[test]
fn wide_frames_keep_first_two_channels() {
    let mut out = vec![Sample(9), Sample(9)];
    let buf: Vec<i32> = (1..=12).map(|v| v << 8).collect();
    let pos = to_stereo(&mut out, &buf, 0, 6, 8);
    assert_eq!(pos, 12);
    let vals: Vec<i32> = out.iter().map(|s| s.0).collect();
    assert_eq!(vals, vec![9, 9, 1, 2, 7, 8]);
    let again = to_stereo(&mut out, &buf, pos, 6, 8);
    assert_eq!(again, 12);
    assert_eq!(out.len(), 6);
}

#[test]
fn padding_fills_to_target() {
    let mut out = vec![Sample(5)];
    pad_with_silence(&mut out, 4);
    let vals: Vec<i32> = out.iter().map(|s| s.0).collect();
    assert_eq!(vals, vec![5, 0, 0, 0]);
    pad_with_silence(&mut out, 2);
    assert_eq!(out.len(), 4);
}

#[test]
fn engine_reports_source_rate() {
    let engine = AudioEngine::new(Ramp(0), 20, 500);
    assert_eq!(engine.sample_rate(), 1000);
    assert_eq!(engine.samples_per_chunk(), 20);
}

#[test]
fn engine_with_explicit_rate() {
    let engine = AudioEngine::with_rate(Ramp(0), 48000, 20, 500);
    assert_eq!(engine.samples_per_chunk(), 960);
    assert_eq!(engine.sample_rate(), 48000);
    let mut engine = engine;
    engine.set_source_with_rate(Ramp(0), 44100);
    assert_eq!(engine.samples_per_chunk(), 882);
    assert_eq!(engine.sample_rate(), 44100);
}

#[test]
fn broadcast_chunk_frames_the_given_samples() {
    let mut clients = ClientManager::new();
    let mut groups = GroupManager::new();
    join((&mut clients, &mut groups), "a", &["player@v1"]);
    clients.take_outbound("a");
    let mut engine = AudioEngine::with_rate(Ramp(0), 1000, 20, 1);
    engine.start();
    let frame = engine.broadcast_chunk(10, Some(vec![Sample(0x010203), Sample(-1)]), &mut clients);
    assert_eq!(frame, vec![4, 0, 0, 0, 0, 0, 0, 0x03, 0xf2, 0x03, 0x02, 0x01, 0xff, 0xff, 0xff]);
    let out = clients.take_outbound("a");
    assert!(matches!(&out[0], ServerMessage::Binary(b) if *b == frame));
    let silent = engine.broadcast_chunk(10, None, &mut clients);
    assert_eq!(silent.len(), 9 + 20 * 2 * 3);
}

#[test]
fn running_engine_always_emits() {
    let mut engine = AudioEngine::new(Exhausted, 20, 500);
    let mut clients = ClientManager::new();
    engine.start();
    for k in 0..3 {
        assert!(engine.tick(k, &mut clients).is_some());
    }
}
