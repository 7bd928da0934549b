use sendspin::audio::{Codec, Sample, SAMPLE_MAX_VALUE, SAMPLE_MIN_VALUE};
use sendspin::encoder::{create_encoder, pcm24_encode, AudioEncoder, FlacEncoder, OpusEncoder, PcmEncoder};

fn decode_pcm24(bytes: &[u8]) -> Vec<i32> {
    bytes
        .chunks(3)
        .map(|b| {
            let u = (b[0] as i32) | ((b[1] as i32) << 8) | ((b[2] as i32) << 16);
            if b[2] >= 128 { u - 0x100_0000 } else { u }
        })
        .collect()
}

#[test]
fn test_pcm_encode() {
    let mut encoder = PcmEncoder::new(48000, 2);

    let samples = vec![
        Sample(0x123456),
        Sample(-0x123456),
        Sample(0),
        Sample(SAMPLE_MAX_VALUE),
    ];

    let encoded = encoder.encode(&samples);

    assert_eq!(encoded.len(), 12);

    assert_eq!(encoded[0], 0x56);
    assert_eq!(encoded[1], 0x34);
    assert_eq!(encoded[2], 0x12);
}

#[test]
fn test_encoder_traits() {
    let encoder = PcmEncoder::new(48000, 2);
    assert_eq!(encoder.codec(), Codec::Pcm);
    assert_eq!(encoder.sample_rate(), 48000);
    assert_eq!(encoder.channels(), 2);
    assert_eq!(encoder.bit_depth(), 24);
}

#[test]
fn pcm24_round_trip_of_a_sequence() {
    let samples: Vec<Sample> = vec![Sample(1), Sample(-1), Sample(0x7f00ff), Sample(-0x400000), Sample(0)];
    let bytes = pcm24_encode(&samples);
    assert_eq!(bytes.len(), 3 * samples.len());
    let back = decode_pcm24(&bytes);
    assert_eq!(back, vec![1, -1, 0x7f00ff, -0x400000, 0]);
}

#[test]
fn pcm24_extremes_round_trip() {
    let samples = vec![Sample(SAMPLE_MAX_VALUE), Sample(SAMPLE_MIN_VALUE)];
    let bytes = pcm24_encode(&samples);
    assert_eq!(bytes, vec![0xff, 0xff, 0x7f, 0x00, 0x00, 0x80]);
    assert_eq!(decode_pcm24(&bytes), vec![8388607, -8388608]);
}

#[test]
fn pcm24_of_nothing_is_empty() {
    let bytes = pcm24_encode(&[]);
    assert!(bytes.is_empty());
}

#[test]
fn opus_needs_48k() {
    assert!(OpusEncoder::new(44100, 2).is_err());
    let enc = OpusEncoder::new(48000, 2).unwrap();
    assert_eq!(enc.codec(), Codec::Opus);
    assert_eq!(enc.bit_depth(), 16);
}

#[test]
fn flac_keeps_its_bit_depth() {
    let mut enc = FlacEncoder::new(44100, 2, 16);
    assert_eq!(enc.codec(), Codec::Flac);
    assert_eq!(enc.bit_depth(), 16);
    assert_eq!(enc.encode(&[Sample(0x010203)]), vec![0x03, 0x02, 0x01]);
    assert!(enc.codec_header().is_none());
}

#[test]
fn create_encoder_falls_back_to_pcm() {
    let opus_bad = create_encoder(Codec::Opus, 44100, 2, 24);
    assert_eq!(opus_bad.codec(), Codec::Pcm);
    assert_eq!(opus_bad.bit_depth(), 24);
    let opus_ok = create_encoder(Codec::Opus, 48000, 2, 24);
    assert_eq!(opus_ok.codec(), Codec::Opus);
    let mp3 = create_encoder(Codec::Mp3, 48000, 2, 24);
    assert_eq!(mp3.codec(), Codec::Pcm);
    let flac = create_encoder(Codec::Flac, 96000, 1, 16);
    assert_eq!(flac.codec(), Codec::Flac);
    assert_eq!(flac.sample_rate(), 96000);
    assert_eq!(flac.channels(), 1);
    assert_eq!(flac.bit_depth(), 16);
}

#[test]
fn codec_names() {
    assert_eq!(Codec::Pcm.name(), "pcm");
    assert_eq!(Codec::Opus.name(), "opus");
    assert_eq!(Codec::Flac.name(), "flac");
    assert_eq!(Codec::Mp3.name(), "mp3");
}
