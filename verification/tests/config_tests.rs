//! Tests of configuration defaults and codec parameter presets.

use lan_audio_streamer::config::{
    AppConfig, AudioConfig, NetworkConfig, OpusBandwidth, OpusConfig, OpusSignal, UiConfig,
};
use lan_audio_streamer::control::{TrackConfig, TrackType};
use lan_audio_streamer::track::Track;

#[test]
fn config_defaults() {
    let app = AppConfig::default();
    assert_eq!(app.network.udp_port, 5000);
    assert_eq!(app.network.bind_address, "0.0.0.0");
    assert!(app.tracks.is_empty());
    let audio = AudioConfig::default();
    assert_eq!(audio.sample_rate, 48_000);
    assert_eq!(audio.channels, 2);
    assert_eq!(audio.default_frame_size_us, 10_000);
    let ui = UiConfig::default();
    assert_eq!(ui.bind_address, "127.0.0.1");
    let net = NetworkConfig::default();
    assert!(net.reuse_addr);
    assert_eq!(net.send_buffer_size, 4 * 1024 * 1024);
}

#[test]
fn opus_presets() {
    let voice = OpusConfig::voice();
    assert_eq!(voice.bitrate, 32_000);
    assert!(voice.fec);
    assert!(voice.dtx);
    assert_eq!(voice.signal, OpusSignal::Voice);
    assert_eq!(voice.max_bandwidth, OpusBandwidth::Wideband);

    let music = OpusConfig::music();
    assert_eq!(music.bitrate, 128_000);
    assert_eq!(music.complexity, 10);
    assert_eq!(music.max_bandwidth, OpusBandwidth::Fullband);

    let low_latency = OpusConfig::low_latency();
    assert_eq!(low_latency.frame_size, 120);
    assert!(!low_latency.vbr);
}

#[test]
fn opus_frame_size_arithmetic() {
    // 10 ms at 48 kHz is 480 samples per channel.
    assert_eq!(OpusConfig::frame_size_from_us(48_000, 10_000), 480);
    assert_eq!(OpusConfig::frame_size_from_us(48_000, 2_500), 120);
    let config = OpusConfig::default();
    assert_eq!(config.frame_duration_us(), 10_000);
}

#[test]
fn track_builds_codec_config() {
    let config = TrackConfig {
        track_id: Some(1),
        name: "t".to_string(),
        device_id: "d".to_string(),
        bitrate: 96_000,
        frame_size_us: 20_000,
        channels: 1,
        track_type: TrackType::Voice,
        fec_enabled: true,
    };
    let track = Track::new(1, config);
    let opus = track.create_opus_config();
    assert_eq!(opus.bitrate, 96_000);
    assert_eq!(opus.frame_size, 960);
    assert_eq!(opus.channels, 1);
    assert!(opus.fec);
    assert_eq!(opus.application, TrackType::Voice);
}
