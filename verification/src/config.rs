//! Configuration records and their defaults. Loading and saving a
//! configuration file is I/O and stays with the caller.

use vstd::prelude::*;
use crate::control::{TrackConfig, TrackType};

verus! {

/// Default UDP port for audio streaming.
pub const DEFAULT_UDP_PORT: u16 = 5000;

/// Default sample rate in Hz.
pub const DEFAULT_SAMPLE_RATE: u32 = 48_000;

/// Default channel count.
pub const DEFAULT_CHANNELS: u16 = 2;

/// Default bitrate in bits per second.
pub const DEFAULT_BITRATE: u32 = 128_000;

/// Default frame size in microseconds.
pub const DEFAULT_FRAME_SIZE_US: u32 = 10_000;

/// Default jitter buffer depth in milliseconds.
pub const DEFAULT_JITTER_BUFFER_MS: u32 = 100;

/// Default HTTP/WebSocket port of the control surface.
pub const DEFAULT_WS_PORT: u16 = 8080;

/// Capacity of a track's frame ring.
pub const RING_BUFFER_CAPACITY: usize = 64;

/// Most tracks one peer may hold at once.
pub const MAX_TRACKS: usize = 256;

/// Network configuration.
#[derive(Debug, Clone)]
pub struct NetworkConfig {
    /// Local bind address.
    pub bind_address: String,
    /// UDP port for audio streaming.
    pub udp_port: u16,
    /// Remote destination address, for a sender.
    pub remote_address: Option<String>,
    /// Socket send buffer size in bytes.
    pub send_buffer_size: usize,
    /// Socket receive buffer size in bytes.
    pub recv_buffer_size: usize,
    /// Whether to set the address-reuse socket option.
    pub reuse_addr: bool,
}

impl Default for NetworkConfig {
    /// Defaults: bind everywhere on the default port with 4 MiB buffers.
    fn default() -> (r: NetworkConfig)
        ensures
            r.bind_address@ == "0.0.0.0"@,
            r.udp_port == DEFAULT_UDP_PORT,
            r.remote_address is None,
            r.send_buffer_size == 4 * 1024 * 1024,
            r.recv_buffer_size == 4 * 1024 * 1024,
            r.reuse_addr == true,
    {
        NetworkConfig {
            bind_address: "0.0.0.0".to_owned(),
            udp_port: DEFAULT_UDP_PORT,
            remote_address: None,
            send_buffer_size: 4 * 1024 * 1024,
            recv_buffer_size: 4 * 1024 * 1024,
            reuse_addr: true,
        }
    }
}

/// Audio configuration.
#[derive(Debug, Clone)]
pub struct AudioConfig {
    pub sample_rate: u32,
    pub channels: u16,
    pub default_bitrate: u32,
    /// Default frame size in microseconds.
    pub default_frame_size_us: u32,
    /// Default jitter buffer depth in milliseconds.
    pub jitter_buffer_ms: u32,
    /// Use the platform's exclusive output mode.
    pub exclusive_mode: bool,
    /// Use the platform's low-latency shared mode.
    pub low_latency_mode: bool,
}

impl Default for AudioConfig {
    /// Defaults: 48 kHz stereo at 128 kb/s with 10 ms frames.
    fn default() -> (r: AudioConfig)
        ensures
            r.sample_rate == DEFAULT_SAMPLE_RATE,
            r.channels == DEFAULT_CHANNELS,
            r.default_bitrate == DEFAULT_BITRATE,
            r.default_frame_size_us == DEFAULT_FRAME_SIZE_US,
            r.jitter_buffer_ms == DEFAULT_JITTER_BUFFER_MS,
            r.exclusive_mode == false,
            r.low_latency_mode == true,
    {
        AudioConfig {
            sample_rate: DEFAULT_SAMPLE_RATE,
            channels: DEFAULT_CHANNELS,
            default_bitrate: DEFAULT_BITRATE,
            default_frame_size_us: DEFAULT_FRAME_SIZE_US,
            jitter_buffer_ms: DEFAULT_JITTER_BUFFER_MS,
            exclusive_mode: false,
            low_latency_mode: true,
        }
    }
}

/// Control-surface configuration.
#[derive(Debug, Clone)]
pub struct UiConfig {
    /// HTTP server port.
    pub http_port: u16,
    /// WebSocket port, usually the HTTP port.
    pub ws_port: u16,
    /// Bind address of the control server.
    pub bind_address: String,
    /// Whether to allow cross-origin requests.
    pub enable_cors: bool,
    /// Directory of static files to serve, if any.
    pub static_dir: Option<String>,
}

impl Default for UiConfig {
    /// Defaults: local-only on the default control port.
    fn default() -> (r: UiConfig)
        ensures
            r.http_port == DEFAULT_WS_PORT,
            r.ws_port == DEFAULT_WS_PORT,
            r.bind_address@ == "127.0.0.1"@,
            r.enable_cors == true,
            r.static_dir is None,
    {
        UiConfig {
            http_port: DEFAULT_WS_PORT,
            ws_port: DEFAULT_WS_PORT,
            bind_address: "127.0.0.1".to_owned(),
            enable_cors: true,
            static_dir: None,
        }
    }
}

/// The whole application configuration.
#[derive(Debug, Clone)]
pub struct AppConfig {
    pub network: NetworkConfig,
    pub audio: AudioConfig,
    pub ui: UiConfig,
    /// Tracks to create at startup.
    pub tracks: Vec<TrackConfig>,
}

impl Default for AppConfig {
    /// All component defaults, with no preconfigured tracks.
    fn default() -> (r: AppConfig)
        ensures
            r.tracks@.len() == 0,
    {
        AppConfig {
            network: NetworkConfig::default(),
            audio: AudioConfig::default(),
            ui: UiConfig::default(),
            tracks: Vec::new(),
        }
    }
}

/// Opus signal hint.
#[derive(Debug, Clone, Copy, PartialEq, Eq, Structural)]
pub enum OpusSignal {
    Auto,
    Voice,
    Music,
}

/// Opus bandwidth limit.
#[derive(Debug, Clone, Copy, PartialEq, Eq, Structural)]
pub enum OpusBandwidth {
    /// 4 kHz.
    Narrowband,
    /// 6 kHz.
    Mediumband,
    /// 8 kHz.
    Wideband,
    /// 12 kHz.
    Superwideband,
    /// 20 kHz.
    Fullband,
}

/// Codec parameters handed to the encoder.
#[derive(Debug, Clone)]
pub struct OpusConfig {
    /// Bitrate in bits per second.
    pub bitrate: u32,
    /// Frame size in samples per channel.
    pub frame_size: usize,
    pub sample_rate: u32,
    pub channels: u16,
    /// Tuning class.
    pub application: TrackType,
    /// Forward error correction.
    pub fec: bool,
    /// Expected packet loss percentage (0 to 100).
    pub packet_loss_perc: u8,
    /// Encoder complexity (0 to 10).
    pub complexity: u8,
    /// Discontinuous transmission.
    pub dtx: bool,
    /// Variable bitrate.
    pub vbr: bool,
    /// Constrain variable bitrate below the target.
    pub cvbr: bool,
    pub signal: OpusSignal,
    pub max_bandwidth: OpusBandwidth,
}

impl Default for OpusConfig {
    /// Defaults: full-band music at the default bitrate and frame size.
    fn default() -> (r: OpusConfig)
        ensures
            r.bitrate == DEFAULT_BITRATE,
            r.frame_size == 480,
            r.sample_rate == DEFAULT_SAMPLE_RATE,
            r.channels == DEFAULT_CHANNELS,
            r.application == TrackType::Music,
            r.fec == false,
            r.packet_loss_perc == 0,
            r.complexity == 10,
            r.dtx == false,
            r.vbr == true,
            r.cvbr == true,
            r.signal == OpusSignal::Auto,
            r.max_bandwidth == OpusBandwidth::Fullband,
    {
        OpusConfig {
            bitrate: DEFAULT_BITRATE,
            frame_size: 480,
            sample_rate: DEFAULT_SAMPLE_RATE,
            channels: DEFAULT_CHANNELS,
            application: TrackType::Music,
            fec: false,
            packet_loss_perc: 0,
            complexity: 10,
            dtx: false,
            vbr: true,
            cvbr: true,
            signal: OpusSignal::Auto,
            max_bandwidth: OpusBandwidth::Fullband,
        }
    }
}

impl OpusConfig {
    /// Tuning for voice: low bitrate, FEC on, wideband, discontinuous
    /// transmission.
    pub fn voice() -> (r: OpusConfig)
        ensures
            r.bitrate == 32_000,
            r.application == TrackType::Voice,
            r.fec == true,
            r.packet_loss_perc == 5,
            r.complexity == 5,
            r.dtx == true,
            r.signal == OpusSignal::Voice,
            r.max_bandwidth == OpusBandwidth::Wideband,
            r.frame_size == 480,
            r.sample_rate == DEFAULT_SAMPLE_RATE,
            r.channels == DEFAULT_CHANNELS,
            r.vbr == true,
            r.cvbr == true,
    {
        OpusConfig {
            bitrate: 32_000,
            application: TrackType::Voice,
            fec: true,
            packet_loss_perc: 5,
            complexity: 5,
            dtx: true,
            signal: OpusSignal::Voice,
            max_bandwidth: OpusBandwidth::Wideband,
            ..OpusConfig::default()
        }
    }

    /// Tuning for music: full bitrate and bandwidth, highest complexity.
    pub fn music() -> (r: OpusConfig)
        ensures
            r.bitrate == 128_000,
            r.application == TrackType::Music,
            r.fec == false,
            r.complexity == 10,
            r.dtx == false,
            r.signal == OpusSignal::Music,
            r.max_bandwidth == OpusBandwidth::Fullband,
            r.frame_size == 480,
            r.sample_rate == DEFAULT_SAMPLE_RATE,
            r.channels == DEFAULT_CHANNELS,
    {
        OpusConfig {
            bitrate: 128_000,
            application: TrackType::Music,
            fec: false,
            complexity: 10,
            dtx: false,
            signal: OpusSignal::Music,
            max_bandwidth: OpusBandwidth::Fullband,
            ..OpusConfig::default()
        }
    }

    /// Tuning for low latency: 2.5 ms frames, constant bitrate, lower
    /// complexity for fast encoding.
    pub fn low_latency() -> (r: OpusConfig)
        ensures
            r.bitrate == 96_000,
            r.frame_size == 120,
            r.application == TrackType::LowLatency,
            r.fec == false,
            r.complexity == 5,
            r.dtx == false,
            r.vbr == false,
            r.sample_rate == DEFAULT_SAMPLE_RATE,
            r.channels == DEFAULT_CHANNELS,
    {
        OpusConfig {
            bitrate: 96_000,
            frame_size: 120,
            application: TrackType::LowLatency,
            fec: false,
            complexity: 5,
            dtx: false,
            vbr: false,
            ..OpusConfig::default()
        }
    }

    /// Frame size in samples per channel for a frame length in
    /// microseconds.
    pub fn frame_size_from_us(sample_rate: u32, frame_us: u32) -> (r: usize)
        requires
            sample_rate as int * frame_us as int / 1_000_000 <= usize::MAX,
        ensures
            r == sample_rate as int * frame_us as int / 1_000_000,
    {
        ((sample_rate as u128) * (frame_us as u128) / 1_000_000) as usize
    }

    /// The frame duration in microseconds.
    pub fn frame_duration_us(&self) -> (r: u64)
        requires
            self.sample_rate > 0,
            self.frame_size * 1_000_000 <= u64::MAX,
        ensures
            r == self.frame_size as int * 1_000_000 / self.sample_rate as int,
    {
        (self.frame_size as u64) * 1_000_000 / (self.sample_rate as u64)
    }
}

} // verus!
