//! Control-plane types: track configuration, status snapshots and the
//! command taxonomy the track manager consumes.
//!
//! Times are integer microseconds and levels integer millibels throughout;
//! normalised meter values are thousandths of full scale. The transport
//! that carries these commands (a local UI or an RPC adapter) lives
//! outside the library and converts at the edge.

use vstd::prelude::*;

verus! {

/// Track type, which drives the codec tuning.
#[derive(Debug, Clone, Copy, PartialEq, Eq, Structural)]
pub enum TrackType {
    /// Speech: tuned for intelligibility.
    Voice,
    /// Music: tuned for quality.
    Music,
    /// Minimal algorithmic delay.
    LowLatency,
}

impl Default for TrackType {
    /// Music is the default track type.
    fn default() -> (r: TrackType)
        ensures
            r == TrackType::Music,
    {
        TrackType::Music
    }
}

/// Configuration of one track.
#[derive(Debug, Clone)]
pub struct TrackConfig {
    /// Track id; auto-assigned when absent.
    pub track_id: Option<u8>,
    /// Human-readable name.
    pub name: String,
    /// Bound audio device id.
    pub device_id: String,
    /// Target bitrate in bits per second.
    pub bitrate: u32,
    /// Frame size in microseconds (2500, 5000, 10000 or 20000).
    pub frame_size_us: u32,
    /// Channel count (1 or 2).
    pub channels: u16,
    /// Codec tuning class.
    pub track_type: TrackType,
    /// Whether forward error correction is on.
    pub fec_enabled: bool,
}

impl Default for TrackConfig {
    /// Defaults: an unnamed stereo music track at 128 kb/s with 10 ms
    /// frames, no FEC, id auto-assigned.
    fn default() -> (r: TrackConfig)
        ensures
            r.track_id is None,
            r.name@ == "New Track"@,
            r.device_id@ == Seq::<char>::empty(),
            r.bitrate == 128_000,
            r.frame_size_us == 10_000,
            r.channels == 2,
            r.track_type == TrackType::Music,
            r.fec_enabled == false,
    {
        TrackConfig {
            track_id: None,
            name: "New Track".to_owned(),
            device_id: String::new(),
            bitrate: 128_000,
            frame_size_us: 10_000,
            channels: 2,
            track_type: TrackType::Music,
            fec_enabled: false,
        }
    }
}

/// A partial configuration for updates: absent fields stay unchanged.
#[derive(Debug, Clone)]
pub struct TrackConfigUpdate {
    pub name: Option<String>,
    pub device_id: Option<String>,
    pub bitrate: Option<u32>,
    pub frame_size_us: Option<u32>,
    pub fec_enabled: Option<bool>,
}

impl Default for TrackConfigUpdate {
    /// An empty update: nothing changes.
    fn default() -> (r: TrackConfigUpdate)
        ensures
            r.name is None,
            r.device_id is None,
            r.bitrate is None,
            r.frame_size_us is None,
            r.fec_enabled is None,
    {
        TrackConfigUpdate {
            name: None,
            device_id: None,
            bitrate: None,
            frame_size_us: None,
            fec_enabled: None,
        }
    }
}

/// A snapshot of one track's state for reporting.
#[derive(Debug, Clone)]
pub struct TrackStatus {
    pub track_id: u8,
    pub name: String,
    pub device_id: String,
    pub active: bool,
    pub muted: bool,
    pub solo: bool,
    pub bitrate: u32,
    pub frame_size_us: u32,
    pub packets_sent: u64,
    pub packets_received: u64,
    pub packets_lost: u64,
    /// Current latency in microseconds.
    pub current_latency_us: u32,
    /// Current jitter estimate in microseconds.
    pub jitter_us: u32,
    /// Smoothed level in millibels.
    pub level_millibels: i32,
    /// Held peak in millibels.
    pub peak_millibels: i32,
    /// Smoothed level in thousandths of full scale.
    pub level_permille: u32,
    /// Held peak in thousandths of full scale.
    pub peak_permille: u32,
}

/// Audio device information, as the audio engine reports it.
#[derive(Debug, Clone)]
pub struct AudioDeviceInfo {
    pub id: String,
    pub name: String,
    pub is_input: bool,
    pub is_output: bool,
    pub is_default: bool,
    pub sample_rates: Vec<u32>,
    pub channels: Vec<u16>,
}

/// A device list reply, with the peer's role.
#[derive(Debug, Clone)]
pub struct DevicesResponse {
    pub devices: Vec<AudioDeviceInfo>,
    pub is_receiver: bool,
}

/// Control commands and replies exchanged with the track manager.
#[derive(Debug, Clone)]
pub enum ControlMessage {
    /// Create a new track.
    CreateTrack(TrackConfig),
    /// Remove an existing track.
    RemoveTrack { track_id: u8 },
    /// Patch a track's configuration.
    UpdateTrack { track_id: u8, config: TrackConfigUpdate },
    /// Mute or unmute a track.
    SetMute { track_id: u8, muted: bool },
    /// Solo or unsolo a track.
    SetSolo { track_id: u8, solo: bool },
    /// Ask for all track statuses.
    GetStatus,
    /// The status reply.
    Status(Vec<TrackStatus>),
    /// Ask for the audio device list.
    ListDevices,
    /// The device list reply.
    Devices(DevicesResponse),
    /// An error reply.
    Error { message: String },
    /// A keepalive probe.
    Ping,
    /// The keepalive reply.
    Pong,
}

} // verus!
