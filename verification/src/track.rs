//! One audio track: its configuration, lifecycle state, flags, counters
//! and smoothed level meter.

use vstd::prelude::*;
use crate::config::{OpusConfig, DEFAULT_SAMPLE_RATE};
use crate::control::{TrackConfig, TrackConfigUpdate, TrackStatus, TrackType};
use crate::errors::TrackError;
use crate::meter::{spec_lerp, spec_ticked, LevelMeterParams, SmoothingAlphas, SmoothLevelMeter};

verus! {

/// Track lifecycle state.
#[derive(Debug, Clone, Copy, PartialEq, Eq, Structural)]
pub enum TrackState {
    /// Created but not running.
    Stopped,
    /// Starting up.
    Starting,
    /// Producing or consuming audio.
    Running,
    /// Shutting down.
    Stopping,
    /// Faulted; can be restarted by the operator.
    Error,
}

/// Mathematical model of a track.
#[verifier::ext_equal]
pub struct TrackView {
    pub id: u8,
    pub name: Seq<char>,
    pub device_id: Seq<char>,
    pub config: TrackConfig,
    pub state: TrackState,
    pub muted: bool,
    pub solo: bool,
    pub packets_count: u64,
    pub packets_lost: u64,
    pub latency_us: u32,
    pub jitter_us: u32,
    pub last_error: Option<Seq<char>>,
    pub level_millibels: i32,
    pub peak_millibels: i32,
    pub meter_params: LevelMeterParams,
    pub meter_last_update_us: u64,
    pub meter_last_peak_us: u64,
}

/// An audio track, sender- or receiver-side.
pub struct Track {
    /// Track id.
    pub id: u8,
    /// Human-readable name.
    pub name: String,
    /// Bound device id: input for a sender, output for a receiver.
    pub device_id: String,
    /// The track's configuration.
    pub config: TrackConfig,
    state: TrackState,
    muted: bool,
    solo: bool,
    packets_count: u64,
    packets_lost: u64,
    latency_us: u32,
    jitter_us: u32,
    last_error: Option<String>,
    meter: SmoothLevelMeter,
}

impl View for Track {
    type V = TrackView;

    closed spec fn view(&self) -> TrackView {
        TrackView {
            id: self.id,
            name: self.name@,
            device_id: self.device_id@,
            config: self.config,
            state: self.state,
            muted: self.muted,
            solo: self.solo,
            packets_count: self.packets_count,
            packets_lost: self.packets_lost,
            latency_us: self.latency_us,
            jitter_us: self.jitter_us,
            last_error: match self.last_error {
                Some(e) => Some(e@),
                None => None,
            },
            level_millibels: self.meter.spec_level(),
            peak_millibels: self.meter.spec_peak(),
            meter_params: self.meter.spec_params(),
            meter_last_update_us: self.meter.spec_last_update_us(),
            meter_last_peak_us: self.meter.spec_last_peak_us(),
        }
    }
}

impl Track {
    /// The meter's levels stay within its parameter range.
    pub closed spec fn wf(&self) -> bool {
        self.meter.wf()
    }

    /// The track's level meter.
    pub closed spec fn spec_meter(&self) -> SmoothLevelMeter {
        self.meter
    }

    /// A stopped, unmuted, unsoloed track from a configuration, with a
    /// fresh meter at the floor.
    pub fn new(id: u8, config: TrackConfig) -> (r: Track)
        ensures
            r.wf(),
            r@.id == id,
            r@.name == config.name@,
            r@.device_id == config.device_id@,
            r@.config == config,
            r@.state == TrackState::Stopped,
            r@.muted == false,
            r@.solo == false,
            r@.packets_count == 0,
            r@.packets_lost == 0,
            r@.latency_us == 0,
            r@.jitter_us == 0,
            r@.last_error is None,
    {
        let name = config.name.clone();
        let device_id = config.device_id.clone();
        Track {
            id,
            name,
            device_id,
            config,
            state: TrackState::Stopped,
            muted: false,
            solo: false,
            packets_count: 0,
            packets_lost: 0,
            latency_us: 0,
            jitter_us: 0,
            last_error: None,
            meter: SmoothLevelMeter::new(),
        }
    }

    /// The codec parameters this track asks for: the tuning class's
    /// preset with the track's bitrate, frame size, channels and FEC
    /// setting.
    pub fn create_opus_config(&self) -> (r: OpusConfig)
        ensures
            r.bitrate == self@.config.bitrate,
            r.frame_size == DEFAULT_SAMPLE_RATE as int * self@.config.frame_size_us as int
                / 1_000_000,
            r.channels == self@.config.channels,
            r.fec == self@.config.fec_enabled,
            r.application == self@.config.track_type,
    {
        let base = match self.config.track_type {
            TrackType::Voice => OpusConfig::voice(),
            TrackType::Music => OpusConfig::music(),
            TrackType::LowLatency => OpusConfig::low_latency(),
        };
        proof {
            assert(48_000 * self.config.frame_size_us as int / 1_000_000 <= 206_158_431)
                by (nonlinear_arith)
                requires
                    self.config.frame_size_us <= 4_294_967_295u32,
            ;
        }
        let frame_size = OpusConfig::frame_size_from_us(
            DEFAULT_SAMPLE_RATE,
            self.config.frame_size_us,
        );
        let application = match self.config.track_type {
            TrackType::Voice => TrackType::Voice,
            TrackType::Music => TrackType::Music,
            TrackType::LowLatency => TrackType::LowLatency,
        };
        OpusConfig {
            bitrate: self.config.bitrate,
            frame_size,
            channels: self.config.channels,
            fec: self.config.fec_enabled,
            application,
            ..base
        }
    }

    /// Start the track: counters reset and the state becomes Running. A
    /// track already running is left as it is. Never fails.
    pub fn start(&mut self) -> (r: Result<(), TrackError>)
        requires
            old(self).wf(),
        ensures
            final(self).wf(),
            r is Ok,
            old(self)@.state == TrackState::Running ==> final(self)@ == old(self)@,
            old(self)@.state != TrackState::Running ==> final(self)@ == (TrackView {
                state: TrackState::Running,
                packets_count: 0,
                packets_lost: 0,
                ..old(self)@
            }),
    {
        if matches!(self.state, TrackState::Running) {
            return Ok(());
        }
        self.state = TrackState::Starting;
        self.packets_count = 0;
        self.packets_lost = 0;
        self.state = TrackState::Running;
        Ok(())
    }

    /// Stop the track.
    pub fn stop(&mut self)
        requires
            old(self).wf(),
        ensures
            final(self).wf(),
            final(self)@ == (TrackView { state: TrackState::Stopped, ..old(self)@ }),
    {
        self.state = TrackState::Stopping;
        self.state = TrackState::Stopped;
    }

    /// The current lifecycle state.
    pub fn state(&self) -> (r: TrackState)
        ensures
            r == self@.state,
    {
        self.state
    }

    /// Set the lifecycle state directly.
    pub fn set_state(&mut self, state: TrackState)
        requires
            old(self).wf(),
        ensures
            final(self).wf(),
            final(self)@ == (TrackView { state, ..old(self)@ }),
    {
        self.state = state;
    }

    /// Whether the track is running.
    pub fn is_running(&self) -> (r: bool)
        ensures
            r == (self@.state == TrackState::Running),
    {
        matches!(self.state, TrackState::Running)
    }

    /// Set the mute flag.
    pub fn set_muted(&mut self, muted: bool)
        requires
            old(self).wf(),
        ensures
            final(self).wf(),
            final(self)@ == (TrackView { muted, ..old(self)@ }),
    {
        self.muted = muted;
    }

    /// The mute flag.
    pub fn is_muted(&self) -> (r: bool)
        ensures
            r == self@.muted,
    {
        self.muted
    }

    /// Set the solo flag.
    pub fn set_solo(&mut self, solo: bool)
        requires
            old(self).wf(),
        ensures
            final(self).wf(),
            final(self)@ == (TrackView { solo, ..old(self)@ }),
    {
        self.solo = solo;
    }

    /// The solo flag.
    pub fn is_solo(&self) -> (r: bool)
        ensures
            r == self@.solo,
    {
        self.solo
    }

    /// Count one packet sent or received; the counter saturates at its
    /// range.
    pub fn increment_packets(&mut self)
        requires
            old(self).wf(),
        ensures
            final(self).wf(),
            final(self)@ == (TrackView {
                packets_count: crate::ring::spec_count_up(old(self)@.packets_count),
                ..old(self)@
            }),
    {
        if self.packets_count < u64::MAX {
            self.packets_count = self.packets_count + 1;
        }
    }

    /// Count one lost packet; the counter saturates at its range.
    pub fn increment_lost(&mut self)
        requires
            old(self).wf(),
        ensures
            final(self).wf(),
            final(self)@ == (TrackView {
                packets_lost: crate::ring::spec_count_up(old(self)@.packets_lost),
                ..old(self)@
            }),
    {
        if self.packets_lost < u64::MAX {
            self.packets_lost = self.packets_lost + 1;
        }
    }

    /// Packets sent or received so far.
    pub fn packets_count(&self) -> (r: u64)
        ensures
            r == self@.packets_count,
    {
        self.packets_count
    }

    /// Packets lost so far.
    pub fn packets_lost(&self) -> (r: u64)
        ensures
            r == self@.packets_lost,
    {
        self.packets_lost
    }

    /// Record a latency measurement in microseconds.
    pub fn update_latency(&mut self, latency_us: u32)
        requires
            old(self).wf(),
        ensures
            final(self).wf(),
            final(self)@ == (TrackView { latency_us, ..old(self)@ }),
    {
        self.latency_us = latency_us;
    }

    /// The last latency measurement in microseconds.
    pub fn latency_us(&self) -> (r: u32)
        ensures
            r == self@.latency_us,
    {
        self.latency_us
    }

    /// Record a jitter measurement in microseconds.
    pub fn update_jitter(&mut self, jitter_us: u32)
        requires
            old(self).wf(),
        ensures
            final(self).wf(),
            final(self)@ == (TrackView { jitter_us, ..old(self)@ }),
    {
        self.jitter_us = jitter_us;
    }

    /// The last jitter measurement in microseconds.
    pub fn jitter_us(&self) -> (r: u32)
        ensures
            r == self@.jitter_us,
    {
        self.jitter_us
    }

    /// Put the track into the Error state with a message.
    pub fn set_error(&mut self, error: String)
        requires
            old(self).wf(),
        ensures
            final(self).wf(),
            final(self)@ == (TrackView {
                state: TrackState::Error,
                last_error: Some(error@),
                ..old(self)@
            }),
    {
        self.state = TrackState::Error;
        self.last_error = Some(error);
    }

    /// The last error message, if any.
    pub fn last_error(&self) -> (r: Option<String>)
        ensures
            match r {
                Some(e) => self@.last_error == Some(e@),
                None => self@.last_error is None,
            },
    {
        match &self.last_error {
            Some(e) => Some(e.clone()),
            None => None,
        }
    }

    /// Feed one measured input level into the track's meter, as
    /// `SmoothLevelMeter::update` does: attack/release smoothing toward
    /// the clamped input, the peak adopted immediately when exceeded and
    /// held for the hold time before releasing.
    pub fn update_level(&mut self, input_millibels: i32, now_us: u64, alphas: SmoothingAlphas)
        requires
            old(self).wf(),
            alphas.wf(),
        ensures
            final(self).wf(),
            final(self)@.meter_params == old(self)@.meter_params,
            final(self)@.meter_last_update_us == now_us,
            final(self)@ == (TrackView {
                level_millibels: final(self)@.level_millibels,
                peak_millibels: final(self)@.peak_millibels,
                meter_last_update_us: final(self)@.meter_last_update_us,
                meter_last_peak_us: final(self)@.meter_last_peak_us,
                ..old(self)@
            }),
            ({
                let p = old(self)@.meter_params;
                let inp = if input_millibels < p.floor_millibels {
                    p.floor_millibels as int
                } else if input_millibels > p.ceiling_millibels {
                    p.ceiling_millibels as int
                } else {
                    input_millibels as int
                };
                let lvl = old(self)@.level_millibels as int;
                let pk = old(self)@.peak_millibels as int;
                let age_ms = if now_us >= old(self)@.meter_last_peak_us {
                    (now_us - old(self)@.meter_last_peak_us) as int / 1000
                } else {
                    0
                };
                &&& final(self)@.level_millibels as int == spec_lerp(
                    lvl,
                    inp,
                    if inp > lvl {
                        alphas.attack_q16 as int
                    } else {
                        alphas.release_q16 as int
                    },
                )
                &&& (inp <= lvl ==> inp <= final(self)@.level_millibels <= lvl)
                &&& (inp > lvl ==> lvl <= final(self)@.level_millibels <= inp)
                &&& (inp > pk ==> final(self)@.peak_millibels as int == inp
                    && final(self)@.meter_last_peak_us == now_us)
                &&& (inp <= pk && age_ms <= p.peak_hold_ms ==> final(self)@.peak_millibels as int
                    == pk && final(self)@.meter_last_peak_us == old(self)@.meter_last_peak_us)
                &&& (inp <= pk && age_ms > p.peak_hold_ms ==> final(self)@.peak_millibels <= pk
                    && final(self)@.meter_last_peak_us == old(self)@.meter_last_peak_us)
            }),
    {
        self.meter.update(input_millibels, now_us, alphas);
    }

    /// Let the meter keep releasing while no input arrives, exactly as
    /// `SmoothLevelMeter::tick_for_ui` does: nothing changes before the
    /// first update or within 50 ms of one; after longer silence the
    /// level releases one lerp step toward the floor, and the peak does
    /// too exactly when its hold time has passed.
    pub fn tick_for_ui(&mut self, now_us: u64, release_q16: u32, peak_release_q16: u32)
        requires
            old(self).wf(),
            release_q16 <= 65536,
            peak_release_q16 <= 65536,
        ensures
            final(self).wf(),
            final(self)@.level_millibels <= old(self)@.level_millibels,
            final(self)@.peak_millibels <= old(self)@.peak_millibels,
            spec_ticked(
                old(self).spec_meter(),
                final(self).spec_meter(),
                now_us,
                release_q16,
                peak_release_q16,
            ),
            final(self)@ == (TrackView {
                level_millibels: final(self)@.level_millibels,
                peak_millibels: final(self)@.peak_millibels,
                ..old(self)@
            }),
    {
        self.meter.tick_for_ui(now_us, release_q16, peak_release_q16);
    }

    /// The current smoothed level in millibels.
    pub fn level_millibels(&self) -> (r: i32)
        ensures
            r == self@.level_millibels,
    {
        self.meter.level_millibels()
    }

    /// The current held peak in millibels.
    pub fn peak_millibels(&self) -> (r: i32)
        ensures
            r == self@.peak_millibels,
    {
        self.meter.peak_millibels()
    }

    /// The bound device id as an owned string.
    pub fn device_id_string(&self) -> (r: String)
        ensures
            r@ == self@.device_id,
    {
        self.device_id.clone()
    }

    /// Patch the configuration: absent fields stay unchanged; a new name
    /// or device id also updates the track's own copy. Never fails.
    pub fn update_config(&mut self, update: &TrackConfigUpdate) -> (r: Result<(), TrackError>)
        requires
            old(self).wf(),
        ensures
            final(self).wf(),
            r is Ok,
            final(self)@ == (TrackView {
                name: match update.name {
                    Some(n) => n@,
                    None => old(self)@.name,
                },
                device_id: match update.device_id {
                    Some(d) => d@,
                    None => old(self)@.device_id,
                },
                config: TrackConfig {
                    name: match update.name {
                        Some(n) => n,
                        None => old(self)@.config.name,
                    },
                    device_id: match update.device_id {
                        Some(d) => d,
                        None => old(self)@.config.device_id,
                    },
                    bitrate: match update.bitrate {
                        Some(b) => b,
                        None => old(self)@.config.bitrate,
                    },
                    frame_size_us: match update.frame_size_us {
                        Some(f) => f,
                        None => old(self)@.config.frame_size_us,
                    },
                    fec_enabled: match update.fec_enabled {
                        Some(f) => f,
                        None => old(self)@.config.fec_enabled,
                    },
                    ..old(self)@.config
                },
                ..old(self)@
            }),
    {
        match &update.name {
            Some(name) => {
                self.name = name.clone();
                self.config.name = name.clone();
            },
            None => {},
        }
        match &update.device_id {
            Some(device_id) => {
                self.device_id = device_id.clone();
                self.config.device_id = device_id.clone();
            },
            None => {},
        }
        match update.bitrate {
            Some(bitrate) => {
                self.config.bitrate = bitrate;
            },
            None => {},
        }
        match update.frame_size_us {
            Some(frame_size_us) => {
                self.config.frame_size_us = frame_size_us;
            },
            None => {},
        }
        match update.fec_enabled {
            Some(fec) => {
                self.config.fec_enabled = fec;
            },
            None => {},
        }
        Ok(())
    }

    /// A status snapshot of the track.
    pub fn status(&self) -> (r: TrackStatus)
        requires
            self.wf(),
        ensures
            status_matches(r, self@),
    {
        let range = (self.meter.level_millibels(), self.meter.peak_millibels());
        TrackStatus {
            track_id: self.id,
            name: self.name.clone(),
            device_id: self.device_id.clone(),
            active: self.is_running(),
            muted: self.muted,
            solo: self.solo,
            bitrate: self.config.bitrate,
            frame_size_us: self.config.frame_size_us,
            packets_sent: self.packets_count,
            packets_received: self.packets_count,
            packets_lost: self.packets_lost,
            current_latency_us: self.latency_us,
            jitter_us: self.jitter_us,
            level_millibels: range.0,
            peak_millibels: range.1,
            level_permille: self.meter.level_normalized(),
            peak_permille: self.meter.peak_normalized(),
        }
    }
}

/// Whether a status snapshot reports a track's model.
pub open spec fn status_matches(r: TrackStatus, v: TrackView) -> bool {
    &&& r.track_id == v.id
    &&& r.name@ == v.name
    &&& r.device_id@ == v.device_id
    &&& r.active == (v.state == TrackState::Running)
    &&& r.muted == v.muted
    &&& r.solo == v.solo
    &&& r.bitrate == v.config.bitrate
    &&& r.frame_size_us == v.config.frame_size_us
    &&& r.packets_sent == v.packets_count
    &&& r.packets_received == v.packets_count
    &&& r.packets_lost == v.packets_lost
    &&& r.current_latency_us == v.latency_us
    &&& r.jitter_us == v.jitter_us
    &&& r.level_millibels == v.level_millibels
    &&& r.peak_millibels == v.peak_millibels
    &&& r.level_permille as int == (v.level_millibels - v.meter_params.floor_millibels) * 1000 / (
    v.meter_params.ceiling_millibels - v.meter_params.floor_millibels)
    &&& r.peak_permille as int == (v.peak_millibels - v.meter_params.floor_millibels) * 1000 / (
    v.meter_params.ceiling_millibels - v.meter_params.floor_millibels)
}

} // verus!
