//! Tests of the level state packing and the smoothed level meter.

use lan_audio_streamer::meter::{
    LevelMeterParams, LevelState, SmoothingAlphas, SmoothLevelMeter,
};

/// The Q16 smoothing coefficient `1 - e^(-dt/tau)` for one update.
fn alpha_q16(delta_ms: f32, time_constant_ms: f32) -> u32 {
    if time_constant_ms <= 0.0 {
        return 65536;
    }
    let alpha = 1.0 - (-delta_ms / time_constant_ms).exp();
    (alpha.clamp(0.0, 1.0) * 65536.0) as u32
}

/// Coefficients for the default parameters at a given update interval.
fn alphas_for(delta_ms: f32) -> SmoothingAlphas {
    let params = LevelMeterParams::default();
    SmoothingAlphas {
        attack_q16: alpha_q16(delta_ms, params.attack_ms as f32),
        release_q16: alpha_q16(delta_ms, params.release_ms as f32),
        peak_release_q16: alpha_q16(delta_ms, params.peak_release_ms as f32),
    }
}

/// The input level of a sample block in millibels: the decibel value of
/// its largest amplitude.
fn input_millibels(peak_amplitude: f32) -> i32 {
    if peak_amplitude > 1e-10 {
        (20.0 * peak_amplitude.log10() * 1000.0) as i32
    } else {
        -96_000
    }
}

#[test]
fn test_level_state_pack_unpack() {
    let state = LevelState {
        level_millibels: -48000,
        peak_millibels: -12000,
    };

    let packed = state.pack();
    let unpacked = LevelState::unpack(packed);

    assert_eq!(state.level_millibels, unpacked.level_millibels);
    assert_eq!(state.peak_millibels, unpacked.peak_millibels);
}

#[test]
fn test_smooth_level_meter_basic() {
    let mut meter = SmoothLevelMeter::new();

    // Initially the level sits at the bottom of the scale.
    assert!(meter.level_millibels() <= -90_000);

    // A loud half-scale sine block raises the level above the floor.
    let loud_samples: Vec<f32> = (0..480).map(|i| 0.5 * (i as f32 * 0.1).sin()).collect();
    let peak = loud_samples.iter().map(|s| s.abs()).fold(0.0f32, f32::max);
    meter.update(input_millibels(peak), 10_000, alphas_for(10.0));

    assert!(meter.level_millibels() > -96_000);
}

#[test]
fn meter_starts_at_floor() {
    let meter = SmoothLevelMeter::new();
    assert_eq!(meter.level_millibels(), -96_000);
    assert_eq!(meter.peak_millibels(), -96_000);
    assert_eq!(meter.level_normalized(), 0);
}

#[test]
fn meter_silence_stays_at_floor() {
    // A hundred silent frames at 10 ms intervals: the level never rises
    // and stays within [-96 dB, -90 dB].
    let mut meter = SmoothLevelMeter::new();
    let alphas = alphas_for(10.0);
    let mut now: u64 = 10_000;
    let mut previous = meter.level_millibels();
    for _ in 0..100 {
        meter.update(input_millibels(0.0), now, alphas);
        let level = meter.level_millibels();
        assert!(level <= previous);
        assert!((-96_000..=-90_000).contains(&level));
        previous = level;
        now += 10_000;
    }
}

#[test]
fn meter_peak_adopts_immediately_and_holds() {
    let mut meter = SmoothLevelMeter::new();
    let alphas = alphas_for(10.0);
    // One frame of amplitude 0.5 raises the peak above -7 dB at once.
    meter.update(input_millibels(0.5), 1_000_000, alphas);
    assert!(meter.peak_millibels() > -7_000);
    let peak_after_spike = meter.peak_millibels();

    // Within the 500 ms hold the peak does not release.
    meter.update(input_millibels(0.0), 1_200_000, alphas_for(200.0));
    assert_eq!(meter.peak_millibels(), peak_after_spike);

    // After the hold has elapsed the peak starts decaying toward the
    // floor.
    meter.update(input_millibels(0.0), 1_600_000, alphas_for(400.0));
    assert!(meter.peak_millibels() < peak_after_spike);
}

#[test]
fn meter_attack_rises_toward_input() {
    let mut meter = SmoothLevelMeter::new();
    let alphas = alphas_for(10.0);
    let input = input_millibels(0.5);
    meter.update(input, 1_000_000, alphas);
    let level = meter.level_millibels();
    assert!(level > -96_000);
    assert!(level <= input);
    // Further loud frames keep moving the level up toward the input.
    meter.update(input, 1_010_000, alphas);
    assert!(meter.level_millibels() >= level);
}

#[test]
fn meter_tick_for_ui_keeps_releasing() {
    let mut meter = SmoothLevelMeter::new();
    meter.update(input_millibels(0.5), 1_000_000, alphas_for(10.0));
    let before = meter.level_millibels();
    // 80 ms without input: the tick keeps the level falling.
    meter.tick_for_ui(
        1_080_000,
        alpha_q16(80.0, 150.0),
        alpha_q16(80.0, 300.0),
    );
    assert!(meter.level_millibels() < before);
    // Within 50 ms of an update a tick does nothing.
    let frozen = meter.level_millibels();
    meter.update(input_millibels(0.5), 2_000_000, alphas_for(10.0));
    let level_now = meter.level_millibels();
    meter.tick_for_ui(2_020_000, alpha_q16(20.0, 150.0), alpha_q16(20.0, 300.0));
    assert_eq!(meter.level_millibels(), level_now);
    let _ = frozen;
}

#[test]
fn meter_normalized_range() {
    let mut meter = SmoothLevelMeter::new();
    assert_eq!(meter.peak_normalized(), 0);
    meter.update(0, 1_000_000, SmoothingAlphas {
        attack_q16: 65536,
        release_q16: 65536,
        peak_release_q16: 65536,
    });
    // A full-scale input with an instant attack drives both to the top.
    assert_eq!(meter.level_millibels(), 0);
    assert_eq!(meter.level_normalized(), 1000);
    assert_eq!(meter.peak_normalized(), 1000);
    meter.reset();
    assert_eq!(meter.level_normalized(), 0);
    assert_eq!(meter.level_millibels(), -96_000);
}

#[test]
fn level_state_pack_layout() {
    // The level sits in the high half, the peak in the low half, each
    // offset by +100 000.
    let state = LevelState { level_millibels: 0, peak_millibels: -100_000 };
    let packed = state.pack();
    assert_eq!(packed >> 32, 100_000);
    assert_eq!(packed & 0xFFFF_FFFF, 0);
}
