//! Smoothed level meter: a UI-friendly, jitter-free level signal.
//!
//! All levels are integer millibels (thousandths of a decibel). The
//! smoothed level and the held peak are packed into one 64-bit word, each
//! half offset by +100 000 so both are non-negative; audio and UI threads
//! can then exchange both halves in a single atomic word.
//!
//! Smoothing follows `new = lerp(current, input, alpha)` where `alpha` is
//! a coefficient in Q16 fixed point (65536 = 1). The exponential mapping
//! from elapsed time to `alpha` (`1 - e^(-dt/tau)`) is floating-point work
//! and stays with the caller; every contract here holds for any
//! coefficient in range. Attack is used when the input is above the
//! current level, release when below; a new peak is adopted immediately
//! and held for `peak_hold_ms` before it releases toward the floor.

use vstd::prelude::*;

verus! {

/// Smoothed level and held peak in millibels.
#[derive(Debug, Clone, Copy, PartialEq, Eq, Structural)]
pub struct LevelState {
    pub level_millibels: i32,
    pub peak_millibels: i32,
}

/// The packed 64-bit word of a level/peak pair: each half offset by
/// +100 000, the level in the high 32 bits, the peak in the low 32 bits.
pub open spec fn spec_pack(level: i32, peak: i32) -> u64 {
    ((((level + 100_000) as u64) << 32u64) | ((peak + 100_000) as u64)) as u64
}

impl LevelState {
    /// Both halves within the range the packing can carry.
    pub open spec fn packable(self) -> bool {
        &&& -100_000 <= self.level_millibels <= 100_000
        &&& -100_000 <= self.peak_millibels <= 100_000
    }

    /// Pack the state into one 64-bit word.
    pub fn pack(self) -> (r: u64)
        requires
            self.packable(),
        ensures
            r == spec_pack(self.level_millibels, self.peak_millibels),
            Self::unpack_spec(r) == self,
    {
        let level: u64 = (self.level_millibels + 100_000) as u64;
        let peak: u64 = (self.peak_millibels + 100_000) as u64;
        let packed: u64 = (level << 32u64) | peak;
        proof {
            assert((((level << 32u64) | peak) >> 32u64) & 0xFFFF_FFFFu64 == level && ((level
                << 32u64) | peak) & 0xFFFF_FFFFu64 == peak) by (bit_vector)
                requires
                    level < 0x1_0000_0000u64,
                    peak < 0x1_0000_0000u64,
            ;
        }
        packed
    }

    /// The state a packed word decodes to.
    pub open spec fn unpack_spec(packed: u64) -> LevelState {
        LevelState {
            level_millibels: (((packed >> 32u64) & 0xFFFF_FFFFu64) - 100_000) as i32,
            peak_millibels: ((packed & 0xFFFF_FFFFu64) - 100_000) as i32,
        }
    }

    /// Unpack a state from a 64-bit word.
    pub fn unpack(packed: u64) -> (r: LevelState)
        ensures
            r == Self::unpack_spec(packed),
    {
        proof {
            assert((packed >> 32u64) & 0xFFFF_FFFFu64 < 0x1_0000_0000u64 && packed
                & 0xFFFF_FFFFu64 < 0x1_0000_0000u64) by (bit_vector);
        }
        let level_part: u64 = (packed >> 32u64) & 0xFFFF_FFFF;
        let peak_part: u64 = packed & 0xFFFF_FFFF;
        #[verifier::truncate]
        let level = ((level_part as i64) - 100_000) as i32;
        #[verifier::truncate]
        let peak = ((peak_part as i64) - 100_000) as i32;
        LevelState { level_millibels: level, peak_millibels: peak }
    }
}

/// Packing then unpacking gives back any packable state.
pub proof fn lemma_level_state_round_trip(s: LevelState)
    requires
        s.packable(),
    ensures
        LevelState::unpack_spec(spec_pack(s.level_millibels, s.peak_millibels)) == s,
{
    let level: u64 = (s.level_millibels + 100_000) as u64;
    let peak: u64 = (s.peak_millibels + 100_000) as u64;
    assert(((level << 32u64) | peak) >> 32u64 == level && (((level << 32u64) | peak) >> 32u64)
        & 0xFFFF_FFFFu64 == level && ((level << 32u64) | peak) & 0xFFFF_FFFFu64 == peak)
        by (bit_vector)
        requires
            level < 0x1_0000_0000u64,
            peak < 0x1_0000_0000u64,
    ;
}

/// Smoothing parameters. Times are in milliseconds, levels in millibels.
#[derive(Debug, Clone, Copy)]
pub struct LevelMeterParams {
    /// Attack time constant: how fast the level rises.
    pub attack_ms: u32,
    /// Release time constant: how fast the level falls.
    pub release_ms: u32,
    /// How long a peak holds before it starts releasing.
    pub peak_hold_ms: u32,
    /// Release time constant of the peak.
    pub peak_release_ms: u32,
    /// Silence threshold.
    pub floor_millibels: i32,
    /// Full-scale ceiling.
    pub ceiling_millibels: i32,
}

impl LevelMeterParams {
    /// Sound parameter ranges: the floor below the ceiling, both within
    /// the packable range.
    pub open spec fn wf(self) -> bool {
        &&& -100_000 <= self.floor_millibels
        &&& self.floor_millibels < self.ceiling_millibels
        &&& self.ceiling_millibels <= 100_000
    }
}

impl Default for LevelMeterParams {
    /// Defaults: 5 ms attack, 150 ms release, 500 ms peak hold, 300 ms
    /// peak release, -96 dB floor, 0 dB ceiling.
    fn default() -> (r: LevelMeterParams)
        ensures
            r.attack_ms == 5,
            r.release_ms == 150,
            r.peak_hold_ms == 500,
            r.peak_release_ms == 300,
            r.floor_millibels == -96_000,
            r.ceiling_millibels == 0,
            r.wf(),
    {
        LevelMeterParams {
            attack_ms: 5,
            release_ms: 150,
            peak_hold_ms: 500,
            peak_release_ms: 300,
            floor_millibels: -96_000,
            ceiling_millibels: 0,
        }
    }
}

/// Linear interpolation from `a` toward `b` by `t` in Q16: the result
/// moves from `a` toward `b`, reaching `b` at `t == 65536`.
pub open spec fn spec_lerp(a: int, b: int, t: int) -> int {
    if b >= a {
        a + (b - a) * t / 65536
    } else {
        a - (a - b) * t / 65536
    }
}

/// The interpolant stays between its endpoints for any coefficient in
/// range, and hits them exactly at the ends.
pub proof fn lemma_lerp_bounds(a: int, b: int, t: int)
    requires
        0 <= t <= 65536,
    ensures
        b >= a ==> a <= spec_lerp(a, b, t) <= b,
        b < a ==> b <= spec_lerp(a, b, t) <= a,
        t == 0 ==> spec_lerp(a, b, t) == a,
        t == 65536 ==> spec_lerp(a, b, t) == b,
{
    if b >= a {
        assert(0 <= (b - a) * t / 65536 <= b - a) by (nonlinear_arith)
            requires
                0 <= t <= 65536,
                b >= a,
        ;
        if t == 65536 {
            assert((b - a) * 65536 / 65536 == b - a) by (nonlinear_arith);
        }
    } else {
        assert(0 <= (a - b) * t / 65536 <= a - b) by (nonlinear_arith)
            requires
                0 <= t <= 65536,
                b < a,
        ;
        if t == 65536 {
            assert((a - b) * 65536 / 65536 == a - b) by (nonlinear_arith);
        }
    }
}

/// Executable Q16 interpolation on millibel values.
fn lerp_millibels(a: i32, b: i32, t_q16: u32) -> (r: i32)
    requires
        t_q16 <= 65536,
        -100_000 <= a <= 100_000,
        -100_000 <= b <= 100_000,
    ensures
        r == spec_lerp(a as int, b as int, t_q16 as int),
{
    proof {
        lemma_lerp_bounds(a as int, b as int, t_q16 as int);
    }
    if b >= a {
        let diff: u64 = (b as i64 - a as i64) as u64;
        let step: u64 = diff * (t_q16 as u64) / 65536;
        proof {
            assert(diff * t_q16 / 65536 <= diff) by (nonlinear_arith)
                requires
                    t_q16 <= 65536,
                    diff >= 0,
            ;
        }
        (a as i64 + step as i64) as i32
    } else {
        let diff: u64 = (a as i64 - b as i64) as u64;
        let step: u64 = diff * (t_q16 as u64) / 65536;
        proof {
            assert(diff * t_q16 / 65536 <= diff) by (nonlinear_arith)
                requires
                    t_q16 <= 65536,
                    diff >= 0,
            ;
        }
        (a as i64 - step as i64) as i32
    }
}

/// Smoothing coefficients for one update, in Q16 fixed point. The caller
/// derives them from the elapsed time and the meter's time constants
/// (`1 - e^(-dt/tau)` for attack, release and peak release).
#[derive(Debug, Clone, Copy)]
pub struct SmoothingAlphas {
    pub attack_q16: u32,
    pub release_q16: u32,
    pub peak_release_q16: u32,
}

impl SmoothingAlphas {
    /// All coefficients within one Q16 unit.
    pub open spec fn wf(self) -> bool {
        &&& self.attack_q16 <= 65536
        &&& self.release_q16 <= 65536
        &&& self.peak_release_q16 <= 65536
    }
}

/// The exact effect of one UI tick at `now_us` with the given release
/// coefficients: nothing changes before the first update or within 50 ms
/// of one; after longer silence the level releases one lerp step toward
/// the floor, and the peak does too exactly when its age has passed the
/// hold time. The parameters and timestamps are untouched.
pub open spec fn spec_ticked(
    m0: SmoothLevelMeter,
    m1: SmoothLevelMeter,
    now_us: u64,
    release_q16: u32,
    peak_release_q16: u32,
) -> bool {
    let p = m0.spec_params();
    let last = m0.spec_last_update_us();
    let delta_ms = if now_us >= last {
        (now_us - last) as int / 1000
    } else {
        0
    };
    let age_ms = if now_us >= m0.spec_last_peak_us() {
        (now_us - m0.spec_last_peak_us()) as int / 1000
    } else {
        0
    };
    &&& m1.spec_params() == p
    &&& m1.spec_last_update_us() == last
    &&& m1.spec_last_peak_us() == m0.spec_last_peak_us()
    &&& (last == 0 || delta_ms <= 50 ==> m1.spec_level() == m0.spec_level() && m1.spec_peak()
        == m0.spec_peak())
    &&& (last > 0 && delta_ms > 50 ==> {
        &&& m1.spec_level() as int == spec_lerp(
            m0.spec_level() as int,
            p.floor_millibels as int,
            release_q16 as int,
        )
        &&& m1.spec_level() <= m0.spec_level()
        &&& (age_ms > p.peak_hold_ms ==> m1.spec_peak() as int == spec_lerp(
            m0.spec_peak() as int,
            p.floor_millibels as int,
            peak_release_q16 as int,
        ) && m1.spec_peak() <= m0.spec_peak())
        &&& (age_ms <= p.peak_hold_ms ==> m1.spec_peak() == m0.spec_peak())
    })
}

/// A smoothed level meter with attack/release smoothing and a held peak.
pub struct SmoothLevelMeter {
    state: LevelState,
    params: LevelMeterParams,
    last_update_us: u64,
    last_peak_us: u64,
}

impl SmoothLevelMeter {
    /// Both levels within the parameter range, parameters sound.
    pub closed spec fn wf(&self) -> bool {
        &&& self.params.wf()
        &&& self.params.floor_millibels <= self.state.level_millibels
            <= self.params.ceiling_millibels
        &&& self.params.floor_millibels <= self.state.peak_millibels
            <= self.params.ceiling_millibels
    }

    /// The current smoothed level in millibels.
    pub closed spec fn spec_level(&self) -> i32 {
        self.state.level_millibels
    }

    /// The current held peak in millibels.
    pub closed spec fn spec_peak(&self) -> i32 {
        self.state.peak_millibels
    }

    /// The parameters the meter was created with.
    pub closed spec fn spec_params(&self) -> LevelMeterParams {
        self.params
    }

    /// The time of the last update in microseconds; zero before the first.
    pub closed spec fn spec_last_update_us(&self) -> u64 {
        self.last_update_us
    }

    /// The time the current peak was adopted, in microseconds.
    pub closed spec fn spec_last_peak_us(&self) -> u64 {
        self.last_peak_us
    }

    /// A meter at the floor with default parameters.
    pub fn new() -> (r: SmoothLevelMeter)
        ensures
            r.wf(),
            r.spec_params() == (LevelMeterParams {
                attack_ms: 5,
                release_ms: 150,
                peak_hold_ms: 500,
                peak_release_ms: 300,
                floor_millibels: -96_000i32,
                ceiling_millibels: 0,
            }),
            r.spec_level() == r.spec_params().floor_millibels,
            r.spec_peak() == r.spec_params().floor_millibels,
            r.spec_last_update_us() == 0,
    {
        SmoothLevelMeter::with_params(LevelMeterParams::default())
    }

    /// A meter at the floor with the given parameters.
    pub fn with_params(params: LevelMeterParams) -> (r: SmoothLevelMeter)
        requires
            params.wf(),
        ensures
            r.wf(),
            r.spec_params() == params,
            r.spec_level() == params.floor_millibels,
            r.spec_peak() == params.floor_millibels,
            r.spec_last_update_us() == 0,
    {
        SmoothLevelMeter {
            state: LevelState {
                level_millibels: params.floor_millibels,
                peak_millibels: params.floor_millibels,
            },
            params,
            last_update_us: 0,
            last_peak_us: 0,
        }
    }

    /// Milliseconds since the last update at time `now_us`, or the default
    /// frame period before any update.
    pub fn elapsed_ms(&self, now_us: u64) -> (r: u64)
        ensures
            self.spec_last_update_us() == 0 ==> r == 10,
            self.spec_last_update_us() > 0 ==> r == ({
                let last = self.spec_last_update_us();
                if now_us >= last {
                    (now_us - last) as int / 1000
                } else {
                    0
                }
            }),
    {
        if self.last_update_us == 0 {
            10
        } else if now_us >= self.last_update_us {
            (now_us - self.last_update_us) / 1000
        } else {
            0
        }
    }

    /// Feed one input level (in millibels, clamped to the meter's range)
    /// measured at `now_us`, with the smoothing coefficients for the
    /// elapsed time.
    ///
    /// The smoothed level moves from its old value toward the input by
    /// the attack coefficient when rising and the release coefficient when
    /// falling, so with input at or below the current level it never
    /// rises and never falls below the input (with silent input it
    /// approaches the floor from above). An input above the current peak
    /// is adopted as the peak immediately; otherwise the peak holds until
    /// `peak_hold_ms` has elapsed since it was set and only then releases
    /// toward the floor.
    pub fn update(&mut self, input_millibels: i32, now_us: u64, alphas: SmoothingAlphas)
        requires
            old(self).wf(),
            alphas.wf(),
        ensures
            final(self).wf(),
            final(self).spec_params() == old(self).spec_params(),
            final(self).spec_last_update_us() == now_us,
            ({
                let p = old(self).spec_params();
                let inp = if input_millibels < p.floor_millibels {
                    p.floor_millibels as int
                } else if input_millibels > p.ceiling_millibels {
                    p.ceiling_millibels as int
                } else {
                    input_millibels as int
                };
                let lvl = old(self).spec_level() as int;
                let pk = old(self).spec_peak() as int;
                let age_ms = if now_us >= old(self).spec_last_peak_us() {
                    (now_us - old(self).spec_last_peak_us()) as int / 1000
                } else {
                    0
                };
                &&& final(self).spec_level() as int == spec_lerp(
                    lvl,
                    inp,
                    if inp > lvl {
                        alphas.attack_q16 as int
                    } else {
                        alphas.release_q16 as int
                    },
                )
                &&& (inp <= lvl ==> inp <= final(self).spec_level() <= lvl)
                &&& (inp > lvl ==> lvl <= final(self).spec_level() <= inp)
                &&& (inp > pk ==> final(self).spec_peak() as int == inp
                    && final(self).spec_last_peak_us() == now_us)
                &&& (inp <= pk && age_ms <= p.peak_hold_ms ==> final(self).spec_peak() as int == pk
                    && final(self).spec_last_peak_us() == old(self).spec_last_peak_us())
                &&& (inp <= pk && age_ms > p.peak_hold_ms ==> final(self).spec_peak() as int
                    == spec_lerp(pk, p.floor_millibels as int, alphas.peak_release_q16 as int)
                    && final(self).spec_peak() <= pk
                    && final(self).spec_last_peak_us() == old(self).spec_last_peak_us())
            }),
    {
        let p = self.params;
        let inp: i32 = if input_millibels < p.floor_millibels {
            p.floor_millibels
        } else if input_millibels > p.ceiling_millibels {
            p.ceiling_millibels
        } else {
            input_millibels
        };
        let alpha: u32 = if inp > self.state.level_millibels {
            alphas.attack_q16
        } else {
            alphas.release_q16
        };
        proof {
            lemma_lerp_bounds(
                self.state.level_millibels as int,
                inp as int,
                alpha as int,
            );
        }
        let new_level = lerp_millibels(self.state.level_millibels, inp, alpha);
        let age_ms: u64 = if now_us >= self.last_peak_us {
            (now_us - self.last_peak_us) / 1000
        } else {
            0
        };
        if inp > self.state.peak_millibels {
            self.state.peak_millibels = inp;
            self.last_peak_us = now_us;
        } else if age_ms > p.peak_hold_ms as u64 {
            proof {
                lemma_lerp_bounds(
                    self.state.peak_millibels as int,
                    p.floor_millibels as int,
                    alphas.peak_release_q16 as int,
                );
            }
            self.state.peak_millibels = lerp_millibels(
                self.state.peak_millibels,
                p.floor_millibels,
                alphas.peak_release_q16,
            );
        }
        self.state.level_millibels = new_level;
        self.last_update_us = now_us;
    }

    /// Continue releasing toward the floor when more than 50 ms have
    /// passed without an update, so UI animation stays smooth while the
    /// source is paused. Does nothing before the first update or within
    /// 50 ms of one. The caller derives the coefficients from the elapsed
    /// time clamped to 100 ms.
    pub fn tick_for_ui(&mut self, now_us: u64, release_q16: u32, peak_release_q16: u32)
        requires
            old(self).wf(),
            release_q16 <= 65536,
            peak_release_q16 <= 65536,
        ensures
            final(self).wf(),
            final(self).spec_level() <= old(self).spec_level(),
            final(self).spec_peak() <= old(self).spec_peak(),
            spec_ticked(*old(self), *final(self), now_us, release_q16, peak_release_q16),
    {
        if self.last_update_us == 0 {
            return ;
        }
        let delta_ms: u64 = if now_us >= self.last_update_us {
            (now_us - self.last_update_us) / 1000
        } else {
            0
        };
        if delta_ms > 50 {
            let p = self.params;
            proof {
                lemma_lerp_bounds(
                    self.state.level_millibels as int,
                    p.floor_millibels as int,
                    release_q16 as int,
                );
            }
            self.state.level_millibels = lerp_millibels(
                self.state.level_millibels,
                p.floor_millibels,
                release_q16,
            );
            let age_ms: u64 = if now_us >= self.last_peak_us {
                (now_us - self.last_peak_us) / 1000
            } else {
                0
            };
            if age_ms > p.peak_hold_ms as u64 {
                proof {
                    lemma_lerp_bounds(
                        self.state.peak_millibels as int,
                        p.floor_millibels as int,
                        peak_release_q16 as int,
                    );
                }
                self.state.peak_millibels = lerp_millibels(
                    self.state.peak_millibels,
                    p.floor_millibels,
                    peak_release_q16,
                );
            }
        }
    }

    /// The current smoothed level in millibels.
    pub fn level_millibels(&self) -> (r: i32)
        ensures
            r == self.spec_level(),
    {
        self.state.level_millibels
    }

    /// The current held peak in millibels.
    pub fn peak_millibels(&self) -> (r: i32)
        ensures
            r == self.spec_peak(),
    {
        self.state.peak_millibels
    }

    /// The level/peak pair as one packed word for an atomic store.
    pub fn packed_state(&self) -> (r: u64)
        requires
            self.wf(),
        ensures
            r == spec_pack(self.spec_level(), self.spec_peak()),
    {
        self.state.pack()
    }

    /// The smoothed level normalised to thousandths of the floor-to-
    /// ceiling range.
    pub fn level_normalized(&self) -> (r: u32)
        requires
            self.wf(),
        ensures
            r as int == (self.spec_level() - self.spec_params().floor_millibels) * 1000 / (
            self.spec_params().ceiling_millibels - self.spec_params().floor_millibels),
            r <= 1000,
    {
        normalize(self.state.level_millibels, self.params)
    }

    /// The held peak normalised to thousandths of the floor-to-ceiling
    /// range.
    pub fn peak_normalized(&self) -> (r: u32)
        requires
            self.wf(),
        ensures
            r as int == (self.spec_peak() - self.spec_params().floor_millibels) * 1000 / (
            self.spec_params().ceiling_millibels - self.spec_params().floor_millibels),
            r <= 1000,
    {
        normalize(self.state.peak_millibels, self.params)
    }

    /// Reset level and peak to the floor and forget the update times.
    pub fn reset(&mut self)
        requires
            old(self).wf(),
        ensures
            final(self).wf(),
            final(self).spec_params() == old(self).spec_params(),
            final(self).spec_level() == final(self).spec_params().floor_millibels,
            final(self).spec_peak() == final(self).spec_params().floor_millibels,
            final(self).spec_last_update_us() == 0,
            final(self).spec_last_peak_us() == 0,
    {
        self.state = LevelState {
            level_millibels: self.params.floor_millibels,
            peak_millibels: self.params.floor_millibels,
        };
        self.last_update_us = 0;
        self.last_peak_us = 0;
    }
}

/// A millibel value within `[floor, ceiling]` as thousandths of that
/// range.
fn normalize(value: i32, params: LevelMeterParams) -> (r: u32)
    requires
        params.wf(),
        params.floor_millibels <= value <= params.ceiling_millibels,
    ensures
        r as int == (value - params.floor_millibels) * 1000 / (params.ceiling_millibels
            - params.floor_millibels),
        r <= 1000,
{
    let num: u64 = ((value as i64 - params.floor_millibels as i64) as u64) * 1000;
    let den: u64 = (params.ceiling_millibels as i64 - params.floor_millibels as i64) as u64;
    let q = num / den;
    proof {
        assert((value - params.floor_millibels) * 1000 / (params.ceiling_millibels
            - params.floor_millibels) <= 1000) by (nonlinear_arith)
            requires
                params.floor_millibels <= value <= params.ceiling_millibels,
                params.floor_millibels < params.ceiling_millibels,
        ;
    }
    q as u32
}

/// Per-channel meters plus one combined meter that watches the whole
/// interleaved signal. The caller extracts each channel's input level (and
/// the combined one) from its sample blocks and feeds them here.
pub struct MultiChannelLevelMeter {
    channels: Vec<SmoothLevelMeter>,
    combined: SmoothLevelMeter,
}

impl MultiChannelLevelMeter {
    /// Every meter well formed.
    pub closed spec fn wf(&self) -> bool {
        &&& self.combined.wf()
        &&& forall|i: int| 0 <= i < self.channels@.len() ==> (#[trigger] self.channels@[i]).wf()
    }

    /// Number of per-channel meters.
    pub closed spec fn spec_channel_count(&self) -> nat {
        self.channels@.len()
    }

    /// The level of one channel's meter.
    pub closed spec fn spec_channel_level(&self, channel: int) -> i32 {
        self.channels@[channel].spec_level()
    }

    /// The combined meter's level.
    pub closed spec fn spec_combined_level(&self) -> i32 {
        self.combined.spec_level()
    }

    /// One channel's whole meter.
    pub closed spec fn spec_channel_meter(&self, channel: int) -> SmoothLevelMeter {
        self.channels@[channel]
    }

    /// The combined meter.
    pub closed spec fn spec_combined_meter(&self) -> SmoothLevelMeter {
        self.combined
    }

    /// A meter bank with default parameters.
    pub fn new(channel_count: usize) -> (r: MultiChannelLevelMeter)
        ensures
            r.wf(),
            r.spec_channel_count() == channel_count,
    {
        let mut channels: Vec<SmoothLevelMeter> = Vec::new();
        let mut i: usize = 0;
        while i < channel_count
            invariant
                i <= channel_count,
                channels@.len() == i,
                forall|j: int| 0 <= j < i ==> (#[trigger] channels@[j]).wf(),
            decreases channel_count - i,
        {
            channels.push(SmoothLevelMeter::new());
            i = i + 1;
        }
        MultiChannelLevelMeter { channels, combined: SmoothLevelMeter::new() }
    }

    /// A meter bank with the given parameters.
    pub fn with_params(channel_count: usize, params: LevelMeterParams) -> (r:
        MultiChannelLevelMeter)
        requires
            params.wf(),
        ensures
            r.wf(),
            r.spec_channel_count() == channel_count,
    {
        let mut channels: Vec<SmoothLevelMeter> = Vec::new();
        let mut i: usize = 0;
        while i < channel_count
            invariant
                i <= channel_count,
                channels@.len() == i,
                params.wf(),
                forall|j: int| 0 <= j < i ==> (#[trigger] channels@[j]).wf(),
            decreases channel_count - i,
        {
            channels.push(SmoothLevelMeter::with_params(params));
            i = i + 1;
        }
        MultiChannelLevelMeter { channels, combined: SmoothLevelMeter::with_params(params) }
    }

    /// Number of per-channel meters.
    pub fn channel_count(&self) -> (r: usize)
        ensures
            r == self.spec_channel_count(),
    {
        self.channels.len()
    }

    /// Feed one channel's measured input level at `now_us`; levels of the
    /// other channels and of the combined meter are untouched. Out-of-
    /// range channels are ignored.
    pub fn update_channel(
        &mut self,
        channel: usize,
        input_millibels: i32,
        now_us: u64,
        alphas: SmoothingAlphas,
    )
        requires
            old(self).wf(),
            alphas.wf(),
        ensures
            final(self).wf(),
            final(self).spec_channel_count() == old(self).spec_channel_count(),
            final(self).spec_combined_level() == old(self).spec_combined_level(),
            channel >= old(self).spec_channel_count() ==> final(self).spec_channel_level(
                channel as int,
            ) == old(self).spec_channel_level(channel as int),
            forall|j: int|
                0 <= j < old(self).spec_channel_count() && j != channel
                    ==> #[trigger] final(self).spec_channel_meter(j) == old(
                    self,
                ).spec_channel_meter(j),
            channel < old(self).spec_channel_count() ==> ({
                let m0 = old(self).spec_channel_meter(channel as int);
                let m1 = final(self).spec_channel_meter(channel as int);
                let p = m0.spec_params();
                let inp = if input_millibels < p.floor_millibels {
                    p.floor_millibels as int
                } else if input_millibels > p.ceiling_millibels {
                    p.ceiling_millibels as int
                } else {
                    input_millibels as int
                };
                &&& m1.spec_params() == p
                &&& m1.spec_last_update_us() == now_us
                &&& m1.spec_level() as int == spec_lerp(
                    m0.spec_level() as int,
                    inp,
                    if inp > m0.spec_level() {
                        alphas.attack_q16 as int
                    } else {
                        alphas.release_q16 as int
                    },
                )
                &&& (inp <= m0.spec_level() ==> inp <= m1.spec_level() <= m0.spec_level())
                &&& (inp > m0.spec_level() ==> m0.spec_level() <= m1.spec_level() <= inp)
                &&& (inp > m0.spec_peak() ==> m1.spec_peak() as int == inp)
            }),
    {
        if channel < self.channels.len() {
            let meter = &mut self.channels[channel];
            meter.update(input_millibels, now_us, alphas);
        }
    }

    /// Feed the combined meter the input level of the whole interleaved
    /// block.
    pub fn update_combined(&mut self, input_millibels: i32, now_us: u64, alphas: SmoothingAlphas)
        requires
            old(self).wf(),
            alphas.wf(),
        ensures
            final(self).wf(),
            final(self).spec_channel_count() == old(self).spec_channel_count(),
            forall|i: int|
                0 <= i < old(self).spec_channel_count() ==> final(self).spec_channel_level(i)
                    == old(self).spec_channel_level(i),
    {
        self.combined.update(input_millibels, now_us, alphas);
    }

    /// One channel's level in millibels; the floor for a channel that
    /// does not exist.
    pub fn channel_level_millibels(&self, channel: usize) -> (r: i32)
        requires
            self.wf(),
        ensures
            channel < self.spec_channel_count() ==> r == self.spec_channel_level(channel as int),
            channel >= self.spec_channel_count() ==> r == -96_000,
    {
        if channel < self.channels.len() {
            self.channels[channel].level_millibels()
        } else {
            -96_000
        }
    }

    /// One channel's held peak in millibels; the floor for a channel that
    /// does not exist.
    pub fn channel_peak_millibels(&self, channel: usize) -> (r: i32)
        requires
            self.wf(),
        ensures
            channel < self.spec_channel_count() ==> r == self.spec_channel_meter(
                channel as int,
            ).spec_peak(),
            channel >= self.spec_channel_count() ==> r == -96_000,
    {
        if channel < self.channels.len() {
            self.channels[channel].peak_millibels()
        } else {
            -96_000
        }
    }

    /// The combined level in millibels.
    pub fn combined_level_millibels(&self) -> (r: i32)
        ensures
            r == self.spec_combined_level(),
    {
        self.combined.level_millibels()
    }

    /// The combined held peak in millibels.
    pub fn combined_peak_millibels(&self) -> (r: i32)
        ensures
            r == self.spec_combined_meter().spec_peak(),
    {
        self.combined.peak_millibels()
    }

    /// Let every meter keep releasing while no input arrives: each
    /// channel's meter and the combined meter tick exactly as
    /// `SmoothLevelMeter::tick_for_ui` does.
    pub fn tick_for_ui(&mut self, now_us: u64, release_q16: u32, peak_release_q16: u32)
        requires
            old(self).wf(),
            release_q16 <= 65536,
            peak_release_q16 <= 65536,
        ensures
            final(self).wf(),
            final(self).spec_channel_count() == old(self).spec_channel_count(),
            spec_ticked(
                old(self).spec_combined_meter(),
                final(self).spec_combined_meter(),
                now_us,
                release_q16,
                peak_release_q16,
            ),
            forall|j: int|
                0 <= j < old(self).spec_channel_count() ==> spec_ticked(
                    old(self).spec_channel_meter(j),
                    #[trigger] final(self).spec_channel_meter(j),
                    now_us,
                    release_q16,
                    peak_release_q16,
                ),
    {
        let ghost channels0 = self.channels@;
        let mut i: usize = 0;
        let len = self.channels.len();
        while i < len
            invariant
                i <= len,
                len == channels0.len(),
                self.channels@.len() == channels0.len(),
                release_q16 <= 65536,
                peak_release_q16 <= 65536,
                self.combined == old(self).combined,
                self.combined.wf(),
                forall|j: int| 0 <= j < len ==> (#[trigger] self.channels@[j]).wf(),
                forall|j: int| i <= j < len ==> #[trigger] self.channels@[j] == channels0[j],
                forall|j: int|
                    0 <= j < i ==> spec_ticked(
                        channels0[j],
                        #[trigger] self.channels@[j],
                        now_us,
                        release_q16,
                        peak_release_q16,
                    ),
            decreases len - i,
        {
            let meter = &mut self.channels[i];
            meter.tick_for_ui(now_us, release_q16, peak_release_q16);
            i = i + 1;
        }
        self.combined.tick_for_ui(now_us, release_q16, peak_release_q16);
    }
}

} // verus!
