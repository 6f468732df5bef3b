//! Adaptive jitter buffer: absorbs packet reordering and network delay
//! variance for one track.
//!
//! The buffer is a power-of-two array of slots, each holding at most one
//! frame; a frame with sequence `s` lives in slot `s & (capacity - 1)`.
//! `next_sequence` is the next sequence to deliver. The target delay (the
//! prebuffer depth) adapts to an integer exponential moving average of the
//! inter-arrival deviation, moving at most one step per insertion.
//!
//! A loss is reported only when the consumer steps over an empty slot,
//! never on insert; duplicates silently overwrite.

use vstd::prelude::*;
use crate::frame::AudioFrame;
use crate::ring::spec_count_up;
use vstd::wrapping::u32_specs;

verus! {

/// Expected inter-arrival time between frames in microseconds.
pub const EXPECTED_FRAME_INTERVAL_US: u64 = 10_000;

/// Cap on a single inter-arrival deviation sample in microseconds.
pub const MAX_DEVIATION_US: u64 = 1_000_000_000;

/// Mathematical model of a jitter buffer.
#[verifier::ext_equal]
pub struct JitterView {
    pub slots: Seq<Option<AudioFrame>>,
    pub capacity: nat,
    pub mask: u32,
    pub next_sequence: u32,
    pub min_delay: nat,
    pub max_delay: nat,
    pub target_delay: nat,
    pub level: usize,
    pub received: u64,
    pub lost: u64,
    pub late: u64,
    pub out_of_order: u64,
    pub last_receive_us: Option<u64>,
    pub jitter_estimate_us: u64,
    pub initialized: bool,
}

/// A sequence number advanced by `i`, wrapping modulo 2^32.
pub open spec fn seq_add(s: u32, i: nat) -> u32 {
    ((s + i) % 0x1_0000_0000) as u32
}

/// The slot a sequence number maps to.
pub open spec fn slot_of(seq: u32, mask: u32) -> int {
    (seq & mask) as int
}

/// A saturating count-up on a level counter.
pub open spec fn spec_level_up(c: usize) -> usize {
    if c < usize::MAX {
        (c + 1) as usize
    } else {
        c
    }
}

/// One step of the deviation EMA (alpha 0.1, integer arithmetic): the
/// absolute deviation of the inter-arrival time from the expected period,
/// capped, averaged into the running estimate.
pub open spec fn spec_ema_update(est: u64, inter_us: u64) -> u64 {
    let dev0 = if inter_us >= EXPECTED_FRAME_INTERVAL_US {
        inter_us - EXPECTED_FRAME_INTERVAL_US
    } else {
        EXPECTED_FRAME_INTERVAL_US - inter_us
    };
    let dev = if dev0 > MAX_DEVIATION_US {
        MAX_DEVIATION_US as int
    } else {
        dev0
    };
    ((est * 9 + dev) / 10) as u64
}

/// Re-estimate the jitter EMA and slew the target delay one step toward
/// `min_delay` plus the estimated jitter in frames, clamped to
/// `[min_delay, max_delay]`. Runs only from the second insertion on.
pub open spec fn jv_adapt(v: JitterView, now_us: u64) -> JitterView {
    match v.last_receive_us {
        Option::None => JitterView { last_receive_us: Some(now_us), ..v },
        Option::Some(last) => {
            let inter = if now_us >= last {
                now_us - last
            } else {
                0
            };
            let est = spec_ema_update(v.jitter_estimate_us, inter as u64);
            let jitter_frames = ((est + (EXPECTED_FRAME_INTERVAL_US - 1)) as int
                / EXPECTED_FRAME_INTERVAL_US as int) as nat;
            let raw = v.min_delay + jitter_frames;
            let new_target = if raw > v.max_delay {
                v.max_delay
            } else {
                raw
            };
            let target = if new_target > v.target_delay {
                v.target_delay + 1
            } else if new_target < v.target_delay && v.level > new_target {
                (v.target_delay - 1) as nat
            } else {
                v.target_delay
            };
            JitterView {
                jitter_estimate_us: est,
                target_delay: target,
                last_receive_us: Some(now_us),
                ..v
            }
        },
    }
}

/// Whether a frame with forward distance `ahead` from `next_sequence` is
/// late: behind the playback point by less than half the capacity. A
/// larger distance behind is taken as a sequence wrap and treated as
/// future.
pub open spec fn spec_is_late(ahead: u32, capacity: nat) -> bool {
    ahead >= 0x8000_0000 && 0x1_0000_0000 - ahead < capacity as int / 2
}

/// Whether a frame arrived out of order but not late: more than one ahead
/// of the playback point and within half the capacity.
pub open spec fn spec_is_out_of_order(ahead: u32, capacity: nat) -> bool {
    ahead > 1 && (ahead as int) < capacity as int / 2
}

/// Effect of inserting a frame at time `now_us`: adapt the delay, take the
/// first frame's sequence as the playback point, drop late frames, store
/// the rest in the slot their sequence maps to.
pub open spec fn jv_insert(v: JitterView, frame: AudioFrame, now_us: u64) -> (JitterView, bool) {
    let v1 = jv_adapt(v, now_us);
    let v2 = if !v1.initialized {
        JitterView { next_sequence: frame.sequence, initialized: true, ..v1 }
    } else {
        v1
    };
    let ahead = u32_specs::wrapping_sub(frame.sequence, v2.next_sequence);
    if spec_is_late(ahead, v2.capacity) {
        (JitterView { late: spec_count_up(v2.late), ..v2 }, false)
    } else {
        let ooo = if spec_is_out_of_order(ahead, v2.capacity) {
            spec_count_up(v2.out_of_order)
        } else {
            v2.out_of_order
        };
        (
            JitterView {
                slots: v2.slots.update(slot_of(frame.sequence, v2.mask), Some(frame)),
                received: spec_count_up(v2.received),
                level: spec_level_up(v2.level),
                out_of_order: ooo,
                ..v2
            },
            true,
        )
    }
}

/// Effect of one forced delivery: read the slot of `next_sequence`; when
/// occupied hand the frame out, when empty count one loss; always advance
/// the playback point by one.
pub open spec fn jv_force_next(v: JitterView) -> (JitterView, Option<AudioFrame>) {
    let idx = slot_of(v.next_sequence, v.mask);
    let advanced = seq_add(v.next_sequence, 1);
    match v.slots[idx] {
        Option::Some(f) => (
            JitterView {
                slots: v.slots.update(idx, None),
                level: if v.level > 0 {
                    (v.level - 1) as usize
                } else {
                    0
                },
                next_sequence: advanced,
                ..v
            },
            Some(f),
        ),
        Option::None => (
            JitterView { lost: spec_count_up(v.lost), next_sequence: advanced, ..v },
            None,
        ),
    }
}

/// Effect of one gated delivery: nothing while the level is below the
/// target delay (prebuffering), a forced delivery otherwise.
pub open spec fn jv_get_next(v: JitterView) -> (JitterView, Option<AudioFrame>) {
    if v.level < v.target_delay {
        (v, None)
    } else {
        jv_force_next(v)
    }
}

/// Effect of a reset: all slots cleared, playback point and adaptive state
/// reinitialised; the cumulative counters are kept.
pub open spec fn jv_reset(v: JitterView) -> JitterView {
    JitterView {
        slots: Seq::new(v.capacity, |i: int| None),
        next_sequence: 0,
        level: 0,
        target_delay: v.min_delay,
        jitter_estimate_us: 0,
        last_receive_us: None,
        initialized: false,
        ..v
    }
}

/// Well-formedness of the model: a power-of-two slot array, the mask and
/// delay bounds consistent, and every occupied slot holding a frame whose
/// sequence maps to it.
pub open spec fn jv_wf(v: JitterView) -> bool {
    &&& v.slots.len() == v.capacity
    &&& v.capacity == v.mask as nat + 1
    &&& 1 <= v.mask <= 0xFFFF
    &&& (v.mask as u64) & ((v.mask + 1) as u64) == 0
    &&& v.max_delay == v.capacity / 2
    &&& v.min_delay <= v.max_delay
    &&& v.min_delay <= v.target_delay <= v.max_delay
    &&& v.jitter_estimate_us <= MAX_DEVIATION_US
    &&& forall|i: int|
        0 <= i < v.slots.len() ==> (#[trigger] v.slots[i] matches Some(f) ==> slot_of(
            f.sequence,
            v.mask,
        ) == i)
}

/// Jitter buffer for packet reordering and loss concealment.
pub struct JitterBuffer {
    slots: Vec<Option<AudioFrame>>,
    capacity: usize,
    mask: u32,
    next_sequence: u32,
    min_delay: usize,
    max_delay: usize,
    target_delay: usize,
    level: usize,
    received: u64,
    lost: u64,
    late: u64,
    out_of_order: u64,
    last_receive_us: Option<u64>,
    jitter_estimate_us: u64,
    initialized: bool,
}

impl View for JitterBuffer {
    type V = JitterView;

    closed spec fn view(&self) -> JitterView {
        JitterView {
            slots: self.slots@,
            capacity: self.capacity as nat,
            mask: self.mask,
            next_sequence: self.next_sequence,
            min_delay: self.min_delay as nat,
            max_delay: self.max_delay as nat,
            target_delay: self.target_delay as nat,
            level: self.level,
            received: self.received,
            lost: self.lost,
            late: self.late,
            out_of_order: self.out_of_order,
            last_receive_us: self.last_receive_us,
            jitter_estimate_us: self.jitter_estimate_us,
            initialized: self.initialized,
        }
    }
}

impl JitterBuffer {
    /// Well-formedness of the buffer.
    pub open spec fn wf(&self) -> bool {
        jv_wf(self@)
    }

    /// An empty jitter buffer. The capacity must be a power of two and the
    /// minimum delay at most half of it.
    pub fn new(capacity: usize, min_delay: usize) -> (r: JitterBuffer)
        requires
            2 <= capacity <= 0x10000,
            (capacity as u64) & ((capacity - 1) as u64) == 0,
            min_delay <= capacity / 2,
        ensures
            r.wf(),
            r@.capacity == capacity,
            r@.min_delay == min_delay,
            r@.target_delay == min_delay,
            r@.next_sequence == 0,
            r@.level == 0,
            r@.received == 0 && r@.lost == 0 && r@.late == 0 && r@.out_of_order == 0,
            r@.initialized == false,
            r@.last_receive_us is None,
            r@.jitter_estimate_us == 0,
            r@.slots == Seq::new(capacity as nat, |i: int| None::<AudioFrame>),
    {
        proof {
            let x = capacity as u64;
            let y = (capacity - 1) as u64;
            assert(x & y == y & x) by (bit_vector);
        }
        let mut slots: Vec<Option<AudioFrame>> = Vec::new();
        let mut i: usize = 0;
        while i < capacity
            invariant
                i <= capacity,
                slots@.len() == i,
                forall|j: int| 0 <= j < i ==> slots@[j] is None,
            decreases capacity - i,
        {
            slots.push(None);
            i = i + 1;
        }
        proof {
            assert(slots@ =~= Seq::new(capacity as nat, |j: int| None::<AudioFrame>));
        }
        JitterBuffer {
            slots,
            capacity,
            mask: (capacity - 1) as u32,
            next_sequence: 0,
            min_delay,
            max_delay: capacity / 2,
            target_delay: min_delay,
            level: 0,
            received: 0,
            lost: 0,
            late: 0,
            out_of_order: 0,
            last_receive_us: None,
            jitter_estimate_us: 0,
            initialized: false,
        }
    }

    /// Insert a frame received at `now_us`. Returns `false` exactly when
    /// the frame is late (behind the playback point by less than half the
    /// capacity) and was dropped.
    pub fn insert(&mut self, frame: AudioFrame, now_us: u64) -> (r: bool)
        requires
            old(self).wf(),
        ensures
            final(self).wf(),
            final(self)@ == jv_insert(old(self)@, frame, now_us).0,
            r == jv_insert(old(self)@, frame, now_us).1,
    {
        proof {
            lemma_jv_insert_wf(old(self)@, frame, now_us);
        }
        match self.last_receive_us {
            Some(last) => {
                let inter: u64 = if now_us >= last {
                    now_us - last
                } else {
                    0
                };
                let dev0: u64 = if inter >= EXPECTED_FRAME_INTERVAL_US {
                    inter - EXPECTED_FRAME_INTERVAL_US
                } else {
                    EXPECTED_FRAME_INTERVAL_US - inter
                };
                let dev: u64 = if dev0 > MAX_DEVIATION_US {
                    MAX_DEVIATION_US
                } else {
                    dev0
                };
                self.jitter_estimate_us = (self.jitter_estimate_us * 9 + dev) / 10;
                let jitter_frames: u64 = (self.jitter_estimate_us + (EXPECTED_FRAME_INTERVAL_US
                    - 1)) / EXPECTED_FRAME_INTERVAL_US;
                let raw: u64 = self.min_delay as u64 + jitter_frames;
                let new_target: u64 = if raw > self.max_delay as u64 {
                    self.max_delay as u64
                } else {
                    raw
                };
                if new_target > self.target_delay as u64 {
                    self.target_delay = self.target_delay + 1;
                } else if new_target < self.target_delay as u64 && (self.level as u64)
                    > new_target {
                    self.target_delay = self.target_delay - 1;
                }
            },
            None => {},
        }
        self.last_receive_us = Some(now_us);
        if !self.initialized {
            self.next_sequence = frame.sequence;
            self.initialized = true;
        }
        let ahead: u32 = frame.sequence.wrapping_sub(self.next_sequence);
        let half: u32 = (self.capacity / 2) as u32;
        if ahead >= 0x8000_0000 && (u32::MAX - ahead) + 1 < half {
            self.late = count_up(self.late);
            proof {
                assert(self@ =~= jv_insert(old(self)@, frame, now_us).0);
            }
            return false;
        }
        if ahead > 1 && ahead < half {
            self.out_of_order = count_up(self.out_of_order);
        }
        let idx: usize = (frame.sequence & self.mask) as usize;
        proof {
            let m = self.mask;
            let s = frame.sequence;
            assert((s & m) <= m) by (bit_vector);
        }
        self.slots[idx] = Some(frame);
        self.received = count_up(self.received);
        self.level = level_up(self.level);
        proof {
            assert(self@ =~= jv_insert(old(self)@, frame, now_us).0);
        }
        true
    }

    /// Deliver the next frame when the buffer has prebuffered to its
    /// target delay: `None` either while prebuffering (nothing changes) or
    /// when the next slot is empty (the loss is counted and the playback
    /// point advances past it).
    pub fn get_next(&mut self) -> (r: Option<AudioFrame>)
        requires
            old(self).wf(),
        ensures
            final(self).wf(),
            final(self)@ == jv_get_next(old(self)@).0,
            r == jv_get_next(old(self)@).1,
    {
        if self.level < self.target_delay {
            return None;
        }
        self.force_get_next()
    }

    /// Deliver the next frame even while the level is below the target
    /// delay (used during shutdown or catch-up).
    pub fn force_get_next(&mut self) -> (r: Option<AudioFrame>)
        requires
            old(self).wf(),
        ensures
            final(self).wf(),
            final(self)@ == jv_force_next(old(self)@).0,
            r == jv_force_next(old(self)@).1,
    {
        proof {
            lemma_jv_force_next_wf(old(self)@);
        }
        let idx: usize = (self.next_sequence & self.mask) as usize;
        proof {
            let m = self.mask;
            let s = self.next_sequence;
            assert((s & m) <= m) by (bit_vector);
        }
        let frame = self.slots[idx].take();
        let advanced = self.next_sequence.wrapping_add(1);
        proof {
            assert(u32_specs::wrapping_add(self.next_sequence, 1u32) == seq_add(
                self.next_sequence,
                1,
            ));
        }
        self.next_sequence = advanced;
        match frame {
            Some(f) => {
                if self.level > 0 {
                    self.level = self.level - 1;
                }
                proof {
                    assert(self@ =~= jv_force_next(old(self)@).0);
                }
                Some(f)
            },
            None => {
                self.lost = count_up(self.lost);
                proof {
                    assert(self@ =~= jv_force_next(old(self)@).0);
                }
                None
            },
        }
    }

    /// Clear all slots and reinitialise the adaptive state; cumulative
    /// counters are kept.
    pub fn reset(&mut self)
        requires
            old(self).wf(),
        ensures
            final(self).wf(),
            final(self)@ == jv_reset(old(self)@),
    {
        let len = self.slots.len();
        let mut i: usize = 0;
        while i < len
            invariant
                i <= len,
                len == self.slots@.len(),
                forall|j: int| 0 <= j < i ==> self.slots@[j] is None,
                self.capacity == old(self).capacity,
                self.mask == old(self).mask,
                self.min_delay == old(self).min_delay,
                self.max_delay == old(self).max_delay,
                self.target_delay == old(self).target_delay,
                self.level == old(self).level,
                self.received == old(self).received,
                self.lost == old(self).lost,
                self.late == old(self).late,
                self.out_of_order == old(self).out_of_order,
                self.last_receive_us == old(self).last_receive_us,
                self.jitter_estimate_us == old(self).jitter_estimate_us,
                self.next_sequence == old(self).next_sequence,
                self.initialized == old(self).initialized,
            decreases len - i,
        {
            self.slots[i] = None;
            i = i + 1;
        }
        self.next_sequence = 0;
        self.level = 0;
        self.target_delay = self.min_delay;
        self.jitter_estimate_us = 0;
        self.last_receive_us = None;
        self.initialized = false;
        proof {
            assert(self@.slots =~= Seq::new(old(self)@.capacity, |j: int| None::<AudioFrame>));
            assert(self@ =~= jv_reset(old(self)@));
        }
    }

    /// Reset and take `seq` as the next sequence to deliver.
    pub fn set_next_sequence(&mut self, seq: u32)
        requires
            old(self).wf(),
        ensures
            final(self).wf(),
            final(self)@ == (JitterView {
                next_sequence: seq,
                initialized: true,
                ..jv_reset(old(self)@)
            }),
    {
        self.reset();
        self.next_sequence = seq;
        self.initialized = true;
    }

    /// The current target delay in frames.
    pub fn target_delay(&self) -> (r: usize)
        ensures
            r == self@.target_delay,
    {
        self.target_delay
    }

    /// The current jitter estimate in microseconds.
    pub fn jitter_estimate_us(&self) -> (r: u64)
        ensures
            r == self@.jitter_estimate_us,
    {
        self.jitter_estimate_us
    }

    /// A snapshot of the buffer's counters.
    pub fn stats(&self) -> (r: JitterBufferStats)
        requires
            self.wf(),
        ensures
            r.level == self@.level,
            r.capacity == self@.capacity,
            r.target_delay == self@.target_delay,
            r.received == self@.received,
            r.lost == self@.lost,
            r.late == self@.late,
            r.out_of_order == self@.out_of_order,
            r.jitter_us == self@.jitter_estimate_us,
    {
        JitterBufferStats {
            level: self.level,
            capacity: self.capacity,
            target_delay: self.target_delay,
            received: self.received,
            lost: self.lost,
            late: self.late,
            out_of_order: self.out_of_order,
            jitter_us: self.jitter_estimate_us,
        }
    }
}

/// Jitter buffer statistics snapshot.
#[derive(Debug, Clone)]
pub struct JitterBufferStats {
    pub level: usize,
    pub capacity: usize,
    pub target_delay: usize,
    pub received: u64,
    pub lost: u64,
    pub late: u64,
    pub out_of_order: u64,
    pub jitter_us: u64,
}

impl JitterBufferStats {
    /// Frames lost per thousand of all frames accounted for (received or
    /// lost); zero when nothing was received.
    pub fn loss_rate(&self) -> (r: u32)
        ensures
            self.received == 0 ==> r == 0,
            self.received > 0 ==> r == self.lost as int * 1000 / (self.received as int
                + self.lost as int),
            r <= 1000,
    {
        if self.received == 0 {
            0
        } else {
            let num: u128 = (self.lost as u128) * 1000;
            let den: u128 = self.received as u128 + self.lost as u128;
            let q: u128 = num / den;
            proof {
                assert(self.lost as int * 1000 / (self.received as int + self.lost as int) <= 1000)
                    by (nonlinear_arith)
                    requires
                        self.received > 0,
                        self.lost >= 0,
                ;
            }
            q as u32
        }
    }

    /// Late frames per thousand received, saturating at the counter
    /// range; zero when nothing was received.
    pub fn late_rate(&self) -> (r: u32)
        ensures
            self.received == 0 ==> r == 0,
            self.received > 0 ==> r as int == ({
                let q = self.late as int * 1000 / self.received as int;
                if q > u32::MAX as int {
                    u32::MAX as int
                } else {
                    q
                }
            }),
    {
        if self.received == 0 {
            0
        } else {
            let num: u128 = (self.late as u128) * 1000;
            let q: u128 = num / (self.received as u128);
            if q > u32::MAX as u128 {
                u32::MAX
            } else {
                q as u32
            }
        }
    }
}

/// Inserting preserves well-formedness; in particular the target delay
/// stays within `[min_delay, max_delay]` and the occupied slots stay
/// coherent with their sequences.
pub proof fn lemma_jv_insert_wf(v: JitterView, frame: AudioFrame, now_us: u64)
    requires
        jv_wf(v),
    ensures
        jv_wf(jv_insert(v, frame, now_us).0),
{
    let v1 = jv_adapt(v, now_us);
    assert(jv_wf(v1));
    let v2 = if !v1.initialized {
        JitterView { next_sequence: frame.sequence, initialized: true, ..v1 }
    } else {
        v1
    };
    assert(jv_wf(v2));
    let ahead = u32_specs::wrapping_sub(frame.sequence, v2.next_sequence);
    if !spec_is_late(ahead, v2.capacity) {
        let idx = slot_of(frame.sequence, v2.mask);
        let m = v2.mask;
        let s = frame.sequence;
        assert((s & m) <= m) by (bit_vector);
        let r = jv_insert(v, frame, now_us).0;
        assert(forall|i: int|
            0 <= i < r.slots.len() ==> (#[trigger] r.slots[i] matches Some(f) ==> slot_of(
                f.sequence,
                r.mask,
            ) == i));
    }
}

/// A forced delivery preserves well-formedness.
pub proof fn lemma_jv_force_next_wf(v: JitterView)
    requires
        jv_wf(v),
    ensures
        jv_wf(jv_force_next(v).0),
{
    let m = v.mask;
    let s = v.next_sequence;
    assert((s & m) <= m) by (bit_vector);
}

/// The adaptive delay law: one insertion moves the target delay by at most
/// one step, and it stays within `[min_delay, max_delay]`.
pub proof fn lemma_target_delay_slew(v: JitterView, frame: AudioFrame, now_us: u64)
    requires
        jv_wf(v),
    ensures
        v.target_delay - 1 <= jv_insert(v, frame, now_us).0.target_delay <= v.target_delay + 1,
        v.min_delay <= jv_insert(v, frame, now_us).0.target_delay <= v.max_delay,
{
    lemma_jv_insert_wf(v, frame, now_us);
}

/// A saturating count-up, executable form.
fn count_up(c: u64) -> (r: u64)
    ensures
        r == spec_count_up(c),
{
    if c < u64::MAX {
        c + 1
    } else {
        c
    }
}

/// A saturating level count-up, executable form.
fn level_up(c: usize) -> (r: usize)
    ensures
        r == spec_level_up(c),
{
    if c < usize::MAX {
        c + 1
    } else {
        c
    }
}

/// The buffer state after `n` forced deliveries.
pub open spec fn jv_run_force(v: JitterView, n: nat) -> JitterView
    decreases n,
{
    if n == 0 {
        v
    } else {
        jv_force_next(jv_run_force(v, (n - 1) as nat)).0
    }
}

/// The frame the `i`-th forced delivery returns, counting from zero.
pub open spec fn jv_force_result(v: JitterView, i: nat) -> Option<AudioFrame> {
    jv_force_next(jv_run_force(v, i)).1
}

/// The slot `i` frames ahead of the playback point holds the frame with
/// that sequence.
pub open spec fn slot_filled(v: JitterView, i: nat) -> bool {
    v.slots[slot_of(seq_add(v.next_sequence, i), v.mask)] matches Some(f) && f.sequence == seq_add(
        v.next_sequence,
        i,
    )
}

proof fn lemma_seq_add_zero(s: u32)
    ensures
        seq_add(s, 0) == s,
{
    vstd::arithmetic::div_mod::lemma_small_mod(s as nat, 0x1_0000_0000nat);
}

proof fn lemma_seq_add_chain(s: u32, i: nat, j: nat)
    ensures
        seq_add(seq_add(s, i), j) == seq_add(s, i + j),
{
    let m = 0x1_0000_0000int;
    let x = seq_add(s, i);
    vstd::arithmetic::div_mod::lemma_small_mod((j % 0x1_0000_0000nat), 0x1_0000_0000nat);
    vstd::arithmetic::div_mod::lemma_add_mod_noop((s + i) as int, j as int, m);
    assert((x + (j as int) % m) % m == (s + i + j) % m);
    vstd::arithmetic::div_mod::lemma_add_mod_noop(x as int, j as int, m);
    vstd::arithmetic::div_mod::lemma_small_mod(x as nat, 0x1_0000_0000nat);
}

/// Sequences within one buffer span land in distinct slots.
proof fn lemma_slot_distinct(s: u32, a: nat, b: nat, m: u32)
    requires
        1 <= m <= 0xFFFF,
        (m as u64) & ((m + 1) as u64) == 0,
        a < b,
        b - a <= m,
        b <= 0xFFFF,
    ensures
        slot_of(seq_add(s, a), m) != slot_of(seq_add(s, b), m),
{
    let big = 0x1_0000_0000int;
    let x = seq_add(s, a);
    let y = seq_add(s, b);
    let d = (b - a) as u32;
    vstd::arithmetic::div_mod::lemma_small_mod((b - a) as nat, 0x1_0000_0000nat);
    vstd::arithmetic::div_mod::lemma_add_mod_noop((s + a) as int, d as int, big);
    vstd::arithmetic::div_mod::lemma_small_mod(x as nat, 0x1_0000_0000nat);
    vstd::arithmetic::div_mod::lemma_add_mod_noop(x as int, d as int, big);
    assert(y == ((x + d) % 0x1_0000_0000) as u32);
    assert(x & m != (((x + d) % 0x1_0000_0000) as u32) & m) by (bit_vector)
        requires
            1 <= m <= 0xFFFF,
            (m as u64) & ((m + 1) as u64) == 0,
            1 <= d && d <= m,
    ;
}

/// After `i` forced deliveries from a state whose slots hold frames for
/// the `k + 1` sequences from the playback point on, the playback point
/// has advanced by `i` and the slots from `i` to `k` ahead are untouched.
proof fn lemma_run_force_preserves(v: JitterView, k: nat, i: nat)
    requires
        jv_wf(v),
        k < v.capacity,
        i <= k + 1,
        forall|j: nat| j <= k ==> #[trigger] slot_filled(v, j),
    ensures
        jv_wf(jv_run_force(v, i)),
        jv_run_force(v, i).mask == v.mask,
        jv_run_force(v, i).next_sequence == seq_add(v.next_sequence, i),
        forall|j: nat|
            #![trigger seq_add(v.next_sequence, j)]
            i <= j <= k ==> jv_run_force(v, i).slots[slot_of(seq_add(v.next_sequence, j), v.mask)]
                == v.slots[slot_of(seq_add(v.next_sequence, j), v.mask)],
    decreases i,
{
    if i == 0 {
        lemma_seq_add_zero(v.next_sequence);
    } else {
        let h = (i - 1) as nat;
        lemma_run_force_preserves(v, k, h);
        let prev = jv_run_force(v, h);
        lemma_jv_force_next_wf(prev);
        assert(slot_filled(v, h));
        let idx_h = slot_of(seq_add(v.next_sequence, h), v.mask);
        let sh = seq_add(v.next_sequence, h);
        let mm = v.mask;
        assert((sh & mm) <= mm) by (bit_vector);
        assert(prev.slots[idx_h] == v.slots[idx_h]);
        assert(prev.slots[slot_of(prev.next_sequence, prev.mask)] is Some);
        lemma_seq_add_chain(v.next_sequence, h, 1);
        assert(jv_run_force(v, i) == jv_force_next(prev).0);
        assert(jv_force_next(prev).0.slots == prev.slots.update(idx_h, None));
        assert(jv_run_force(v, i).next_sequence == seq_add(v.next_sequence, i));
        assert forall|j: nat|
            i <= j <= k implies jv_run_force(v, i).slots[slot_of(
            seq_add(v.next_sequence, j),
            v.mask,
        )] == v.slots[slot_of(seq_add(v.next_sequence, j), v.mask)] by {
            lemma_slot_distinct(v.next_sequence, h, j, v.mask);
            let sj = seq_add(v.next_sequence, j);
            assert((sj & mm) <= mm) by (bit_vector);
            assert(prev.slots[slot_of(sj, v.mask)] == v.slots[slot_of(sj, v.mask)]);
        }
    }
}

/// Jitter delivery-ordering law: when the buffer holds the frames with the
/// `k + 1` consecutive sequences starting at the playback point (in the
/// slots their sequences map to, with `k` below the capacity), a run of
/// forced deliveries returns exactly those frames in ascending sequence
/// order. Gated deliveries keep the order, since a gated call changes
/// nothing and returns nothing.
pub proof fn lemma_jitter_delivers_in_order(v: JitterView, k: nat)
    requires
        jv_wf(v),
        k < v.capacity,
        forall|j: nat| j <= k ==> #[trigger] slot_filled(v, j),
    ensures
        forall|i: nat|
            i <= k ==> ((#[trigger] jv_force_result(v, i)) matches Some(f) && f.sequence
                == seq_add(v.next_sequence, i)),
{
    assert forall|i: nat|
        i <= k implies (#[trigger] jv_force_result(v, i)) matches Some(f) && f.sequence == seq_add(
        v.next_sequence,
        i,
    ) by {
        lemma_run_force_preserves(v, k, i);
        let st = jv_run_force(v, i);
        assert(slot_filled(v, i));
        assert(st.slots[slot_of(seq_add(v.next_sequence, i), v.mask)] == v.slots[slot_of(
            seq_add(v.next_sequence, i),
            v.mask,
        )]);
    }
}

/// Advancing by the wrapping distance from `s` to a sequence lands on
/// that sequence.
proof fn lemma_seq_add_wrapping_sub(s: u32, q: u32)
    ensures
        seq_add(s, u32_specs::wrapping_sub(q, s) as nat) == q,
{
    let big = 0x1_0000_0000int;
    let d = u32_specs::wrapping_sub(q, s);
    if q >= s {
        vstd::arithmetic::div_mod::lemma_small_mod(q as nat, 0x1_0000_0000nat);
    } else {
        vstd::arithmetic::div_mod::lemma_mod_multiples_vanish(1int, q as int, big);
        vstd::arithmetic::div_mod::lemma_small_mod(q as nat, 0x1_0000_0000nat);
    }
}

/// The wrapping distance from `s` to `s` advanced by `i` is `i`.
proof fn lemma_wrapping_sub_seq_add(s: u32, i: nat)
    requires
        i <= 0xFFFF_FFFF,
    ensures
        u32_specs::wrapping_sub(seq_add(s, i), s) as nat == i,
{
    let big = 0x1_0000_0000int;
    if s + i < big {
        vstd::arithmetic::div_mod::lemma_small_mod((s + i) as nat, 0x1_0000_0000nat);
    } else {
        vstd::arithmetic::div_mod::lemma_mod_multiples_vanish(1int, s + i - big, big);
        vstd::arithmetic::div_mod::lemma_small_mod((s + i - big) as nat, 0x1_0000_0000nat);
    }
}

/// The buffer state after a run of insertions, each with its arrival
/// time.
pub open spec fn jv_run_inserts(v: JitterView, frames: Seq<(AudioFrame, u64)>) -> JitterView
    decreases frames.len(),
{
    if frames.len() == 0 {
        v
    } else {
        jv_insert(jv_run_inserts(v, frames.drop_last()), frames.last().0, frames.last().1).0
    }
}

/// Whether every inserted frame carries a sequence at most `k` ahead of
/// `s`, wrapping.
pub open spec fn frames_in_window(frames: Seq<(AudioFrame, u64)>, s: u32, k: nat) -> bool {
    forall|m: int|
        0 <= m < frames.len() ==> (u32_specs::wrapping_sub(
            (#[trigger] frames[m]).0.sequence,
            s,
        ) as nat) <= k
}

/// Inserting frames whose sequences all lie within `k` of the first
/// frame's sequence `s` (with `k` below the capacity) fills, for each
/// inserted frame, the slot its sequence maps to, and leaves the playback
/// point at `s`: none of them is late, so none is dropped.
pub proof fn lemma_inserts_fill_slots(
    v: JitterView,
    frames: Seq<(AudioFrame, u64)>,
    s: u32,
    k: nat,
)
    requires
        jv_wf(v),
        !v.initialized,
        frames.len() > 0,
        frames[0].0.sequence == s,
        k < v.capacity,
        frames_in_window(frames, s, k),
    ensures
        jv_wf(jv_run_inserts(v, frames)),
        jv_run_inserts(v, frames).initialized,
        jv_run_inserts(v, frames).next_sequence == s,
        jv_run_inserts(v, frames).mask == v.mask,
        jv_run_inserts(v, frames).capacity == v.capacity,
        forall|m: int|
            0 <= m < frames.len() ==> slot_filled(
                jv_run_inserts(v, frames),
                u32_specs::wrapping_sub((#[trigger] frames[m]).0.sequence, s) as nat,
            ),
    decreases frames.len(),
{
    let f = frames.last().0;
    let t = frames.last().1;
    let d = u32_specs::wrapping_sub(f.sequence, s);
    assert(frames[frames.len() - 1] == frames.last());
    assert(d as nat <= k);
    let u = if frames.len() == 1 {
        v
    } else {
        jv_run_inserts(v, frames.drop_last())
    };
    if frames.len() > 1 {
        let prefix = frames.drop_last();
        assert(prefix[0] == frames[0]);
        assert(frames_in_window(prefix, s, k)) by {
            assert(forall|m: int| 0 <= m < prefix.len() ==> #[trigger] prefix[m] == frames[m]);
        }
        lemma_inserts_fill_slots(v, prefix, s, k);
    }
    // One insertion of `f` at time `t` on top of `u`.
    lemma_jv_insert_wf(u, f, t);
    let w = jv_insert(u, f, t).0;
    assert(jv_run_inserts(v, frames) == w);
    let v1 = jv_adapt(u, t);
    assert(v1.slots == u.slots && v1.next_sequence == u.next_sequence && v1.initialized
        == u.initialized && v1.mask == u.mask && v1.capacity == u.capacity);
    let v2 = if !v1.initialized {
        JitterView { next_sequence: f.sequence, initialized: true, ..v1 }
    } else {
        v1
    };
    if frames.len() == 1 {
        assert(!u.initialized);
        assert(v2.next_sequence == s);
    } else {
        assert(u.initialized && u.next_sequence == s);
    }
    let ahead = u32_specs::wrapping_sub(f.sequence, v2.next_sequence);
    if frames.len() == 1 {
        assert(ahead == 0);
    }
    assert(ahead == d);
    assert(!spec_is_late(ahead, v2.capacity));
    let idx = slot_of(f.sequence, v2.mask);
    assert(w.slots == v2.slots.update(idx, Some(f)));
    assert(w.next_sequence == s && w.initialized && w.mask == v.mask && w.capacity == v.capacity);
    // The inserted frame's slot is filled with its own sequence.
    lemma_seq_add_wrapping_sub(s, f.sequence);
    let m0 = v.mask;
    let q0 = f.sequence;
    assert((q0 & m0) <= m0) by (bit_vector);
    assert(slot_filled(w, d as nat));
    // Earlier fills survive: a distinct window offset lands in a distinct
    // slot; the same offset is overwritten by a frame of the same
    // sequence.
    assert forall|m: int| 0 <= m < frames.len() implies slot_filled(
        w,
        u32_specs::wrapping_sub((#[trigger] frames[m]).0.sequence, s) as nat,
    ) by {
        let d2 = u32_specs::wrapping_sub(frames[m].0.sequence, s) as nat;
        if m == frames.len() - 1 {
            assert(slot_filled(w, d as nat));
        } else {
            assert(frames.drop_last()[m] == frames[m]);
            assert(slot_filled(u, d2));
            lemma_seq_add_wrapping_sub(s, frames[m].0.sequence);
            let q2 = seq_add(s, d2);
            let mm = v.mask;
            assert((q2 & mm) <= mm) by (bit_vector);
            if d2 == d as nat {
                assert(q2 == f.sequence);
                assert(slot_filled(w, d2));
            } else {
                if d2 < d as nat {
                    lemma_slot_distinct(s, d2, d as nat, v.mask);
                } else {
                    lemma_slot_distinct(s, d as nat, d2, v.mask);
                }
                assert(w.slots[slot_of(q2, v.mask)] == u.slots[slot_of(q2, v.mask)]);
                assert(slot_filled(w, d2));
            }
        }
    }
}

/// Jitter reordering law, end to end: a fresh buffer that receives frames
/// carrying every sequence from `s` to `s + k` (wrapping) in any arrival
/// order, the first arrival carrying `s` itself and `k` below the
/// capacity, hands the sequences out in ascending order: the `i`-th
/// forced delivery is a frame with sequence `s + i`. Gated deliveries
/// keep the order, since a gated call changes nothing and returns
/// nothing.
pub proof fn lemma_jitter_reorder_in_order(
    v: JitterView,
    frames: Seq<(AudioFrame, u64)>,
    s: u32,
    k: nat,
)
    requires
        jv_wf(v),
        !v.initialized,
        frames.len() > 0,
        frames[0].0.sequence == s,
        k < v.capacity,
        frames_in_window(frames, s, k),
        forall|i: nat|
            #![trigger seq_add(s, i)]
            i <= k ==> (exists|m: int|
                0 <= m < frames.len() && (#[trigger] frames[m]).0.sequence == seq_add(s, i)),
    ensures
        forall|i: nat|
            i <= k ==> ((#[trigger] jv_force_result(jv_run_inserts(v, frames), i)) matches Some(f)
                && f.sequence == seq_add(s, i)),
{
    lemma_inserts_fill_slots(v, frames, s, k);
    let u = jv_run_inserts(v, frames);
    assert forall|i: nat| i <= k implies #[trigger] slot_filled(u, i) by {
        assert(exists|m: int|
            0 <= m < frames.len() && (#[trigger] frames[m]).0.sequence == seq_add(s, i));
        let m = choose|m: int|
            0 <= m < frames.len() && (#[trigger] frames[m]).0.sequence == seq_add(s, i);
        lemma_wrapping_sub_seq_add(s, i);
        assert(u32_specs::wrapping_sub(frames[m].0.sequence, s) as nat == i);
        assert(slot_filled(u, u32_specs::wrapping_sub(frames[m].0.sequence, s) as nat));
    }
    lemma_jitter_delivers_in_order(u, k);
}

} // verus!
