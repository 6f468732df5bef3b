//! Tests of the adaptive jitter buffer.

use lan_audio_streamer::frame::AudioFrame;
use lan_audio_streamer::jitter::JitterBuffer;

fn frame(seq: u32, ts: u64) -> AudioFrame {
    AudioFrame::new(Vec::new(), 2, ts, seq)
}

#[test]
fn jitter_reorder_delivers_in_order() {
    // Frames arriving 0, 2, 1 at the expected 10 ms cadence come out 0,
    // then 1; the third call finds the level below the target and
    // returns nothing.
    let mut jitter = JitterBuffer::new(16, 2);

    jitter.insert(frame(0, 0), 1_000_000);
    jitter.insert(frame(2, 20_000), 1_010_000);
    jitter.insert(frame(1, 10_000), 1_020_000);

    let f0 = jitter.get_next().unwrap();
    assert_eq!(f0.sequence, 0);

    let f1 = jitter.get_next().unwrap();
    assert_eq!(f1.sequence, 1);

    assert!(jitter.get_next().is_none());
    assert_eq!(jitter.stats().out_of_order, 1);
}

#[test]
fn jitter_late_frames_dropped() {
    // The first insert pins the playback point; frames behind it by less
    // than half the capacity are late and dropped.
    let mut jitter = JitterBuffer::new(16, 2);
    assert!(jitter.insert(frame(2, 0), 1_000_000));
    assert!(!jitter.insert(frame(0, 0), 1_010_000));
    assert!(!jitter.insert(frame(1, 0), 1_020_000));
    assert_eq!(jitter.stats().late, 2);
    assert_eq!(jitter.stats().received, 1);
}

#[test]
fn jitter_counts_loss_on_gap() {
    // Inserting sequences s and s+2 and reading three frames yields s, a
    // miss for s+1 (exactly one loss) and s+2.
    let mut jitter = JitterBuffer::new(16, 1);
    jitter.insert(frame(10, 0), 1_000_000);
    jitter.insert(frame(12, 20_000), 1_010_000);

    let first = jitter.get_next();
    assert_eq!(first.unwrap().sequence, 10);
    let missing = jitter.get_next();
    assert!(missing.is_none());
    assert_eq!(jitter.stats().lost, 1);
    let third = jitter.get_next();
    assert_eq!(third.unwrap().sequence, 12);
    assert_eq!(jitter.stats().lost, 1);
}

#[test]
fn jitter_prebuffers_to_min_delay() {
    let mut jitter = JitterBuffer::new(16, 2);
    jitter.insert(frame(0, 0), 1_000_000);
    // One frame buffered, target two: nothing is delivered yet.
    assert!(jitter.get_next().is_none());
    assert_eq!(jitter.stats().lost, 0);
    // Forcing ignores the threshold.
    let forced = jitter.force_get_next();
    assert_eq!(forced.unwrap().sequence, 0);
}

#[test]
fn jitter_adapts_target_delay_one_step() {
    let mut jitter = JitterBuffer::new(16, 2);
    assert_eq!(jitter.target_delay(), 2);
    // Wildly varying arrival times push the estimate and the target up,
    // one step per insertion at most.
    jitter.insert(frame(0, 0), 1_000_000);
    let t0 = jitter.target_delay();
    jitter.insert(frame(1, 10_000), 1_200_000);
    let t1 = jitter.target_delay();
    assert!(t1 <= t0 + 1);
    jitter.insert(frame(2, 20_000), 1_900_000);
    let t2 = jitter.target_delay();
    assert!(t2 <= t1 + 1);
    assert!(t2 >= 2 && t2 <= 8);
    assert!(jitter.jitter_estimate_us() > 0);
}

#[test]
fn jitter_reset_clears_state() {
    let mut jitter = JitterBuffer::new(16, 2);
    jitter.insert(frame(5, 0), 1_000_000);
    jitter.insert(frame(6, 10_000), 1_010_000);
    jitter.reset();
    assert_eq!(jitter.stats().level, 0);
    assert_eq!(jitter.target_delay(), 2);
    assert_eq!(jitter.jitter_estimate_us(), 0);
    // Cumulative counters survive a reset.
    assert_eq!(jitter.stats().received, 2);
    // After a reset the first insert pins the playback point again.
    jitter.insert(frame(100, 0), 2_000_000);
    jitter.insert(frame(101, 0), 2_010_000);
    let out = jitter.force_get_next().unwrap();
    assert_eq!(out.sequence, 100);
}

#[test]
fn jitter_set_next_sequence() {
    let mut jitter = JitterBuffer::new(16, 1);
    jitter.insert(frame(7, 0), 1_000_000);
    jitter.set_next_sequence(50);
    // Sequence 49 is now late; 50 is deliverable.
    assert!(!jitter.insert(frame(49, 0), 2_000_000));
    assert!(jitter.insert(frame(50, 0), 2_010_000));
    assert_eq!(jitter.get_next().unwrap().sequence, 50);
}

#[test]
fn jitter_duplicate_overwrites_silently() {
    let mut jitter = JitterBuffer::new(16, 1);
    jitter.insert(frame(0, 111), 1_000_000);
    jitter.insert(frame(0, 222), 1_010_000);
    let out = jitter.force_get_next().unwrap();
    assert_eq!(out.timestamp, 222);
    assert_eq!(jitter.stats().received, 2);
}

#[test]
fn jitter_stats_rates() {
    let mut jitter = JitterBuffer::new(16, 1);
    jitter.insert(frame(0, 0), 1_000_000);
    jitter.insert(frame(2, 0), 1_010_000);
    jitter.get_next();
    jitter.get_next();
    jitter.get_next();
    let stats = jitter.stats();
    assert_eq!(stats.received, 2);
    assert_eq!(stats.lost, 1);
    // One loss out of three accounted packets.
    assert_eq!(stats.loss_rate(), 333);
    assert_eq!(stats.late_rate(), 0);
}
