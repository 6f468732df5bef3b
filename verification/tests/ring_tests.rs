//! Tests of the bounded frame ring.

use lan_audio_streamer::frame::{AudioFrame, FrameChunker};
use lan_audio_streamer::ring::RingBuffer;

fn silent_samples(n: usize) -> Vec<u32> {
    vec![(0.0f32).to_bits(); n]
}

fn loud_samples(n: usize) -> Vec<u32> {
    vec![(1.0f32).to_bits(); n]
}

#[test]
fn test_ring_buffer_basic() {
    let mut buffer = RingBuffer::new(4);

    let frame1 = AudioFrame::new(silent_samples(480), 2, 0, 0);
    let frame2 = AudioFrame::new(loud_samples(480), 2, 10000, 1);

    assert!(buffer.push(frame1));
    assert!(buffer.push(frame2));
    assert_eq!(buffer.len(), 2);

    let popped = buffer.pop().unwrap();
    assert_eq!(popped.sequence, 0);

    let popped = buffer.pop().unwrap();
    assert_eq!(popped.sequence, 1);

    assert!(buffer.is_empty());
}

#[test]
fn ring_overflow_counted() {
    // On a ring of capacity 4, four pushes succeed; the fifth fails and
    // counts exactly one overflow.
    let mut ring = RingBuffer::new(4);
    for seq in 0..4u32 {
        assert!(ring.push(AudioFrame::new(silent_samples(8), 1, 0, seq)));
    }
    assert!(ring.is_full());
    assert!(!ring.push(AudioFrame::new(silent_samples(8), 1, 0, 4)));
    assert_eq!(ring.overflow_count(), 1);
    assert_eq!(ring.len(), 4);
}

#[test]
fn ring_underrun_counted() {
    let mut ring = RingBuffer::new(2);
    assert!(ring.pop().is_none());
    assert_eq!(ring.underrun_count(), 1);
    // try_pop does not count an underrun.
    assert!(ring.try_pop().is_none());
    assert_eq!(ring.underrun_count(), 1);
}

#[test]
fn ring_fifo_order_and_conservation() {
    // Frames come out in push order; successful pushes minus successful
    // pops equal the occupancy.
    let mut ring = RingBuffer::new(3);
    let mut pushed_ok = 0u32;
    let mut popped_ok = 0u32;
    for seq in 0..5u32 {
        if ring.push(AudioFrame::new(silent_samples(4), 1, seq as u64, seq)) {
            pushed_ok += 1;
        }
    }
    let mut expected = 0u32;
    while let Some(frame) = ring.try_pop() {
        assert_eq!(frame.sequence, expected);
        expected += 1;
        popped_ok += 1;
    }
    assert_eq!(pushed_ok, 3);
    assert_eq!(pushed_ok - popped_ok, ring.len() as u32);
    assert_eq!(ring.overflow_count(), 2);
}

#[test]
fn ring_stats_and_fill_level() {
    let mut ring = RingBuffer::new(4);
    assert_eq!(ring.capacity(), 4);
    assert_eq!(ring.fill_level(), 0);
    ring.push(AudioFrame::new(silent_samples(4), 1, 0, 0));
    ring.push(AudioFrame::new(silent_samples(4), 1, 0, 1));
    assert_eq!(ring.fill_level(), 500);
    ring.pop();
    ring.pop();
    ring.pop();
    assert_eq!(ring.underrun_count(), 1);
    ring.reset_stats();
    assert_eq!(ring.underrun_count(), 0);
    assert_eq!(ring.overflow_count(), 0);
}

#[test]
fn frame_geometry() {
    let frame = AudioFrame::new(silent_samples(960), 2, 0, 7);
    assert_eq!(frame.samples_per_channel(), 480);
    assert_eq!(frame.duration_us(48_000), 10_000);
}

#[test]
fn frame_chunker_cuts_frames_in_order() {
    let mut chunker = FrameChunker::new(4);
    chunker.push_samples(&[1, 2, 3]);
    assert!(chunker.next_frame().is_none());
    chunker.push_samples(&[4, 5, 6, 7, 8, 9]);
    assert_eq!(chunker.next_frame().unwrap(), vec![1, 2, 3, 4]);
    assert_eq!(chunker.next_frame().unwrap(), vec![5, 6, 7, 8]);
    assert!(chunker.next_frame().is_none());
    chunker.push_samples(&[10, 11, 12]);
    assert_eq!(chunker.next_frame().unwrap(), vec![9, 10, 11, 12]);
}
