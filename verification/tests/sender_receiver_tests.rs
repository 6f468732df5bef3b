//! Tests of sequence assignment, datagram building, loop policies and
//! per-track receive statistics.

use lan_audio_streamer::protocol::AudioPacket;
use lan_audio_streamer::receiver::{
    classify_datagram, receiver_backoff, BackoffAction, TrackReceiver,
};
use lan_audio_streamer::sender::{sender_poll_timeout_us, MultiTrackSender};

#[test]
fn sender_assigns_consecutive_sequences() {
    let mut sender = MultiTrackSender::new();
    let (s0, d0) = sender.send_audio(5, vec![1, 2, 3], 111, true);
    let (s1, _d1) = sender.send_audio(5, vec![4], 222, true);
    let (s2, _d2) = sender.send_audio(5, vec![5], 333, true);
    assert_eq!((s0, s1, s2), (0, 1, 2));
    // A different track has its own counter.
    let (other, _) = sender.send_audio(6, vec![], 0, false);
    assert_eq!(other, 0);

    // The datagram is a well-formed audio packet carrying the assigned
    // sequence and the stereo flag.
    let packet = AudioPacket::deserialize(&d0).unwrap();
    assert_eq!(packet.track_id, 5);
    assert_eq!(packet.sequence, 0);
    assert_eq!(packet.timestamp, 111);
    assert!(packet.flags.is_stereo());
    assert!(!packet.flags.is_keyframe());
    assert_eq!(&packet.payload[..], &[1, 2, 3]);

    let stats = sender.stats();
    assert_eq!(stats.packets_sent, 4);
    assert_eq!(stats.active_tracks, 2);
    assert!(stats.bytes_sent > 0);
}

#[test]
fn sender_reset_and_remove() {
    let mut sender = MultiTrackSender::new();
    sender.send_audio(1, vec![], 0, false);
    sender.send_audio(1, vec![], 0, false);
    sender.reset_sequence(1);
    let (seq, _) = sender.send_audio(1, vec![], 0, false);
    assert_eq!(seq, 0);
    sender.remove_track(1);
    assert_eq!(sender.stats().active_tracks, 0);
    let (seq_again, _) = sender.send_audio(1, vec![], 0, false);
    assert_eq!(seq_again, 0);
}

#[test]
fn sender_timeout_policy() {
    assert_eq!(sender_poll_timeout_us(0), 100);
    assert_eq!(sender_poll_timeout_us(9), 100);
    assert_eq!(sender_poll_timeout_us(10), 1000);
    assert_eq!(sender_poll_timeout_us(99), 1000);
    assert_eq!(sender_poll_timeout_us(100), 5000);
    assert_eq!(sender_poll_timeout_us(1_000_000), 5000);
}

#[test]
fn receiver_backoff_policy() {
    assert_eq!(receiver_backoff(0), BackoffAction::Spin);
    assert_eq!(receiver_backoff(9), BackoffAction::Spin);
    assert_eq!(receiver_backoff(10), BackoffAction::Yield);
    assert_eq!(receiver_backoff(99), BackoffAction::Yield);
    assert_eq!(receiver_backoff(100), BackoffAction::Sleep);
}

#[test]
fn classify_accepts_audio_and_rejects_noise() {
    let mut sender = MultiTrackSender::new();
    let (_, datagram) = sender.send_audio(9, vec![7, 7], 42, false);
    let received = classify_datagram(&datagram, 123_456).unwrap();
    assert_eq!(received.track_id, 9);
    assert_eq!(received.sequence, 0);
    assert_eq!(received.timestamp, 42);
    assert!(!received.is_stereo);
    assert!(!received.has_fec);
    assert_eq!(received.receive_time_us, 123_456);
    assert_eq!(&received.payload[..], &[7, 7]);

    assert!(classify_datagram(&[0u8; 4], 0).is_none());
    assert!(classify_datagram(b"LAND-not-audio--", 0).is_none());
}

#[test]
fn track_receiver_counts_losses_and_reorders() {
    let mut rx = TrackReceiver::new(3);
    assert_eq!(rx.track_id(), 3);
    rx.record_packet(10);
    rx.record_packet(11);
    // A gap of two: sequences 12 and 13 never arrive.
    rx.record_packet(14);
    // A packet behind the expected one is out of order.
    rx.record_packet(12);
    let stats = rx.stats();
    assert_eq!(stats.packets_received, 4);
    assert_eq!(stats.packets_lost, 2);
    assert_eq!(stats.out_of_order, 1);
    // Two lost out of six accounted.
    assert_eq!(stats.loss_permille, 333);
}

#[test]
fn track_receiver_first_packet_sets_baseline() {
    let mut rx = TrackReceiver::new(0);
    rx.record_packet(1000);
    let stats = rx.stats();
    assert_eq!(stats.packets_received, 1);
    assert_eq!(stats.packets_lost, 0);
    assert_eq!(stats.out_of_order, 0);
    assert_eq!(stats.loss_permille, 0);
}
