//! Tests of the audio packet wire format.

use lan_audio_streamer::protocol::{AudioPacket, PacketFlags, HEADER_SIZE, MAX_PAYLOAD_SIZE};

#[test]
fn test_packet_serialization() {
    let packet = AudioPacket {
        track_id: 5,
        flags: PacketFlags::new().set_stereo(true).set_keyframe(true),
        sequence: 12345,
        timestamp: 9876543210,
        payload: vec![1, 2, 3, 4, 5],
    };

    let serialized = packet.serialize();
    let deserialized = AudioPacket::deserialize(&serialized).unwrap();

    assert_eq!(deserialized.track_id, 5);
    assert!(deserialized.flags.is_stereo());
    assert!(deserialized.flags.is_keyframe());
    assert_eq!(deserialized.sequence, 12345);
    assert_eq!(deserialized.timestamp, 9876543210);
    assert_eq!(&deserialized.payload[..], &[1, 2, 3, 4, 5]);
}

#[test]
fn test_flags() {
    let flags = PacketFlags::new()
        .set_keyframe(true)
        .set_stereo(true)
        .set_fec(true);

    assert!(flags.is_keyframe());
    assert!(flags.is_stereo());
    assert!(flags.has_fec());
    assert_eq!(flags.as_byte(), 0x07);
}

#[test]
fn packet_wire_layout() {
    // A stereo keyframe packet, byte for byte: magic, track, flags,
    // sequence and timestamp little-endian, then the payload.
    let packet = AudioPacket {
        track_id: 5,
        flags: PacketFlags::new().set_stereo(true).set_keyframe(true),
        sequence: 12345,
        timestamp: 9876543210,
        payload: vec![1, 2, 3, 4, 5],
    };
    let serialized = packet.serialize();
    assert_eq!(
        &serialized[..16],
        &[
            0x01, 0xAF, 0x05, 0x03, 0x39, 0x30, 0x00, 0x00, 0xEA, 0x16, 0xB0, 0x4C, 0x02, 0x00,
            0x00, 0x00
        ]
    );
    assert_eq!(&serialized[16..], &[0x01, 0x02, 0x03, 0x04, 0x05]);
    assert_eq!(packet.total_size(), serialized.len());
}

#[test]
fn packet_rejects_bad_input() {
    // Too short for the header.
    assert!(AudioPacket::deserialize(&[0x01, 0xAF, 0x00]).is_none());
    // Wrong magic.
    let mut bytes = AudioPacket::new(1, 2, 3, vec![9]).serialize();
    bytes[0] = 0x00;
    assert!(AudioPacket::deserialize(&bytes).is_none());
    // An empty datagram.
    assert!(AudioPacket::deserialize(&[]).is_none());
}

#[test]
fn packet_round_trip_empty_payload() {
    let packet = AudioPacket::new(0, 0, 0, Vec::new());
    let serialized = packet.serialize();
    assert_eq!(serialized.len(), HEADER_SIZE);
    let back = AudioPacket::deserialize(&serialized).unwrap();
    assert_eq!(back.track_id, 0);
    assert_eq!(back.sequence, 0);
    assert_eq!(back.timestamp, 0);
    assert!(back.payload.is_empty());
    assert!(!back.flags.is_keyframe());
}

#[test]
fn packet_round_trip_max_payload() {
    let payload = vec![0xABu8; MAX_PAYLOAD_SIZE];
    let packet = AudioPacket::new(255, u32::MAX, u64::MAX, payload.clone());
    let back = AudioPacket::deserialize(&packet.serialize()).unwrap();
    assert_eq!(back.track_id, 255);
    assert_eq!(back.sequence, u32::MAX);
    assert_eq!(back.timestamp, u64::MAX);
    assert_eq!(back.payload, payload);
}
