//! Tests of capabilities, handshake packets and the handshake manager.

use lan_audio_streamer::discovery::LanAddress;
use lan_audio_streamer::handshake::{
    HandshakeManager, HandshakePacket, HandshakePacketType, HandshakeState, PeerAddr,
    PeerCapabilities, TrackInfo,
};

#[test]
fn test_capabilities_serialization() {
    let caps = PeerCapabilities::full();
    let bytes = caps.to_bytes();
    let restored = PeerCapabilities::from_bytes(&bytes).unwrap();

    assert_eq!(caps.can_send, restored.can_send);
    assert_eq!(caps.can_receive, restored.can_receive);
    assert_eq!(caps.supports_opus, restored.supports_opus);
    assert_eq!(caps.max_tracks, restored.max_tracks);
}

#[test]
fn test_hello_packet() {
    let packet = HandshakePacket::hello(12345, "Test Peer", 5000, PeerCapabilities::full());

    let serialized = packet.serialize();
    let deserialized = HandshakePacket::deserialize(&serialized).unwrap();

    assert_eq!(deserialized.packet_type, HandshakePacketType::Hello);
    assert_eq!(deserialized.session_id, 12345);

    let (port, caps, name) = deserialized.parse_hello().unwrap();
    assert_eq!(port, 5000);
    assert_eq!(name, "Test Peer");
    assert!(caps.can_send);
    assert!(caps.can_receive);
}

#[test]
fn test_track_info_serialization() {
    let track = TrackInfo {
        track_id: 5,
        name: "Микрофон".to_string(),
        bitrate: 128000,
        channels: 2,
        fec_enabled: true,
    };

    let bytes = track.serialize();
    let (restored, _) = TrackInfo::deserialize(&bytes).unwrap();

    assert_eq!(track.track_id, restored.track_id);
    assert_eq!(track.name, restored.name);
    assert_eq!(track.bitrate, restored.bitrate);
    assert_eq!(track.channels, restored.channels);
    assert_eq!(track.fec_enabled, restored.fec_enabled);
}

#[test]
fn test_capabilities_compatibility() {
    let sender = PeerCapabilities::sender_only();
    let receiver = PeerCapabilities::receiver_only();
    let full = PeerCapabilities::full();

    assert!(sender.is_compatible_with(&receiver));
    assert!(receiver.is_compatible_with(&sender));

    assert!(full.is_compatible_with(&sender));
    assert!(full.is_compatible_with(&receiver));
    assert!(full.is_compatible_with(&full));

    assert!(!sender.is_compatible_with(&sender));

    assert!(!receiver.is_compatible_with(&receiver));
}

#[test]
fn sync_response_round_trip() {
    let tracks = vec![
        TrackInfo {
            track_id: 1,
            name: "One".to_string(),
            bitrate: 64000,
            channels: 1,
            fec_enabled: false,
        },
        TrackInfo {
            track_id: 2,
            name: "Two".to_string(),
            bitrate: 128000,
            channels: 2,
            fec_enabled: true,
        },
    ];
    let packet = HandshakePacket::sync_response(77, &tracks);
    assert_eq!(packet.packet_type, HandshakePacketType::SyncResponse);
    let parsed = packet.parse_sync_response();
    assert_eq!(parsed.len(), 2);
    assert_eq!(parsed[0].track_id, 1);
    assert_eq!(parsed[0].name, "One");
    assert_eq!(parsed[1].track_id, 2);
    assert_eq!(parsed[1].bitrate, 128000);
    assert!(parsed[1].fec_enabled);
}

#[test]
fn handshake_rejects_bad_input() {
    assert!(HandshakePacket::deserialize(&[0x4C, 0x41]).is_none());
    // Wrong version.
    let mut bytes = HandshakePacket::ping(1).serialize();
    bytes[4] = 9;
    assert!(HandshakePacket::deserialize(&bytes).is_none());
    // Unknown type byte.
    let mut bytes2 = HandshakePacket::ping(1).serialize();
    bytes2[5] = 0x42;
    assert!(HandshakePacket::deserialize(&bytes2).is_none());
}

fn addr(last_octet: u8) -> PeerAddr {
    PeerAddr { ip: LanAddress::V4 { a: 10, b: 0, c: 0, d: last_octet }, port: 5000 }
}

#[test]
fn manager_hello_connects_compatible_peer() {
    let mut manager = HandshakeManager::new(
        "Local".to_string(),
        5000,
        PeerCapabilities::receiver_only(),
    );
    let hello = HandshakePacket::hello(7, "Remote", 6000, PeerCapabilities::sender_only());
    let reply = manager.process_packet(addr(9), &hello, 1_000).unwrap();
    assert_eq!(reply.packet_type, HandshakePacketType::HelloAck);
    assert_eq!(reply.session_id, 7);
    assert!(manager.is_connected(addr(9)));
    match manager.get_state(addr(9)).unwrap() {
        HandshakeState::Connected { peer_name, audio_port, connected_at_us, .. } => {
            assert_eq!(peer_name, "Remote");
            assert_eq!(audio_port, 6000);
            assert_eq!(connected_at_us, 1_000);
        }
        other => panic!("unexpected state {:?}", other),
    }
    let peers = manager.connected_peers();
    assert_eq!(peers.len(), 1);
    assert_eq!(peers[0].1, "Remote");
    assert_eq!(peers[0].2, 6000);
}

#[test]
fn manager_hello_rejects_incompatible_peer() {
    let mut manager = HandshakeManager::new(
        "Local".to_string(),
        5000,
        PeerCapabilities::sender_only(),
    );
    // Two senders cannot stream to each other.
    let hello = HandshakePacket::hello(8, "Remote", 6000, PeerCapabilities::sender_only());
    let reply = manager.process_packet(addr(9), &hello, 1_000).unwrap();
    assert_eq!(reply.packet_type, HandshakePacketType::ErrorPacket);
    assert_eq!(reply.session_id, 8);
    assert!(!manager.is_connected(addr(9)));
    assert!(matches!(
        manager.get_state(addr(9)),
        Some(HandshakeState::Failed { .. })
    ));
}

#[test]
fn manager_initiate_then_ack() {
    let mut manager =
        HandshakeManager::new("Local".to_string(), 5000, PeerCapabilities::full());
    let hello = manager.initiate(addr(4), 100);
    assert_eq!(hello.packet_type, HandshakePacketType::Hello);
    assert_eq!(hello.session_id, 1);
    assert!(matches!(
        manager.get_state(addr(4)),
        Some(HandshakeState::HelloSent { sent_at_us: 100 })
    ));
    let ack = HandshakePacket::hello_ack(1, "Remote", 6000, PeerCapabilities::full());
    let reply = manager.process_packet(addr(4), &ack, 300);
    assert!(reply.is_none());
    assert!(manager.is_connected(addr(4)));
}

#[test]
fn manager_ping_pong_and_goodbye() {
    let mut manager =
        HandshakeManager::new("Local".to_string(), 5000, PeerCapabilities::full());
    let pong = manager
        .process_packet(addr(2), &HandshakePacket::ping(55), 0)
        .unwrap();
    assert_eq!(pong.packet_type, HandshakePacketType::Pong);
    assert_eq!(pong.session_id, 55);

    manager.initiate(addr(2), 0);
    assert!(manager.get_state(addr(2)).is_some());
    let none = manager.process_packet(addr(2), &HandshakePacket::goodbye(55), 0);
    assert!(none.is_none());
    assert!(manager.get_state(addr(2)).is_none());
}

#[test]
fn manager_error_packet_fails_peer() {
    let mut manager =
        HandshakeManager::new("Local".to_string(), 5000, PeerCapabilities::full());
    let error = HandshakePacket::error(9, "busy");
    assert!(manager.process_packet(addr(3), &error, 0).is_none());
    match manager.get_state(addr(3)).unwrap() {
        HandshakeState::Failed { reason } => assert_eq!(reason, "busy"),
        other => panic!("unexpected state {:?}", other),
    }
}

#[test]
fn manager_sweeps_stale_hellos() {
    let mut manager =
        HandshakeManager::new("Local".to_string(), 5000, PeerCapabilities::full());
    manager.initiate(addr(1), 0);
    let hello = HandshakePacket::hello(3, "Remote", 6000, PeerCapabilities::full());
    manager.process_packet(addr(2), &hello, 100).unwrap();

    // Sweep past the pending Hello's timeout: the pending entry goes, the
    // connected peer stays.
    manager.cleanup_stale(5_000_001, 5_000_000);
    assert!(manager.get_state(addr(1)).is_none());
    assert!(manager.is_connected(addr(2)));
}

#[test]
fn manager_ignores_unsolicited_ack() {
    // A HelloAck with no pending Hello of ours changes nothing.
    let mut manager =
        HandshakeManager::new("Local".to_string(), 5000, PeerCapabilities::full());
    let ack = HandshakePacket::hello_ack(9, "Remote", 6000, PeerCapabilities::full());
    assert!(manager.process_packet(addr(8), &ack, 0).is_none());
    assert!(manager.get_state(addr(8)).is_none());
    assert!(!manager.is_connected(addr(8)));
}
