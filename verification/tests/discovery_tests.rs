//! Tests of discovery packets, address ranking and the peer registry.

use lan_audio_streamer::discovery::{
    get_best_local_address, get_broadcast_addresses, ip_priority_score, rank_local_addresses,
    DiscoveryPacket, DiscoveryPacketType, LanAddress, PeerRegistry, PEER_STALE_MS,
};

#[test]
fn test_discovery_packet_serialization() {
    let packet = DiscoveryPacket::new(
        DiscoveryPacketType::SenderBeacon,
        5000,
        "Test Sender".to_string(),
    );

    let data = packet.serialize();
    let parsed = DiscoveryPacket::deserialize(&data).unwrap();

    assert_eq!(parsed.packet_type, DiscoveryPacketType::SenderBeacon);
    assert_eq!(parsed.audio_port, 5000);
    assert_eq!(parsed.name, "Test Sender");
}

#[test]
fn discovery_parse_known_bytes() {
    // A sender beacon for port 5000 named "Test Sender", byte for byte.
    let bytes: [u8; 19] = [
        0x4C, 0x41, 0x4E, 0x44, 0x01, 0x88, 0x13, 0x0B, 0x54, 0x65, 0x73, 0x74, 0x20, 0x53, 0x65,
        0x6E, 0x64, 0x65, 0x72,
    ];
    let parsed = DiscoveryPacket::deserialize(&bytes).unwrap();
    assert_eq!(parsed.packet_type, DiscoveryPacketType::SenderBeacon);
    assert_eq!(parsed.audio_port, 5000);
    assert_eq!(parsed.name, "Test Sender");
}

#[test]
fn discovery_rejects_bad_input() {
    assert!(DiscoveryPacket::deserialize(&[0x4C, 0x41, 0x4E]).is_none());
    // Wrong magic.
    assert!(DiscoveryPacket::deserialize(&[0x4C, 0x41, 0x4E, 0x45, 1, 0, 0, 0]).is_none());
    // Unknown type byte.
    assert!(DiscoveryPacket::deserialize(&[0x4C, 0x41, 0x4E, 0x44, 9, 0, 0, 0]).is_none());
    // Name length overruns the data.
    assert!(DiscoveryPacket::deserialize(&[0x4C, 0x41, 0x4E, 0x44, 1, 0, 0, 5, 0x41]).is_none());
}

#[test]
fn address_scores() {
    assert_eq!(
        ip_priority_score(&LanAddress::V4 { a: 192, b: 168, c: 1, d: 10 }),
        100
    );
    assert_eq!(ip_priority_score(&LanAddress::V4 { a: 10, b: 0, c: 0, d: 1 }), 90);
    assert_eq!(
        ip_priority_score(&LanAddress::V4 { a: 172, b: 20, c: 0, d: 1 }),
        80
    );
    assert_eq!(
        ip_priority_score(&LanAddress::V4 { a: 169, b: 254, c: 0, d: 1 }),
        10
    );
    assert_eq!(ip_priority_score(&LanAddress::V4 { a: 8, b: 8, c: 8, d: 8 }), 50);
    assert_eq!(ip_priority_score(&LanAddress::V6 { hi: 1, lo: 2 }), 20);
}

#[test]
fn ranking_orders_and_dedups() {
    let candidates = vec![
        LanAddress::V4 { a: 8, b: 8, c: 8, d: 8 },
        LanAddress::V4 { a: 127, b: 0, c: 0, d: 1 },
        LanAddress::V4 { a: 192, b: 168, c: 1, d: 2 },
        LanAddress::V4 { a: 192, b: 168, c: 1, d: 2 },
        LanAddress::V4 { a: 10, b: 1, c: 2, d: 3 },
    ];
    let ranked = rank_local_addresses(&candidates);
    assert_eq!(
        ranked,
        vec![
            LanAddress::V4 { a: 192, b: 168, c: 1, d: 2 },
            LanAddress::V4 { a: 10, b: 1, c: 2, d: 3 },
            LanAddress::V4 { a: 8, b: 8, c: 8, d: 8 },
        ]
    );
    assert_eq!(
        get_best_local_address(&candidates),
        Some(LanAddress::V4 { a: 192, b: 168, c: 1, d: 2 })
    );
    assert_eq!(
        get_best_local_address(&vec![LanAddress::V4 { a: 127, b: 0, c: 0, d: 1 }]),
        None
    );
}

#[test]
fn test_get_broadcast_addresses() {
    let locals = vec![
        LanAddress::V4 { a: 192, b: 168, c: 1, d: 7 },
        LanAddress::V4 { a: 192, b: 168, c: 1, d: 9 },
        LanAddress::V6 { hi: 0, lo: 5 },
    ];
    let broadcasts = get_broadcast_addresses(&locals);
    assert!(!broadcasts.is_empty());
    assert!(broadcasts.contains(&LanAddress::V4 { a: 192, b: 168, c: 1, d: 255 }));
    assert!(broadcasts.contains(&LanAddress::V4 { a: 255, b: 255, c: 255, d: 255 }));
    assert_eq!(broadcasts.len(), 2);
}

#[test]
fn registry_same_beacon_counted_once() {
    // The same beacon arriving many times grows the list by exactly one
    // and reports the peer as new exactly once.
    let mut registry = PeerRegistry::new();
    let ip = LanAddress::V4 { a: 192, b: 168, c: 1, d: 3 };
    let mut fresh_count = 0;
    for _ in 0..5 {
        let fresh = registry.observe_beacon(
            ip,
            40000,
            DiscoveryPacketType::SenderBeacon,
            5000,
            "Peer A".to_string(),
            100,
        );
        if fresh {
            fresh_count += 1;
        }
    }
    assert_eq!(fresh_count, 1);
    assert_eq!(registry.len(), 1);
}

#[test]
fn registry_refresh_updates_fields() {
    let mut registry = PeerRegistry::new();
    let ip = LanAddress::V4 { a: 10, b: 0, c: 0, d: 2 };
    registry.observe_beacon(
        ip,
        41000,
        DiscoveryPacketType::SenderBeacon,
        5000,
        "Old Name".to_string(),
        100,
    );
    registry.observe_beacon(
        ip,
        41000,
        DiscoveryPacketType::SenderBeacon,
        6000,
        "New Name".to_string(),
        200,
    );
    let peers = registry.get_peers();
    assert_eq!(peers.len(), 1);
    assert_eq!(peers[0].audio_port, 6000);
    assert_eq!(peers[0].name, "New Name");
    assert_eq!(peers[0].last_seen_ms, 200);
}

#[test]
fn registry_roles_are_distinct_peers() {
    let mut registry = PeerRegistry::new();
    let ip = LanAddress::V4 { a: 10, b: 0, c: 0, d: 2 };
    assert!(registry.observe_beacon(
        ip,
        41000,
        DiscoveryPacketType::SenderBeacon,
        5000,
        "P".to_string(),
        100,
    ));
    assert!(registry.observe_beacon(
        ip,
        41000,
        DiscoveryPacketType::ReceiverBeacon,
        5000,
        "P".to_string(),
        100,
    ));
    assert_eq!(registry.len(), 2);
    assert_eq!(registry.get_senders().len(), 1);
    assert_eq!(registry.get_receivers().len(), 1);
    assert!(registry.find_peer(true).is_some());
    assert!(registry.find_peer(false).is_some());
}

#[test]
fn registry_sweeps_stale_peers() {
    let mut registry = PeerRegistry::new();
    registry.observe_beacon(
        LanAddress::V4 { a: 10, b: 0, c: 0, d: 2 },
        41000,
        DiscoveryPacketType::SenderBeacon,
        5000,
        "Old".to_string(),
        0,
    );
    registry.observe_beacon(
        LanAddress::V4 { a: 10, b: 0, c: 0, d: 3 },
        41000,
        DiscoveryPacketType::SenderBeacon,
        5000,
        "Fresh".to_string(),
        5_000,
    );
    // At t just past the stale window of the first peer, only it is gone.
    registry.sweep_stale(PEER_STALE_MS);
    let peers = registry.get_peers();
    assert_eq!(peers.len(), 1);
    assert_eq!(peers[0].name, "Fresh");
}
