//! Automatic peer discovery on the local network.
//!
//! Peers broadcast small beacon packets (magic `LAND`) on a well-known
//! port and collect the beacons of others into a peer list. This module
//! holds the beacon wire format, the scoring and ranking of local
//! interface addresses, and the peer registry with its staleness sweep.
//! Gathering candidate addresses and moving datagrams is socket work and
//! stays with the caller, which hands in plain values and timestamps.

use vstd::prelude::*;
use vstd::bytes::*;
use vstd::seq_lib::*;
use vstd::slice::{slice_index_get, slice_subrange};
use vstd::utf8::{decode_utf8, encode_utf8, valid_utf8};
use vstd::string::StringSliceAdditionalSpecFns;
use crate::strbytes::{lossy_string, string_bytes};

verus! {

/// Discovery service port, separate from audio streaming.
pub const DISCOVERY_PORT: u16 = 5001;

/// Interval between beacons in milliseconds.
pub const BEACON_INTERVAL_MS: u64 = 1000;

/// Timeout for one-shot peer detection in milliseconds.
pub const DISCOVERY_TIMEOUT_MS: u64 = 5000;

/// A peer not seen for this long is evicted, in milliseconds.
pub const PEER_STALE_MS: u64 = 10_000;

/// The four magic bytes opening every discovery packet: ASCII `LAND`.
pub open spec fn spec_discovery_magic() -> Seq<u8> {
    seq![0x4Cu8, 0x41u8, 0x4Eu8, 0x44u8]
}

/// Discovery packet types.
#[derive(Debug, Clone, Copy, PartialEq, Eq, Structural)]
pub enum DiscoveryPacketType {
    /// A sender announcing itself.
    SenderBeacon,
    /// A receiver announcing itself.
    ReceiverBeacon,
    /// An explicit "who is there" probe.
    Request,
    /// A reply to a probe.
    Response,
}

/// The wire byte of a discovery packet type.
pub open spec fn spec_type_byte(t: DiscoveryPacketType) -> u8 {
    match t {
        DiscoveryPacketType::SenderBeacon => 1,
        DiscoveryPacketType::ReceiverBeacon => 2,
        DiscoveryPacketType::Request => 3,
        DiscoveryPacketType::Response => 4,
    }
}

/// The discovery packet type a wire byte decodes to, if any.
pub open spec fn spec_type_from_byte(b: u8) -> Option<DiscoveryPacketType> {
    if b == 1 {
        Some(DiscoveryPacketType::SenderBeacon)
    } else if b == 2 {
        Some(DiscoveryPacketType::ReceiverBeacon)
    } else if b == 3 {
        Some(DiscoveryPacketType::Request)
    } else if b == 4 {
        Some(DiscoveryPacketType::Response)
    } else {
        None
    }
}

impl DiscoveryPacketType {
    /// The type as its wire byte.
    pub fn to_byte(self) -> (r: u8)
        ensures
            r == spec_type_byte(self),
    {
        match self {
            DiscoveryPacketType::SenderBeacon => 1,
            DiscoveryPacketType::ReceiverBeacon => 2,
            DiscoveryPacketType::Request => 3,
            DiscoveryPacketType::Response => 4,
        }
    }

    /// The type a wire byte decodes to; `None` exactly on unknown bytes.
    pub fn from_byte(b: u8) -> (r: Option<DiscoveryPacketType>)
        ensures
            r == spec_type_from_byte(b),
    {
        if b == 1 {
            Some(DiscoveryPacketType::SenderBeacon)
        } else if b == 2 {
            Some(DiscoveryPacketType::ReceiverBeacon)
        } else if b == 3 {
            Some(DiscoveryPacketType::Request)
        } else if b == 4 {
            Some(DiscoveryPacketType::Response)
        } else {
            None
        }
    }
}

/// A discovery packet: `[magic(4)][type(1)][audio_port(2, LE)][name_len(1)]
/// [name(name_len)]`, the name UTF-8 and truncated at 255 bytes.
#[derive(Debug, Clone)]
pub struct DiscoveryPacket {
    pub packet_type: DiscoveryPacketType,
    pub audio_port: u16,
    pub name: String,
}

/// The name bytes a packet carries: its name's UTF-8 encoding, truncated
/// at 255 bytes.
pub open spec fn spec_name_bytes(name: Seq<char>) -> Seq<u8> {
    let all = encode_utf8(name);
    if all.len() > 255 {
        all.subrange(0, 255)
    } else {
        all
    }
}

/// The wire form of a discovery packet.
pub open spec fn spec_serialize_discovery(
    t: DiscoveryPacketType,
    audio_port: u16,
    name: Seq<char>,
) -> Seq<u8> {
    let nb = spec_name_bytes(name);
    spec_discovery_magic() + seq![spec_type_byte(t)] + spec_u16_to_le_bytes(audio_port) + seq![
        nb.len() as u8,
    ] + nb
}

/// The fields a datagram parses to: `None` when it is shorter than the
/// fixed header, the magic does not match, the type byte is unknown, or
/// the advertised name length overruns the data; otherwise the type, the
/// audio port and the raw name bytes.
pub open spec fn spec_deserialize_discovery(d: Seq<u8>) -> Option<
    (DiscoveryPacketType, u16, Seq<u8>),
> {
    if d.len() < 8 {
        None
    } else if d.subrange(0, 4) != spec_discovery_magic() {
        None
    } else {
        match spec_type_from_byte(d[4]) {
            None => None,
            Some(t) => {
                let name_len = d[7] as int;
                if d.len() < 8 + name_len {
                    None
                } else {
                    Some(
                        (t, spec_u16_from_le_bytes(d.subrange(5, 7)), d.subrange(8, 8 + name_len)),
                    )
                }
            },
        }
    }
}

impl DiscoveryPacket {
    /// A packet from its fields.
    pub fn new(packet_type: DiscoveryPacketType, audio_port: u16, name: String) -> (r:
        DiscoveryPacket)
        ensures
            r.packet_type == packet_type,
            r.audio_port == audio_port,
            r.name@ == name@,
    {
        DiscoveryPacket { packet_type, audio_port, name }
    }

    /// Serialize the packet for broadcast.
    pub fn serialize(&self) -> (r: Vec<u8>)
        ensures
            r@ == spec_serialize_discovery(self.packet_type, self.audio_port, self.name@),
    {
        let name_bytes = string_bytes(self.name.as_str());
        let name_len: usize = if name_bytes.len() > 255 {
            255
        } else {
            name_bytes.len()
        };
        let mut data: Vec<u8> = Vec::new();
        data.push(0x4C);
        data.push(0x41);
        data.push(0x4E);
        data.push(0x44);
        data.push(self.packet_type.to_byte());
        let mut port_bytes = u16_to_le_bytes(self.audio_port);
        data.append(&mut port_bytes);
        data.push(name_len as u8);
        data.extend_from_slice(slice_subrange(name_bytes.as_slice(), 0, name_len));
        proof {
            assert(data@ =~= spec_serialize_discovery(
                self.packet_type,
                self.audio_port,
                self.name@,
            ));
        }
        data
    }

    /// Parse a packet from a datagram. Returns `None` exactly when the
    /// datagram is too short, carries the wrong magic or an unknown type,
    /// or its name length overruns the data; when the name bytes are
    /// valid UTF-8 the parsed name is their decoding.
    pub fn deserialize(data: &[u8]) -> (r: Option<DiscoveryPacket>)
        ensures
            match r {
                Some(p) => {
                    &&& spec_deserialize_discovery(data@) matches Some((t, port, nb))
                    &&& p.packet_type == t
                    &&& p.audio_port == port
                    &&& (valid_utf8(nb) ==> p.name@ == decode_utf8(nb))
                },
                None => spec_deserialize_discovery(data@) is None,
            },
    {
        if data.len() < 8 {
            return None;
        }
        if !(*slice_index_get(data, 0) == 0x4C && *slice_index_get(data, 1) == 0x41
            && *slice_index_get(data, 2) == 0x4E && *slice_index_get(data, 3) == 0x44) {
            proof {
                assert(data@.subrange(0, 4) != spec_discovery_magic());
            }
            return None;
        }
        proof {
            assert(data@.subrange(0, 4) =~= spec_discovery_magic());
        }
        let packet_type = match DiscoveryPacketType::from_byte(*slice_index_get(data, 4)) {
            Some(t) => t,
            None => {
                return None;
            },
        };
        let audio_port = u16_from_le_bytes(slice_subrange(data, 5, 7));
        let name_len = *slice_index_get(data, 7) as usize;
        if data.len() < 8 + name_len {
            return None;
        }
        let name = lossy_string(slice_subrange(data, 8, 8 + name_len));
        Some(DiscoveryPacket { packet_type, audio_port, name })
    }
}

/// A local or remote interface address, carried as plain values. An IPv6
/// address is carried as its two 64-bit halves.
#[derive(Debug, Clone, Copy, PartialEq, Eq, Structural)]
pub enum LanAddress {
    V4 { a: u8, b: u8, c: u8, d: u8 },
    V6 { hi: u64, lo: u64 },
}

/// Whether an address is a loopback address.
pub open spec fn spec_is_loopback(addr: LanAddress) -> bool {
    match addr {
        LanAddress::V4 { a, .. } => a == 127,
        LanAddress::V6 { hi, lo } => hi == 0 && lo == 1,
    }
}

/// Priority score of an address for LAN use: common private IPv4 ranges
/// first (192.168/16 over 10/8 over 172.16/12), link-local last among
/// IPv4, IPv6 below all but link-local.
pub open spec fn spec_score(addr: LanAddress) -> u8 {
    match addr {
        LanAddress::V4 { a, b, .. } => {
            if a == 192 && b == 168 {
                100
            } else if a == 10 {
                90
            } else if a == 172 && 16 <= b <= 31 {
                80
            } else if a == 169 && b == 254 {
                10
            } else {
                50
            }
        },
        LanAddress::V6 { .. } => 20,
    }
}

impl LanAddress {
    /// Whether this is a loopback address.
    pub fn is_loopback(&self) -> (r: bool)
        ensures
            r == spec_is_loopback(*self),
    {
        match self {
            LanAddress::V4 { a, .. } => *a == 127,
            LanAddress::V6 { hi, lo } => *hi == 0 && *lo == 1,
        }
    }
}

/// Priority score of an address for LAN use.
pub fn ip_priority_score(addr: &LanAddress) -> (r: u8)
    ensures
        r == spec_score(*addr),
{
    match addr {
        LanAddress::V4 { a, b, .. } => {
            if *a == 192 && *b == 168 {
                100
            } else if *a == 10 {
                90
            } else if *a == 172 && 16 <= *b && *b <= 31 {
                80
            } else if *a == 169 && *b == 254 {
                10
            } else {
                50
            }
        },
        LanAddress::V6 { .. } => 20,
    }
}

/// Whether a vector of addresses holds a given address.
fn contains_address(v: &Vec<LanAddress>, addr: LanAddress) -> (r: bool)
    ensures
        r == v@.contains(addr),
{
    let mut i: usize = 0;
    while i < v.len()
        invariant
            i <= v@.len(),
            forall|j: int| 0 <= j < i ==> v@[j] != addr,
        decreases v@.len() - i,
    {
        if v[i] == addr {
            return true;
        }
        i = i + 1;
    }
    false
}

/// Order the gathered candidate addresses for LAN use: loopback removed,
/// duplicates removed, the rest sorted by priority score, highest first.
pub fn rank_local_addresses(candidates: &Vec<LanAddress>) -> (r: Vec<LanAddress>)
    ensures
        forall|i: int|
            0 <= i < r@.len() ==> candidates@.contains(#[trigger] r@[i]) && !spec_is_loopback(
                r@[i],
            ),
        forall|j: int|
            0 <= j < candidates@.len() && !spec_is_loopback(#[trigger] candidates@[j])
                ==> r@.contains(candidates@[j]),
        forall|i: int, j: int| 0 <= i < j < r@.len() ==> r@[i] != r@[j],
        forall|i: int, j: int|
            0 <= i < j < r@.len() ==> spec_score(#[trigger] r@[i]) >= spec_score(#[trigger] r@[j]),
{
    // Keep the non-loopback candidates, sorted by score: one pass per
    // score value, highest first, duplicates still allowed.
    let mut sorted: Vec<LanAddress> = Vec::new();
    let mut bound: i16 = 100;
    while bound >= 0
        invariant
            -1 <= bound <= 100,
            forall|i: int|
                0 <= i < sorted@.len() ==> candidates@.contains(#[trigger] sorted@[i])
                    && !spec_is_loopback(sorted@[i]) && spec_score(sorted@[i]) > bound,
            forall|j: int|
                0 <= j < candidates@.len() && !spec_is_loopback(#[trigger] candidates@[j])
                    && spec_score(candidates@[j]) > bound ==> sorted@.contains(candidates@[j]),
            forall|i: int, j: int|
                0 <= i < j < sorted@.len() ==> spec_score(#[trigger] sorted@[i]) >= spec_score(
                    #[trigger] sorted@[j],
                ),
        decreases bound + 1,
    {
        let score: u8 = bound as u8;
        let mut k: usize = 0;
        while k < candidates.len()
            invariant
                k <= candidates@.len(),
                0 <= bound <= 100,
                score == bound,
                forall|i: int|
                    0 <= i < sorted@.len() ==> candidates@.contains(#[trigger] sorted@[i])
                        && !spec_is_loopback(sorted@[i]) && spec_score(sorted@[i]) >= score,
                forall|j: int|
                    0 <= j < candidates@.len() && !spec_is_loopback(#[trigger] candidates@[j])
                        && spec_score(candidates@[j]) > score ==> sorted@.contains(candidates@[j]),
                forall|j: int|
                    0 <= j < k && !spec_is_loopback(#[trigger] candidates@[j]) && spec_score(
                        candidates@[j],
                    ) == score ==> sorted@.contains(candidates@[j]),
                forall|i: int, j: int|
                    0 <= i < j < sorted@.len() ==> spec_score(#[trigger] sorted@[i]) >= spec_score(
                        #[trigger] sorted@[j],
                    ),
            decreases candidates@.len() - k,
        {
            let cand = candidates[k];
            if !cand.is_loopback() && ip_priority_score(&cand) == score {
                proof {
                    assert(candidates@[k as int] == cand);
                }
                let ghost before = sorted@;
                sorted.push(cand);
                proof {
                    assert(sorted@[before.len() as int] == cand);
                    lemma_push_keeps_contains(before, cand);
                }
            }
            k = k + 1;
        }
        bound = bound - 1;
    }
    // Remove duplicates, keeping the first (highest-scoring) occurrence.
    let mut r: Vec<LanAddress> = Vec::new();
    let mut p: usize = 0;
    while p < sorted.len()
        invariant
            p <= sorted@.len(),
            forall|i: int|
                0 <= i < sorted@.len() ==> candidates@.contains(#[trigger] sorted@[i])
                    && !spec_is_loopback(sorted@[i]),
            forall|j: int|
                0 <= j < candidates@.len() && !spec_is_loopback(#[trigger] candidates@[j])
                    ==> sorted@.contains(candidates@[j]),
            forall|i: int, j: int|
                0 <= i < j < sorted@.len() ==> spec_score(#[trigger] sorted@[i]) >= spec_score(
                    #[trigger] sorted@[j],
                ),
            forall|i: int|
                0 <= i < r@.len() ==> candidates@.contains(#[trigger] r@[i]) && !spec_is_loopback(
                    r@[i],
                ),
            forall|j: int| 0 <= j < p ==> r@.contains(#[trigger] sorted@[j]),
            forall|i: int, j: int| 0 <= i < j < r@.len() ==> r@[i] != r@[j],
            forall|i: int, j: int|
                0 <= i < j < r@.len() ==> spec_score(#[trigger] r@[i]) >= spec_score(
                    #[trigger] r@[j],
                ),
            forall|i: int|
                0 <= i < r@.len() && 0 < p ==> spec_score(#[trigger] r@[i]) >= spec_score(
                    sorted@[p - 1],
                ),
            p == 0 ==> r@.len() == 0,
        decreases sorted@.len() - p,
    {
        let cand = sorted[p];
        proof {
            assert(sorted@[p as int] == cand);
            if p > 0 {
                assert(spec_score(sorted@[p - 1]) >= spec_score(sorted@[p as int]));
                assert(forall|i: int|
                    0 <= i < r@.len() ==> spec_score(#[trigger] r@[i]) >= spec_score(cand));
            }
        }
        if !contains_address(&r, cand) {
            let ghost before = r@;
            r.push(cand);
            proof {
                assert(r@[before.len() as int] == cand);
                lemma_push_keeps_contains(before, cand);
            }
        }
        p = p + 1;
    }
    proof {
        assert forall|j: int|
            0 <= j < candidates@.len() && !spec_is_loopback(
                #[trigger] candidates@[j],
            ) implies r@.contains(candidates@[j]) by {
            assert(sorted@.contains(candidates@[j]));
            let w = choose|w: int| 0 <= w < sorted@.len() && sorted@[w] == candidates@[j];
            assert(r@.contains(sorted@[w]));
        }
    }
    r
}

/// The best local address for LAN communication: the highest-scoring
/// non-loopback candidate, `None` when there is none.
pub fn get_best_local_address(candidates: &Vec<LanAddress>) -> (r: Option<LanAddress>)
    ensures
        match r {
            Some(a) => candidates@.contains(a) && !spec_is_loopback(a) && forall|j: int|
                0 <= j < candidates@.len() && !spec_is_loopback(#[trigger] candidates@[j])
                    ==> spec_score(a) >= spec_score(candidates@[j]),
            None => forall|j: int|
                0 <= j < candidates@.len() ==> spec_is_loopback(#[trigger] candidates@[j]),
        },
{
    let ranked = rank_local_addresses(candidates);
    if ranked.len() == 0 {
        proof {
            assert forall|j: int|
                0 <= j < candidates@.len() implies spec_is_loopback(
                #[trigger] candidates@[j],
            ) by {
                if !spec_is_loopback(candidates@[j]) {
                    assert(ranked@.contains(candidates@[j]));
                }
            }
        }
        None
    } else {
        let best = ranked[0];
        proof {
            assert forall|j: int|
                0 <= j < candidates@.len() && !spec_is_loopback(
                    #[trigger] candidates@[j],
                ) implies spec_score(best) >= spec_score(candidates@[j]) by {
                assert(ranked@.contains(candidates@[j]));
                let w = choose|w: int| 0 <= w < ranked@.len() && ranked@[w] == candidates@[j];
            }
        }
        Some(best)
    }
}

/// The broadcast addresses to beacon on: the /24 broadcast of every
/// IPv4 candidate, deduplicated, plus the global broadcast
/// 255.255.255.255.
pub fn get_broadcast_addresses(locals: &Vec<LanAddress>) -> (r: Vec<LanAddress>)
    ensures
        r@.contains(LanAddress::V4 { a: 255, b: 255, c: 255, d: 255 }),
        forall|j: int|
            0 <= j < locals@.len() ==> ((#[trigger] locals@[j]) matches LanAddress::V4 {
                a,
                b,
                c,
                d,
            } ==> r@.contains(LanAddress::V4 { a, b, c, d: 255 })),
        forall|i: int, j: int| 0 <= i < j < r@.len() ==> r@[i] != r@[j],
        forall|i: int|
            0 <= i < r@.len() ==> ((#[trigger] r@[i]) matches LanAddress::V4 { d, .. } && d == 255),
        forall|i: int|
            0 <= i < r@.len() ==> ((#[trigger] r@[i]) == (LanAddress::V4 {
                a: 255,
                b: 255,
                c: 255,
                d: 255,
            }) || (exists|j: int|
                0 <= j < locals@.len() && ((#[trigger] locals@[j]) matches LanAddress::V4 {
                    a,
                    b,
                    c,
                    ..
                } && r@[i] == LanAddress::V4 { a, b, c, d: 255 }))),
{
    let mut r: Vec<LanAddress> = Vec::new();
    let mut i: usize = 0;
    while i < locals.len()
        invariant
            i <= locals@.len(),
            forall|j: int|
                0 <= j < i ==> ((#[trigger] locals@[j]) matches LanAddress::V4 { a, b, c, d }
                    ==> r@.contains(LanAddress::V4 { a, b, c, d: 255 })),
            forall|x: int, y: int| 0 <= x < y < r@.len() ==> r@[x] != r@[y],
            forall|x: int|
                0 <= x < r@.len() ==> ((#[trigger] r@[x]) matches LanAddress::V4 { d, .. } && d
                    == 255),
            forall|x: int|
                0 <= x < r@.len() ==> (exists|j: int|
                    0 <= j < locals@.len() && ((#[trigger] locals@[j]) matches LanAddress::V4 {
                        a,
                        b,
                        c,
                        ..
                    } && (#[trigger] r@[x]) == LanAddress::V4 { a, b, c, d: 255 })),
        decreases locals@.len() - i,
    {
        match locals[i] {
            LanAddress::V4 { a, b, c, d: _ } => {
                let broadcast = LanAddress::V4 { a, b, c, d: 255 };
                if !contains_address(&r, broadcast) {
                    let ghost before = r@;
                    r.push(broadcast);
                    proof {
                        assert(r@[before.len() as int] == broadcast);
                        assert(locals@[i as int] matches LanAddress::V4 { a: a2, b: b2, c: c2, .. }
                            && broadcast == LanAddress::V4 { a: a2, b: b2, c: c2, d: 255 });
                        lemma_push_keeps_contains(before, broadcast);
                    }
                }
            },
            LanAddress::V6 { .. } => {},
        }
        i = i + 1;
    }
    let global = LanAddress::V4 { a: 255, b: 255, c: 255, d: 255 };
    if !contains_address(&r, global) {
        let ghost before = r@;
        r.push(global);
        proof {
            assert(r@[before.len() as int] == global);
            lemma_push_keeps_contains(before, global);
        }
    }
    r
}

/// Pushing keeps every address already contained.
proof fn lemma_push_keeps_contains(s: Seq<LanAddress>, x: LanAddress)
    ensures
        forall|y: LanAddress| s.contains(y) ==> #[trigger] s.push(x).contains(y),
{
    assert forall|y: LanAddress| s.contains(y) implies #[trigger] s.push(x).contains(y) by {
        let w = choose|w: int| 0 <= w < s.len() && s[w] == y;
        assert(s.push(x)[w] == y);
    }
}

/// A peer learned from discovery.
#[derive(Debug, Clone)]
pub struct DiscoveredPeer {
    /// Source address of the beacon.
    pub ip: LanAddress,
    /// Source port of the beacon.
    pub port: u16,
    /// The peer's audio socket port, as advertised.
    pub audio_port: u16,
    /// The peer's name, as advertised.
    pub name: String,
    /// Whether the peer beacons as a sender.
    pub is_sender: bool,
    /// When the peer was last seen, in milliseconds.
    pub last_seen_ms: u64,
}

impl DiscoveredPeer {
    /// The address to stream audio to: the peer's source address with its
    /// advertised audio port.
    pub fn audio_address(&self) -> (r: (LanAddress, u16))
        ensures
            r.0 == self.ip,
            r.1 == self.audio_port,
    {
        (self.ip, self.audio_port)
    }
}

/// Whether a registry entry matches a beacon's identity: same source
/// address and same role.
pub open spec fn peer_matches(p: DiscoveredPeer, ip: LanAddress, is_sender: bool) -> bool {
    p.ip == ip && p.is_sender == is_sender
}

/// Whether a peer list holds an entry for a beacon's identity.
pub open spec fn has_peer(peers: Seq<DiscoveredPeer>, ip: LanAddress, is_sender: bool) -> bool {
    exists|i: int| 0 <= i < peers.len() && peer_matches(#[trigger] peers[i], ip, is_sender)
}

/// The entry a beacon refreshes an existing peer to: address and role
/// kept, port, name and last-seen time updated.
pub open spec fn refreshed_peer(
    p: DiscoveredPeer,
    audio_port: u16,
    name: String,
    now_ms: u64,
) -> DiscoveredPeer {
    DiscoveredPeer {
        ip: p.ip,
        port: p.port,
        is_sender: p.is_sender,
        audio_port,
        name,
        last_seen_ms: now_ms,
    }
}

/// The entry a beacon from an unknown peer appends.
pub open spec fn new_peer(
    ip: LanAddress,
    port: u16,
    is_sender: bool,
    audio_port: u16,
    name: String,
    now_ms: u64,
) -> DiscoveredPeer {
    DiscoveredPeer { ip, port, audio_port, name, is_sender, last_seen_ms: now_ms }
}

/// Effect of one beacon on a peer list: the first entry with the same
/// source address and role is refreshed, or a new entry is appended; the
/// flag says whether the peer was new (the discovery callback fires
/// exactly then).
pub open spec fn spec_observe(
    peers: Seq<DiscoveredPeer>,
    ip: LanAddress,
    port: u16,
    is_sender: bool,
    audio_port: u16,
    name: String,
    now_ms: u64,
) -> (Seq<DiscoveredPeer>, bool)
    decreases peers.len(),
{
    if peers.len() == 0 {
        (seq![new_peer(ip, port, is_sender, audio_port, name, now_ms)], true)
    } else if peer_matches(peers[0], ip, is_sender) {
        (seq![refreshed_peer(peers[0], audio_port, name, now_ms)] + peers.drop_first(), false)
    } else {
        let rest = spec_observe(peers.drop_first(), ip, port, is_sender, audio_port, name, now_ms);
        (seq![peers[0]] + rest.0, rest.1)
    }
}

/// The beacon flag is fresh exactly when no entry matched, and the list
/// grows exactly by one then.
pub proof fn lemma_observe_len(
    peers: Seq<DiscoveredPeer>,
    ip: LanAddress,
    port: u16,
    is_sender: bool,
    audio_port: u16,
    name: String,
    now_ms: u64,
)
    ensures
        spec_observe(peers, ip, port, is_sender, audio_port, name, now_ms).1 == !has_peer(
            peers,
            ip,
            is_sender,
        ),
        spec_observe(peers, ip, port, is_sender, audio_port, name, now_ms).0.len() == peers.len()
            + if has_peer(peers, ip, is_sender) {
            0int
        } else {
            1int
        },
        has_peer(
            spec_observe(peers, ip, port, is_sender, audio_port, name, now_ms).0,
            ip,
            is_sender,
        ),
    decreases peers.len(),
{
    let r = spec_observe(peers, ip, port, is_sender, audio_port, name, now_ms);
    if peers.len() == 0 {
        assert(!has_peer(peers, ip, is_sender));
        assert(peer_matches(r.0[0], ip, is_sender));
    } else if peer_matches(peers[0], ip, is_sender) {
        assert(peer_matches(peers[0], ip, is_sender));
        assert(has_peer(peers, ip, is_sender));
        assert(peer_matches(r.0[0], ip, is_sender));
    } else {
        lemma_observe_len(peers.drop_first(), ip, port, is_sender, audio_port, name, now_ms);
        let rest = spec_observe(peers.drop_first(), ip, port, is_sender, audio_port, name, now_ms);
        assert(has_peer(peers, ip, is_sender) == has_peer(peers.drop_first(), ip, is_sender)) by {
            if has_peer(peers, ip, is_sender) {
                let w = choose|w: int|
                    0 <= w < peers.len() && peer_matches(#[trigger] peers[w], ip, is_sender);
                assert(peer_matches(peers.drop_first()[w - 1], ip, is_sender));
            }
            if has_peer(peers.drop_first(), ip, is_sender) {
                let w = choose|w: int|
                    0 <= w < peers.drop_first().len() && peer_matches(
                        #[trigger] peers.drop_first()[w],
                        ip,
                        is_sender,
                    );
                assert(peer_matches(peers[w + 1], ip, is_sender));
            }
        }
        let w = choose|w: int|
            0 <= w < rest.0.len() && peer_matches(#[trigger] rest.0[w], ip, is_sender);
        assert(peer_matches(r.0[w + 1], ip, is_sender));
    }
}

/// The peer list and callback count after the same beacon arrives `n`
/// times.
pub open spec fn spec_observe_n(
    peers: Seq<DiscoveredPeer>,
    ip: LanAddress,
    port: u16,
    is_sender: bool,
    audio_port: u16,
    name: String,
    now_ms: u64,
    n: nat,
) -> (Seq<DiscoveredPeer>, nat)
    decreases n,
{
    if n == 0 {
        (peers, 0)
    } else {
        let prev = spec_observe_n(
            peers,
            ip,
            port,
            is_sender,
            audio_port,
            name,
            now_ms,
            (n - 1) as nat,
        );
        let step = spec_observe(prev.0, ip, port, is_sender, audio_port, name, now_ms);
        (
            step.0,
            prev.1 + if step.1 {
                1nat
            } else {
                0nat
            },
        )
    }
}

/// Discovery idempotence law: when the same beacon arrives `n` times, the
/// peer list grows by exactly one entry if the peer was unknown and by
/// none otherwise, and the discovery callback fires exactly once for an
/// unknown peer and never for a known one.
pub proof fn lemma_discovery_idempotence(
    peers: Seq<DiscoveredPeer>,
    ip: LanAddress,
    port: u16,
    is_sender: bool,
    audio_port: u16,
    name: String,
    now_ms: u64,
    n: nat,
)
    requires
        n >= 1,
    ensures
        spec_observe_n(peers, ip, port, is_sender, audio_port, name, now_ms, n).1 == if has_peer(
            peers,
            ip,
            is_sender,
        ) {
            0nat
        } else {
            1nat
        },
        spec_observe_n(peers, ip, port, is_sender, audio_port, name, now_ms, n).0.len()
            == peers.len() + if has_peer(peers, ip, is_sender) {
            0int
        } else {
            1int
        },
    decreases n,
{
    if n == 1 {
        lemma_observe_len(peers, ip, port, is_sender, audio_port, name, now_ms);
    } else {
        lemma_discovery_idempotence(
            peers,
            ip,
            port,
            is_sender,
            audio_port,
            name,
            now_ms,
            (n - 1) as nat,
        );
        let prev = spec_observe_n(
            peers,
            ip,
            port,
            is_sender,
            audio_port,
            name,
            now_ms,
            (n - 1) as nat,
        );
        lemma_prev_has(peers, ip, port, is_sender, audio_port, name, now_ms, (n - 1) as nat);
        lemma_observe_len(prev.0, ip, port, is_sender, audio_port, name, now_ms);
    }
}

/// After at least one observation the peer is in the list.
proof fn lemma_prev_has(
    peers: Seq<DiscoveredPeer>,
    ip: LanAddress,
    port: u16,
    is_sender: bool,
    audio_port: u16,
    name: String,
    now_ms: u64,
    n: nat,
)
    requires
        n >= 1,
    ensures
        has_peer(
            spec_observe_n(peers, ip, port, is_sender, audio_port, name, now_ms, n).0,
            ip,
            is_sender,
        ),
    decreases n,
{
    let prev = spec_observe_n(
        peers,
        ip,
        port,
        is_sender,
        audio_port,
        name,
        now_ms,
        (n - 1) as nat,
    );
    lemma_observe_len(prev.0, ip, port, is_sender, audio_port, name, now_ms);
}

/// The peers seen recently enough to keep at time `now_ms`.
pub open spec fn fresh_peers(peers: Seq<DiscoveredPeer>, now_ms: u64) -> Seq<DiscoveredPeer> {
    peers.filter(|p: DiscoveredPeer| p.last_seen_ms + PEER_STALE_MS > now_ms)
}

/// The peers with the given role.
pub open spec fn peers_with_role(peers: Seq<DiscoveredPeer>, is_sender: bool) -> Seq<
    DiscoveredPeer,
> {
    peers.filter(|p: DiscoveredPeer| p.is_sender == is_sender)
}

/// One element extends the fresh-peer filter as expected.
proof fn lemma_fresh_peers_push(s: Seq<DiscoveredPeer>, x: DiscoveredPeer, now_ms: u64)
    ensures
        fresh_peers(s.push(x), now_ms) == if x.last_seen_ms + PEER_STALE_MS > now_ms {
            fresh_peers(s, now_ms).push(x)
        } else {
            fresh_peers(s, now_ms)
        },
{
    broadcast use Seq::lemma_filter_push;

}

/// One element extends the role filter as expected.
proof fn lemma_role_push(s: Seq<DiscoveredPeer>, x: DiscoveredPeer, is_sender: bool)
    ensures
        peers_with_role(s.push(x), is_sender) == if x.is_sender == is_sender {
            peers_with_role(s, is_sender).push(x)
        } else {
            peers_with_role(s, is_sender)
        },
{
    broadcast use Seq::lemma_filter_push;

}

/// The peer list held by the discovery listener.
pub struct PeerRegistry {
    peers: Vec<DiscoveredPeer>,
}

impl View for PeerRegistry {
    type V = Seq<DiscoveredPeer>;

    closed spec fn view(&self) -> Seq<DiscoveredPeer> {
        self.peers@
    }
}

impl PeerRegistry {
    /// An empty registry.
    pub fn new() -> (r: PeerRegistry)
        ensures
            r@ == Seq::<DiscoveredPeer>::empty(),
    {
        PeerRegistry { peers: Vec::new() }
    }

    /// Number of peers currently known.
    pub fn len(&self) -> (r: usize)
        ensures
            r == self@.len(),
    {
        self.peers.len()
    }

    /// Record a discovery packet received from `(ip, port)` at `now_ms`.
    /// The first entry with the same source address and role is refreshed;
    /// an unknown peer is appended. Returns true exactly when the peer was
    /// new: the caller fires its discovery callback then, so the callback
    /// fires exactly once per peer.
    pub fn observe_beacon(
        &mut self,
        ip: LanAddress,
        port: u16,
        packet_type: DiscoveryPacketType,
        audio_port: u16,
        name: String,
        now_ms: u64,
    ) -> (fresh: bool)
        ensures
            ({
                let is_sender = packet_type is SenderBeacon;
                let step = spec_observe(old(self)@, ip, port, is_sender, audio_port, name, now_ms);
                final(self)@ == step.0 && fresh == step.1
            }),
    {
        let is_sender = match packet_type {
            DiscoveryPacketType::SenderBeacon => true,
            _ => false,
        };
        let ghost target = spec_observe(old(self)@, ip, port, is_sender, audio_port, name, now_ms);
        let mut i: usize = 0;
        let len = self.peers.len();
        while i < len
            invariant
                i <= len,
                len == self@.len(),
                self@ == old(self)@,
                is_sender == packet_type is SenderBeacon,
                forall|j: int| 0 <= j < i ==> !peer_matches(#[trigger] self@[j], ip, is_sender),
            decreases len - i,
        {
            if self.peers[i].ip == ip && self.peers[i].is_sender == is_sender {
                let old_ip = self.peers[i].ip;
                let old_port = self.peers[i].port;
                let refreshed = DiscoveredPeer {
                    ip: old_ip,
                    port: old_port,
                    audio_port,
                    name,
                    is_sender,
                    last_seen_ms: now_ms,
                };
                proof {
                    assert(peer_matches(self@[i as int], ip, is_sender));
                }
                self.peers[i] = refreshed;
                proof {
                    lemma_observe_update_first(
                        old(self)@,
                        ip,
                        port,
                        is_sender,
                        audio_port,
                        name,
                        now_ms,
                        i as int,
                    );
                    assert(refreshed == refreshed_peer(old(self)@[i as int], audio_port, name, now_ms));
                    assert(self@ == old(self)@.update(
                        i as int,
                        refreshed_peer(old(self)@[i as int], audio_port, name, now_ms),
                    ));
                    assert(self@ =~= spec_observe(
                        old(self)@,
                        ip,
                        port,
                        is_sender,
                        audio_port,
                        name,
                        now_ms,
                    ).0);
                    assert(is_sender == packet_type is SenderBeacon);
                }
                return false;
            }
            i = i + 1;
        }
        let fresh_peer = DiscoveredPeer {
            ip,
            port,
            audio_port,
            name,
            is_sender,
            last_seen_ms: now_ms,
        };
        self.peers.push(fresh_peer);
        proof {
            lemma_observe_append(old(self)@, ip, port, is_sender, audio_port, name, now_ms);
            assert(self@ =~= spec_observe(
                old(self)@,
                ip,
                port,
                is_sender,
                audio_port,
                name,
                now_ms,
            ).0);
        }
        true
    }

    /// Evict peers not seen within the staleness window.
    pub fn sweep_stale(&mut self, now_ms: u64)
        ensures
            final(self)@ == fresh_peers(old(self)@, now_ms),
    {
        broadcast use Seq::lemma_filter_push;

        let mut kept: Vec<DiscoveredPeer> = Vec::new();
        let mut i: usize = 0;
        let len = self.peers.len();
        while i < len
            invariant
                i <= len,
                len == self@.len(),
                self@ == old(self)@,
                kept@ == fresh_peers(self@.take(i as int), now_ms),
            decreases len - i,
        {
            let p = &self.peers[i];
            proof {
                assert(self@.take(i + 1) =~= self@.take(i as int).push(self@[i as int]));
                lemma_fresh_peers_push(self@.take(i as int), self@[i as int], now_ms);
            }
            let fresh = p.last_seen_ms >= now_ms || now_ms - p.last_seen_ms < PEER_STALE_MS;
            if fresh {
                let copy = DiscoveredPeer {
                    ip: p.ip,
                    port: p.port,
                    audio_port: p.audio_port,
                    name: p.name.clone(),
                    is_sender: p.is_sender,
                    last_seen_ms: p.last_seen_ms,
                };
                proof {
                    assert(copy == self@[i as int]);
                }
                kept.push(copy);
            }
            i = i + 1;
        }
        proof {
            assert(self@.take(len as int) =~= self@);
        }
        self.peers = kept;
    }

    /// A copy of the peer list.
    pub fn get_peers(&self) -> (r: Vec<DiscoveredPeer>)
        ensures
            r@ == self@,
    {
        let mut r: Vec<DiscoveredPeer> = Vec::new();
        let mut i: usize = 0;
        while i < self.peers.len()
            invariant
                i <= self@.len(),
                r@ =~= self@.take(i as int),
            decreases self@.len() - i,
        {
            let p = &self.peers[i];
            let copy = DiscoveredPeer {
                ip: p.ip,
                port: p.port,
                audio_port: p.audio_port,
                name: p.name.clone(),
                is_sender: p.is_sender,
                last_seen_ms: p.last_seen_ms,
            };
            proof {
                assert(copy == self@[i as int]);
            }
            r.push(copy);
            proof {
                assert(r@ =~= self@.take(i + 1));
            }
            i = i + 1;
        }
        proof {
            assert(self@.take(self@.len() as int) =~= self@);
        }
        r
    }

    /// The known peers beaconing as senders.
    pub fn get_senders(&self) -> (r: Vec<DiscoveredPeer>)
        ensures
            r@ == peers_with_role(self@, true),
    {
        broadcast use Seq::lemma_filter_push;

        let mut r: Vec<DiscoveredPeer> = Vec::new();
        let mut i: usize = 0;
        while i < self.peers.len()
            invariant
                i <= self@.len(),
                r@ == peers_with_role(self@.take(i as int), true),
            decreases self@.len() - i,
        {
            let p = &self.peers[i];
            proof {
                assert(self@.take(i + 1) =~= self@.take(i as int).push(self@[i as int]));
                lemma_role_push(self@.take(i as int), self@[i as int], true);
            }
            if p.is_sender {
                let copy = DiscoveredPeer {
                    ip: p.ip,
                    port: p.port,
                    audio_port: p.audio_port,
                    name: p.name.clone(),
                    is_sender: p.is_sender,
                    last_seen_ms: p.last_seen_ms,
                };
                proof {
                    assert(copy == self@[i as int]);
                }
                r.push(copy);
            } else {
                proof {
                    assert(self@[i as int].is_sender != true);
                }
            }
            i = i + 1;
        }
        proof {
            assert(self@.take(self@.len() as int) =~= self@);
        }
        r
    }

    /// The known peers beaconing as receivers.
    pub fn get_receivers(&self) -> (r: Vec<DiscoveredPeer>)
        ensures
            r@ == peers_with_role(self@, false),
    {
        broadcast use Seq::lemma_filter_push;

        let mut r: Vec<DiscoveredPeer> = Vec::new();
        let mut i: usize = 0;
        while i < self.peers.len()
            invariant
                i <= self@.len(),
                r@ == peers_with_role(self@.take(i as int), false),
            decreases self@.len() - i,
        {
            let p = &self.peers[i];
            proof {
                assert(self@.take(i + 1) =~= self@.take(i as int).push(self@[i as int]));
                lemma_role_push(self@.take(i as int), self@[i as int], false);
            }
            if !p.is_sender {
                let copy = DiscoveredPeer {
                    ip: p.ip,
                    port: p.port,
                    audio_port: p.audio_port,
                    name: p.name.clone(),
                    is_sender: p.is_sender,
                    last_seen_ms: p.last_seen_ms,
                };
                proof {
                    assert(copy == self@[i as int]);
                }
                r.push(copy);
            } else {
                proof {
                    assert(self@[i as int].is_sender != false);
                }
            }
            i = i + 1;
        }
        proof {
            assert(self@.take(self@.len() as int) =~= self@);
        }
        r
    }

    /// The first known peer with the given role, if any. A caller polling
    /// for a peer uses this as its exit test.
    pub fn find_peer(&self, is_sender: bool) -> (r: Option<DiscoveredPeer>)
        ensures
            match r {
                Some(p) => self@.contains(p) && p.is_sender == is_sender,
                None => forall|j: int| 0 <= j < self@.len() ==> (#[trigger] self@[j]).is_sender != is_sender,
            },
    {
        let mut i: usize = 0;
        while i < self.peers.len()
            invariant
                i <= self@.len(),
                forall|j: int| 0 <= j < i ==> (#[trigger] self@[j]).is_sender != is_sender,
            decreases self@.len() - i,
        {
            let p = &self.peers[i];
            if p.is_sender == is_sender {
                let copy = DiscoveredPeer {
                    ip: p.ip,
                    port: p.port,
                    audio_port: p.audio_port,
                    name: p.name.clone(),
                    is_sender: p.is_sender,
                    last_seen_ms: p.last_seen_ms,
                };
                proof {
                    assert(self@[i as int] == copy);
                }
                return Some(copy);
            }
            i = i + 1;
        }
        None
    }
}

/// Refreshing the first matching entry realises one observation step.
proof fn lemma_observe_update_first(
    peers: Seq<DiscoveredPeer>,
    ip: LanAddress,
    port: u16,
    is_sender: bool,
    audio_port: u16,
    name: String,
    now_ms: u64,
    i: int,
)
    requires
        0 <= i < peers.len(),
        peer_matches(peers[i], ip, is_sender),
        forall|j: int| 0 <= j < i ==> !peer_matches(#[trigger] peers[j], ip, is_sender),
    ensures
        spec_observe(peers, ip, port, is_sender, audio_port, name, now_ms).0 =~= peers.update(
            i,
            refreshed_peer(peers[i], audio_port, name, now_ms),
        ),
        !spec_observe(peers, ip, port, is_sender, audio_port, name, now_ms).1,
    decreases peers.len(),
{
    if i == 0 {
        assert(spec_observe(peers, ip, port, is_sender, audio_port, name, now_ms).0 =~= peers.update(
            0,
            refreshed_peer(peers[0], audio_port, name, now_ms),
        ));
    } else {
        assert(!peer_matches(peers[0], ip, is_sender));
        assert(forall|j: int|
            0 <= j < i - 1 ==> !peer_matches(#[trigger] peers.drop_first()[j], ip, is_sender));
        lemma_observe_update_first(
            peers.drop_first(),
            ip,
            port,
            is_sender,
            audio_port,
            name,
            now_ms,
            i - 1,
        );
        assert(spec_observe(peers, ip, port, is_sender, audio_port, name, now_ms).0 =~= peers.update(
            i,
            refreshed_peer(peers[i], audio_port, name, now_ms),
        ));
    }
}

/// Appending a new entry realises one observation step for an unknown
/// peer.
proof fn lemma_observe_append(
    peers: Seq<DiscoveredPeer>,
    ip: LanAddress,
    port: u16,
    is_sender: bool,
    audio_port: u16,
    name: String,
    now_ms: u64,
)
    requires
        forall|j: int| 0 <= j < peers.len() ==> !peer_matches(#[trigger] peers[j], ip, is_sender),
    ensures
        spec_observe(peers, ip, port, is_sender, audio_port, name, now_ms).0 =~= peers.push(
            new_peer(ip, port, is_sender, audio_port, name, now_ms),
        ),
        spec_observe(peers, ip, port, is_sender, audio_port, name, now_ms).1,
    decreases peers.len(),
{
    if peers.len() == 0 {
        assert(spec_observe(peers, ip, port, is_sender, audio_port, name, now_ms).0 =~= peers.push(
            new_peer(ip, port, is_sender, audio_port, name, now_ms),
        ));
    } else {
        assert(forall|j: int|
            0 <= j < peers.drop_first().len() ==> !peer_matches(
                #[trigger] peers.drop_first()[j],
                ip,
                is_sender,
            ));
        lemma_observe_append(peers.drop_first(), ip, port, is_sender, audio_port, name, now_ms);
        assert(spec_observe(peers, ip, port, is_sender, audio_port, name, now_ms).0 =~= peers.push(
            new_peer(ip, port, is_sender, audio_port, name, now_ms),
        ));
    }
}

} // verus!
