//! Peer handshake: capability exchange and session negotiation.
//!
//! A handshake packet is `[magic LAHS(4)][version(1)][type(1)]
//! [session_id(4, LE)][payload]`. A Hello or HelloAck payload carries
//! `audio_port(2, LE)`, two capability bytes, a name length and the name.
//! A SyncResponse payload carries a track count and that many encoded
//! track records. The manager at the end of this module drives the
//! per-peer state machine over these packets.

use vstd::prelude::*;
use vstd::bytes::*;
use vstd::slice::{slice_index_get, slice_subrange};
use vstd::utf8::{decode_utf8, encode_utf8, valid_utf8};
use vstd::string::StringSliceAdditionalSpecFns;
use crate::discovery::LanAddress;
use crate::strbytes::{lossy_string, string_bytes};

verus! {

/// Handshake protocol version.
pub const PROTOCOL_VERSION: u8 = 1;

/// The four magic bytes opening every handshake packet: ASCII `LAHS`.
pub open spec fn spec_handshake_magic() -> Seq<u8> {
    seq![0x4Cu8, 0x41u8, 0x48u8, 0x53u8]
}

/// Handshake packet types.
#[derive(Debug, Clone, Copy, PartialEq, Eq, Structural)]
pub enum HandshakePacketType {
    /// A greeting carrying the sender's capabilities.
    Hello,
    /// The reply to a greeting, carrying the replier's capabilities.
    HelloAck,
    /// A request for the peer's track list.
    SyncRequest,
    /// The track list reply.
    SyncResponse,
    /// A liveness probe.
    Ping,
    /// The reply to a probe.
    Pong,
    /// An orderly disconnect.
    Goodbye,
    /// An error report.
    ErrorPacket,
}

/// The wire byte of a handshake packet type.
pub open spec fn spec_hs_type_byte(t: HandshakePacketType) -> u8 {
    match t {
        HandshakePacketType::Hello => 0x01,
        HandshakePacketType::HelloAck => 0x02,
        HandshakePacketType::SyncRequest => 0x03,
        HandshakePacketType::SyncResponse => 0x04,
        HandshakePacketType::Ping => 0x05,
        HandshakePacketType::Pong => 0x06,
        HandshakePacketType::Goodbye => 0x07,
        HandshakePacketType::ErrorPacket => 0xFF,
    }
}

/// The handshake packet type a wire byte decodes to, if any.
pub open spec fn spec_hs_type_from_byte(b: u8) -> Option<HandshakePacketType> {
    if b == 0x01 {
        Some(HandshakePacketType::Hello)
    } else if b == 0x02 {
        Some(HandshakePacketType::HelloAck)
    } else if b == 0x03 {
        Some(HandshakePacketType::SyncRequest)
    } else if b == 0x04 {
        Some(HandshakePacketType::SyncResponse)
    } else if b == 0x05 {
        Some(HandshakePacketType::Ping)
    } else if b == 0x06 {
        Some(HandshakePacketType::Pong)
    } else if b == 0x07 {
        Some(HandshakePacketType::Goodbye)
    } else if b == 0xFF {
        Some(HandshakePacketType::ErrorPacket)
    } else {
        None
    }
}

impl HandshakePacketType {
    /// The type as its wire byte.
    pub fn to_byte(self) -> (r: u8)
        ensures
            r == spec_hs_type_byte(self),
    {
        match self {
            HandshakePacketType::Hello => 0x01,
            HandshakePacketType::HelloAck => 0x02,
            HandshakePacketType::SyncRequest => 0x03,
            HandshakePacketType::SyncResponse => 0x04,
            HandshakePacketType::Ping => 0x05,
            HandshakePacketType::Pong => 0x06,
            HandshakePacketType::Goodbye => 0x07,
            HandshakePacketType::ErrorPacket => 0xFF,
        }
    }

    /// The type a wire byte decodes to; `None` exactly on unknown bytes.
    pub fn from_byte(b: u8) -> (r: Option<HandshakePacketType>)
        ensures
            r == spec_hs_type_from_byte(b),
    {
        if b == 0x01 {
            Some(HandshakePacketType::Hello)
        } else if b == 0x02 {
            Some(HandshakePacketType::HelloAck)
        } else if b == 0x03 {
            Some(HandshakePacketType::SyncRequest)
        } else if b == 0x04 {
            Some(HandshakePacketType::SyncResponse)
        } else if b == 0x05 {
            Some(HandshakePacketType::Ping)
        } else if b == 0x06 {
            Some(HandshakePacketType::Pong)
        } else if b == 0x07 {
            Some(HandshakePacketType::Goodbye)
        } else if b == 0xFF {
            Some(HandshakePacketType::ErrorPacket)
        } else {
            None
        }
    }
}

/// What a peer can do, as exchanged during the handshake.
#[derive(Debug, Clone, Copy, PartialEq, Eq, Structural)]
pub struct PeerCapabilities {
    /// Can send audio.
    pub can_send: bool,
    /// Can receive audio.
    pub can_receive: bool,
    /// Supports the Opus codec.
    pub supports_opus: bool,
    /// Supports forward error correction.
    pub supports_fec: bool,
    /// Supports stereo.
    pub supports_stereo: bool,
    /// Maximum number of tracks.
    pub max_tracks: u8,
}

/// The flags byte of a capability record: bit 0 send, bit 1 receive,
/// bit 2 Opus, bit 3 FEC, bit 4 stereo.
pub open spec fn spec_caps_flags(c: PeerCapabilities) -> u8 {
    ((if c.can_send {
        0x01u8
    } else {
        0u8
    }) | (if c.can_receive {
        0x02u8
    } else {
        0u8
    }) | (if c.supports_opus {
        0x04u8
    } else {
        0u8
    }) | (if c.supports_fec {
        0x08u8
    } else {
        0u8
    }) | (if c.supports_stereo {
        0x10u8
    } else {
        0u8
    })) as u8
}

/// The capabilities a flags byte and a track bound decode to.
pub open spec fn spec_caps_from(flags: u8, max_tracks: u8) -> PeerCapabilities {
    PeerCapabilities {
        can_send: flags & 0x01 != 0,
        can_receive: flags & 0x02 != 0,
        supports_opus: flags & 0x04 != 0,
        supports_fec: flags & 0x08 != 0,
        supports_stereo: flags & 0x10 != 0,
        max_tracks,
    }
}

/// Two peers are compatible when one can send and the other receive, in
/// either direction, and both support Opus.
pub open spec fn spec_compatible(a: PeerCapabilities, b: PeerCapabilities) -> bool {
    ((a.can_send && b.can_receive) || (a.can_receive && b.can_send)) && a.supports_opus
        && b.supports_opus
}

/// Full capabilities: both directions and all features.
pub open spec fn spec_full_caps() -> PeerCapabilities {
    PeerCapabilities {
        can_send: true,
        can_receive: true,
        supports_opus: true,
        supports_fec: true,
        supports_stereo: true,
        max_tracks: 16,
    }
}

/// Send-only capabilities.
pub open spec fn spec_sender_only_caps() -> PeerCapabilities {
    PeerCapabilities { can_receive: false, ..spec_full_caps() }
}

/// Receive-only capabilities.
pub open spec fn spec_receiver_only_caps() -> PeerCapabilities {
    PeerCapabilities { can_send: false, ..spec_full_caps() }
}

impl PeerCapabilities {
    /// Full capabilities: sending and receiving.
    pub fn full() -> (r: PeerCapabilities)
        ensures
            r == spec_full_caps(),
    {
        PeerCapabilities {
            can_send: true,
            can_receive: true,
            supports_opus: true,
            supports_fec: true,
            supports_stereo: true,
            max_tracks: 16,
        }
    }

    /// Sending only.
    pub fn sender_only() -> (r: PeerCapabilities)
        ensures
            r == spec_sender_only_caps(),
    {
        PeerCapabilities {
            can_send: true,
            can_receive: false,
            supports_opus: true,
            supports_fec: true,
            supports_stereo: true,
            max_tracks: 16,
        }
    }

    /// Receiving only.
    pub fn receiver_only() -> (r: PeerCapabilities)
        ensures
            r == spec_receiver_only_caps(),
    {
        PeerCapabilities {
            can_send: false,
            can_receive: true,
            supports_opus: true,
            supports_fec: true,
            supports_stereo: true,
            max_tracks: 16,
        }
    }

    /// The two wire bytes of the capabilities: the flags byte and the
    /// track bound.
    pub fn to_bytes(&self) -> (r: [u8; 2])
        ensures
            r@ == seq![spec_caps_flags(*self), self.max_tracks],
    {
        let flags: u8 = (if self.can_send {
            0x01u8
        } else {
            0u8
        }) | (if self.can_receive {
            0x02u8
        } else {
            0u8
        }) | (if self.supports_opus {
            0x04u8
        } else {
            0u8
        }) | (if self.supports_fec {
            0x08u8
        } else {
            0u8
        }) | (if self.supports_stereo {
            0x10u8
        } else {
            0u8
        });
        let r = [flags, self.max_tracks];
        proof {
            assert(r@ =~= seq![spec_caps_flags(*self), self.max_tracks]);
        }
        r
    }

    /// Capabilities from their two wire bytes; `None` exactly when fewer
    /// than two bytes are given.
    pub fn from_bytes(data: &[u8]) -> (r: Option<PeerCapabilities>)
        ensures
            data@.len() < 2 ==> r is None,
            data@.len() >= 2 ==> r == Some(spec_caps_from(data@[0], data@[1])),
    {
        if data.len() < 2 {
            return None;
        }
        let flags = *slice_index_get(data, 0);
        Some(
            PeerCapabilities {
                can_send: flags & 0x01 != 0,
                can_receive: flags & 0x02 != 0,
                supports_opus: flags & 0x04 != 0,
                supports_fec: flags & 0x08 != 0,
                supports_stereo: flags & 0x10 != 0,
                max_tracks: *slice_index_get(data, 1),
            },
        )
    }

    /// Whether this peer can stream with the other: one sends and the
    /// other receives, in either direction, and both support Opus.
    pub fn is_compatible_with(&self, other: &PeerCapabilities) -> (r: bool)
        ensures
            r == spec_compatible(*self, *other),
    {
        let can_stream = (self.can_send && other.can_receive) || (self.can_receive
            && other.can_send);
        let codec_compatible = self.supports_opus && other.supports_opus;
        can_stream && codec_compatible
    }
}

/// Handshake compatibility law: a send-only peer is compatible with a
/// receive-only peer (in both directions) and not with another send-only
/// peer, and a fully capable peer is compatible with every peer that
/// supports Opus and has at least one direction.
pub proof fn lemma_handshake_compatibility(x: PeerCapabilities)
    requires
        x.supports_opus,
        x.can_send || x.can_receive,
    ensures
        spec_compatible(spec_sender_only_caps(), spec_receiver_only_caps()),
        spec_compatible(spec_receiver_only_caps(), spec_sender_only_caps()),
        !spec_compatible(spec_sender_only_caps(), spec_sender_only_caps()),
        !spec_compatible(spec_receiver_only_caps(), spec_receiver_only_caps()),
        spec_compatible(spec_full_caps(), x),
        spec_compatible(x, spec_full_caps()),
{
}

/// A track record as exchanged in a sync response.
#[derive(Debug, Clone)]
pub struct TrackInfo {
    pub track_id: u8,
    pub name: String,
    /// Bitrate in bits per second.
    pub bitrate: u32,
    pub channels: u16,
    pub fec_enabled: bool,
}

/// The name bytes a track record carries: the UTF-8 encoding truncated at
/// 255 bytes.
pub open spec fn spec_track_name_bytes(name: Seq<char>) -> Seq<u8> {
    let all = encode_utf8(name);
    if all.len() > 255 {
        all.subrange(0, 255)
    } else {
        all
    }
}

/// The wire form of one track record: id, bitrate, channels, FEC flag,
/// name length, name.
pub open spec fn spec_serialize_track(
    track_id: u8,
    bitrate: u32,
    channels: u16,
    fec_enabled: bool,
    name: Seq<char>,
) -> Seq<u8> {
    let nb = spec_track_name_bytes(name);
    seq![track_id] + spec_u32_to_le_bytes(bitrate) + spec_u16_to_le_bytes(channels) + seq![
        if fec_enabled {
            1u8
        } else {
            0u8
        },
        nb.len() as u8,
    ] + nb
}

/// The raw fields one track record parses to, with how many bytes it
/// consumed: `None` when the record is shorter than its fixed part or its
/// name overruns the data.
pub open spec fn spec_parse_track(d: Seq<u8>) -> Option<((u8, u32, u16, bool, Seq<u8>), int)> {
    if d.len() < 9 {
        None
    } else {
        let name_len = d[8] as int;
        if d.len() < 9 + name_len {
            None
        } else {
            Some(
                (
                    (
                        d[0],
                        spec_u32_from_le_bytes(d.subrange(1, 5)),
                        spec_u16_from_le_bytes(d.subrange(5, 7)),
                        d[7] != 0,
                        d.subrange(9, 9 + name_len),
                    ),
                    9 + name_len,
                ),
            )
        }
    }
}

impl TrackInfo {
    /// Serialize the record for a sync response.
    pub fn serialize(&self) -> (r: Vec<u8>)
        ensures
            r@ == spec_serialize_track(
                self.track_id,
                self.bitrate,
                self.channels,
                self.fec_enabled,
                self.name@,
            ),
    {
        let name_bytes = string_bytes(self.name.as_str());
        let name_len: usize = if name_bytes.len() > 255 {
            255
        } else {
            name_bytes.len()
        };
        let mut buf: Vec<u8> = Vec::new();
        buf.push(self.track_id);
        let mut bitrate_bytes = u32_to_le_bytes(self.bitrate);
        buf.append(&mut bitrate_bytes);
        let mut channel_bytes = u16_to_le_bytes(self.channels);
        buf.append(&mut channel_bytes);
        buf.push(if self.fec_enabled {
            1
        } else {
            0
        });
        buf.push(name_len as u8);
        buf.extend_from_slice(slice_subrange(name_bytes.as_slice(), 0, name_len));
        proof {
            assert(buf@ =~= spec_serialize_track(
                self.track_id,
                self.bitrate,
                self.channels,
                self.fec_enabled,
                self.name@,
            ));
        }
        buf
    }

    /// Parse one record from the front of `data`, returning it and the
    /// number of bytes consumed. `None` exactly when the record is
    /// incomplete; a name of valid UTF-8 parses to its decoding.
    pub fn deserialize(data: &[u8]) -> (r: Option<(TrackInfo, usize)>)
        ensures
            match r {
                Some((t, consumed)) => {
                    &&& spec_parse_track(data@) matches Some((f, c))
                    &&& t.track_id == f.0
                    &&& t.bitrate == f.1
                    &&& t.channels == f.2
                    &&& t.fec_enabled == f.3
                    &&& (valid_utf8(f.4) ==> t.name@ == decode_utf8(f.4))
                    &&& consumed == c
                },
                None => spec_parse_track(data@) is None,
            },
    {
        if data.len() < 9 {
            return None;
        }
        let track_id = *slice_index_get(data, 0);
        let bitrate = u32_from_le_bytes(slice_subrange(data, 1, 5));
        let channels = u16_from_le_bytes(slice_subrange(data, 5, 7));
        let fec_enabled = *slice_index_get(data, 7) != 0;
        let name_len = *slice_index_get(data, 8) as usize;
        if data.len() < 9 + name_len {
            return None;
        }
        let name = lossy_string(slice_subrange(data, 9, 9 + name_len));
        Some((TrackInfo { track_id, name, bitrate, channels, fec_enabled }, 9 + name_len))
    }
}

/// A handshake packet: its type, the session id matching responses to
/// requests, and the type-specific payload.
#[derive(Debug, Clone)]
pub struct HandshakePacket {
    pub packet_type: HandshakePacketType,
    pub session_id: u32,
    pub payload: Vec<u8>,
}

/// The payload of a Hello or HelloAck: audio port, capability bytes, name
/// length and name (truncated at 255 bytes).
pub open spec fn spec_hello_payload(
    audio_port: u16,
    caps: PeerCapabilities,
    name: Seq<char>,
) -> Seq<u8> {
    let nb = spec_track_name_bytes(name);
    spec_u16_to_le_bytes(audio_port) + seq![spec_caps_flags(caps), caps.max_tracks, nb.len() as u8]
        + nb
}

/// The fields a Hello payload parses to: `None` when it is shorter than
/// its fixed part or the name overruns it.
pub open spec fn spec_parse_hello(d: Seq<u8>) -> Option<(u16, PeerCapabilities, Seq<u8>)> {
    if d.len() < 5 {
        None
    } else {
        let name_len = d[4] as int;
        if d.len() < 5 + name_len {
            None
        } else {
            Some(
                (
                    spec_u16_from_le_bytes(d.subrange(0, 2)),
                    spec_caps_from(d[2], d[3]),
                    d.subrange(5, 5 + name_len),
                ),
            )
        }
    }
}

/// The wire form of a handshake packet.
pub open spec fn spec_serialize_handshake(
    t: HandshakePacketType,
    session_id: u32,
    payload: Seq<u8>,
) -> Seq<u8> {
    spec_handshake_magic() + seq![PROTOCOL_VERSION, spec_hs_type_byte(t)] + spec_u32_to_le_bytes(
        session_id,
    ) + payload
}

/// The fields a datagram parses to: `None` when it is shorter than the
/// header, the magic or version does not match, or the type byte is
/// unknown.
pub open spec fn spec_deserialize_handshake(d: Seq<u8>) -> Option<
    (HandshakePacketType, u32, Seq<u8>),
> {
    if d.len() < 10 {
        None
    } else if d.subrange(0, 4) != spec_handshake_magic() {
        None
    } else if d[4] != PROTOCOL_VERSION {
        None
    } else {
        match spec_hs_type_from_byte(d[5]) {
            None => None,
            Some(t) => Some(
                (t, spec_u32_from_le_bytes(d.subrange(6, 10)), d.subrange(10, d.len() as int)),
            ),
        }
    }
}

impl HandshakePacket {
    /// A Hello packet carrying this peer's port, capabilities and name.
    pub fn hello(session_id: u32, name: &str, audio_port: u16, capabilities: PeerCapabilities)
        -> (r: HandshakePacket)
        ensures
            r.packet_type == HandshakePacketType::Hello,
            r.session_id == session_id,
            r.payload@ == spec_hello_payload(audio_port, capabilities, name@),
    {
        let name_bytes = string_bytes(name);
        let name_len: usize = if name_bytes.len() > 255 {
            255
        } else {
            name_bytes.len()
        };
        let mut payload: Vec<u8> = Vec::new();
        let mut port_bytes = u16_to_le_bytes(audio_port);
        payload.append(&mut port_bytes);
        let caps_bytes = capabilities.to_bytes();
        payload.push(caps_bytes[0]);
        payload.push(caps_bytes[1]);
        payload.push(name_len as u8);
        payload.extend_from_slice(slice_subrange(name_bytes.as_slice(), 0, name_len));
        proof {
            assert(payload@ =~= spec_hello_payload(audio_port, capabilities, name@));
        }
        HandshakePacket { packet_type: HandshakePacketType::Hello, session_id, payload }
    }

    /// A HelloAck packet with the same payload layout as a Hello.
    pub fn hello_ack(session_id: u32, name: &str, audio_port: u16, capabilities: PeerCapabilities)
        -> (r: HandshakePacket)
        ensures
            r.packet_type == HandshakePacketType::HelloAck,
            r.session_id == session_id,
            r.payload@ == spec_hello_payload(audio_port, capabilities, name@),
    {
        let mut packet = Self::hello(session_id, name, audio_port, capabilities);
        packet.packet_type = HandshakePacketType::HelloAck;
        packet
    }

    /// Parse the port, capabilities and name out of a Hello or HelloAck
    /// payload. `None` exactly when the payload is incomplete; a name of
    /// valid UTF-8 parses to its decoding.
    pub fn parse_hello(&self) -> (r: Option<(u16, PeerCapabilities, String)>)
        ensures
            match r {
                Some((port, caps, name)) => {
                    &&& spec_parse_hello(self.payload@) matches Some((p, c, nb))
                    &&& port == p
                    &&& caps == c
                    &&& (valid_utf8(nb) ==> name@ == decode_utf8(nb))
                },
                None => spec_parse_hello(self.payload@) is None,
            },
    {
        if self.payload.len() < 5 {
            return None;
        }
        let audio_port = u16_from_le_bytes(slice_subrange(self.payload.as_slice(), 0, 2));
        let caps = match PeerCapabilities::from_bytes(
            slice_subrange(self.payload.as_slice(), 2, 4),
        ) {
            Some(c) => c,
            None => {
                return None;
            },
        };
        let name_len = self.payload[4] as usize;
        if self.payload.len() < 5 + name_len {
            return None;
        }
        let name = lossy_string(slice_subrange(self.payload.as_slice(), 5, 5 + name_len));
        Some((audio_port, caps, name))
    }

    /// A SyncRequest packet with an empty payload.
    pub fn sync_request(session_id: u32) -> (r: HandshakePacket)
        ensures
            r.packet_type == HandshakePacketType::SyncRequest,
            r.session_id == session_id,
            r.payload@ == Seq::<u8>::empty(),
    {
        HandshakePacket {
            packet_type: HandshakePacketType::SyncRequest,
            session_id,
            payload: Vec::new(),
        }
    }

    /// A Ping packet with an empty payload.
    pub fn ping(session_id: u32) -> (r: HandshakePacket)
        ensures
            r.packet_type == HandshakePacketType::Ping,
            r.session_id == session_id,
            r.payload@ == Seq::<u8>::empty(),
    {
        HandshakePacket { packet_type: HandshakePacketType::Ping, session_id, payload: Vec::new() }
    }

    /// A Pong packet with an empty payload.
    pub fn pong(session_id: u32) -> (r: HandshakePacket)
        ensures
            r.packet_type == HandshakePacketType::Pong,
            r.session_id == session_id,
            r.payload@ == Seq::<u8>::empty(),
    {
        HandshakePacket { packet_type: HandshakePacketType::Pong, session_id, payload: Vec::new() }
    }

    /// A Goodbye packet with an empty payload.
    pub fn goodbye(session_id: u32) -> (r: HandshakePacket)
        ensures
            r.packet_type == HandshakePacketType::Goodbye,
            r.session_id == session_id,
            r.payload@ == Seq::<u8>::empty(),
    {
        HandshakePacket {
            packet_type: HandshakePacketType::Goodbye,
            session_id,
            payload: Vec::new(),
        }
    }

    /// An Error packet: a message length byte and the message, truncated
    /// at 255 bytes.
    pub fn error(session_id: u32, message: &str) -> (r: HandshakePacket)
        ensures
            r.packet_type == HandshakePacketType::ErrorPacket,
            r.session_id == session_id,
            r.payload@ == ({
                let mb = spec_track_name_bytes(message@);
                seq![mb.len() as u8] + mb
            }),
    {
        let msg_bytes = string_bytes(message);
        let msg_len: usize = if msg_bytes.len() > 255 {
            255
        } else {
            msg_bytes.len()
        };
        let mut payload: Vec<u8> = Vec::new();
        payload.push(msg_len as u8);
        payload.extend_from_slice(slice_subrange(msg_bytes.as_slice(), 0, msg_len));
        proof {
            let mb = spec_track_name_bytes(message@);
            assert(payload@ =~= seq![mb.len() as u8] + mb);
        }
        HandshakePacket {
            packet_type: HandshakePacketType::ErrorPacket,
            session_id,
            payload,
        }
    }

    /// Parse the message out of an Error payload: the empty string for an
    /// empty payload, `None` when the advertised length overruns the
    /// payload; a message of valid UTF-8 parses to its decoding.
    pub fn parse_error(&self) -> (r: Option<String>)
        ensures
            self.payload@.len() == 0 ==> (r matches Some(m) && m@ == Seq::<char>::empty()),
            self.payload@.len() > 0 && self.payload@.len() < 1 + self.payload@[0] ==> r is None,
            self.payload@.len() > 0 && self.payload@.len() >= 1 + self.payload@[0] ==> (
            r matches Some(m) && (valid_utf8(self.payload@.subrange(1, 1 + self.payload@[0]))
                ==> m@ == decode_utf8(self.payload@.subrange(1, 1 + self.payload@[0])))),
    {
        if self.payload.len() == 0 {
            return Some(String::new());
        }
        let msg_len = self.payload[0] as usize;
        if self.payload.len() < 1 + msg_len {
            return None;
        }
        Some(lossy_string(slice_subrange(self.payload.as_slice(), 1, 1 + msg_len)))
    }

    /// Serialize the packet for transmission.
    pub fn serialize(&self) -> (r: Vec<u8>)
        ensures
            r@ == spec_serialize_handshake(self.packet_type, self.session_id, self.payload@),
    {
        let mut buf: Vec<u8> = Vec::new();
        buf.push(0x4C);
        buf.push(0x41);
        buf.push(0x48);
        buf.push(0x53);
        buf.push(PROTOCOL_VERSION);
        buf.push(self.packet_type.to_byte());
        let mut session_bytes = u32_to_le_bytes(self.session_id);
        buf.append(&mut session_bytes);
        buf.extend_from_slice(self.payload.as_slice());
        proof {
            assert(buf@ =~= spec_serialize_handshake(
                self.packet_type,
                self.session_id,
                self.payload@,
            ));
        }
        buf
    }

    /// Parse a packet from a datagram. Returns `None` exactly when the
    /// datagram is too short, carries the wrong magic or version, or an
    /// unknown type byte.
    pub fn deserialize(data: &[u8]) -> (r: Option<HandshakePacket>)
        ensures
            match r {
                Some(p) => {
                    &&& spec_deserialize_handshake(data@) matches Some((t, session, payload))
                    &&& p.packet_type == t
                    &&& p.session_id == session
                    &&& p.payload@ == payload
                },
                None => spec_deserialize_handshake(data@) is None,
            },
    {
        if data.len() < 10 {
            return None;
        }
        if !(*slice_index_get(data, 0) == 0x4C && *slice_index_get(data, 1) == 0x41
            && *slice_index_get(data, 2) == 0x48 && *slice_index_get(data, 3) == 0x53) {
            proof {
                assert(data@.subrange(0, 4) != spec_handshake_magic());
            }
            return None;
        }
        proof {
            assert(data@.subrange(0, 4) =~= spec_handshake_magic());
        }
        if *slice_index_get(data, 4) != PROTOCOL_VERSION {
            return None;
        }
        let packet_type = match HandshakePacketType::from_byte(*slice_index_get(data, 5)) {
            Some(t) => t,
            None => {
                return None;
            },
        };
        let session_id = u32_from_le_bytes(slice_subrange(data, 6, 10));
        let payload = vstd::slice::slice_to_vec(slice_subrange(data, 10, data.len()));
        Some(HandshakePacket { packet_type, session_id, payload })
    }
}

/// The concatenated wire form of a list of track records.
pub open spec fn spec_tracks_payload(ts: Seq<TrackInfo>) -> Seq<u8>
    decreases ts.len(),
{
    if ts.len() == 0 {
        Seq::empty()
    } else {
        spec_tracks_payload(ts.drop_last()) + spec_serialize_track(
            ts.last().track_id,
            ts.last().bitrate,
            ts.last().channels,
            ts.last().fec_enabled,
            ts.last().name@,
        )
    }
}

/// The raw track records a sync-response body parses to: up to `count`
/// records from the front, stopping at the first incomplete one.
pub open spec fn spec_parse_tracks(d: Seq<u8>, count: nat) -> Seq<(u8, u32, u16, bool, Seq<u8>)>
    decreases count,
{
    if count == 0 || d.len() == 0 {
        Seq::empty()
    } else {
        match spec_parse_track(d) {
            None => Seq::empty(),
            Some((f, c)) => seq![f] + spec_parse_tracks(d.skip(c), (count - 1) as nat),
        }
    }
}

/// Whether parsed track records carry the raw fields, names decoded from
/// valid UTF-8.
pub open spec fn tracks_match(r: Seq<TrackInfo>, f: Seq<(u8, u32, u16, bool, Seq<u8>)>) -> bool {
    &&& r.len() == f.len()
    &&& forall|i: int|
        0 <= i < r.len() ==> {
            &&& (#[trigger] r[i]).track_id == f[i].0
            &&& r[i].bitrate == f[i].1
            &&& r[i].channels == f[i].2
            &&& r[i].fec_enabled == f[i].3
            &&& (valid_utf8(f[i].4) ==> r[i].name@ == decode_utf8(f[i].4))
        }
}

/// Up to `count` track records parsed from the front of `data`.
fn parse_tracks(data: &[u8], count: u8) -> (r: Vec<TrackInfo>)
    ensures
        tracks_match(r@, spec_parse_tracks(data@, count as nat)),
    decreases count,
{
    if count == 0 || data.len() == 0 {
        return Vec::new();
    }
    match TrackInfo::deserialize(data) {
        None => Vec::new(),
        Some((t, consumed)) => {
            let mut rest = parse_tracks(
                slice_subrange(data, consumed, data.len()),
                count - 1,
            );
            rest.insert(0, t);
            proof {
                let f = spec_parse_tracks(data@, count as nat);
                assert(rest@ =~= seq![t] + rest@.drop_first());
                assert(tracks_match(rest@, f));
            }
            rest
        },
    }
}

impl HandshakePacket {
    /// A SyncResponse packet carrying the given track records: a count
    /// byte, then the records back to back.
    pub fn sync_response(session_id: u32, tracks: &Vec<TrackInfo>) -> (r: HandshakePacket)
        requires
            tracks@.len() <= 255,
        ensures
            r.packet_type == HandshakePacketType::SyncResponse,
            r.session_id == session_id,
            r.payload@ == seq![tracks@.len() as u8] + spec_tracks_payload(tracks@),
    {
        let mut payload: Vec<u8> = Vec::new();
        payload.push(tracks.len() as u8);
        let mut i: usize = 0;
        while i < tracks.len()
            invariant
                i <= tracks@.len(),
                tracks@.len() <= 255,
                payload@ == seq![tracks@.len() as u8] + spec_tracks_payload(tracks@.take(i as int)),
            decreases tracks@.len() - i,
        {
            let mut record = tracks[i].serialize();
            payload.append(&mut record);
            proof {
                assert(tracks@.take(i + 1).drop_last() =~= tracks@.take(i as int));
                assert(tracks@.take(i + 1).last() == tracks@[i as int]);
                assert(payload@ =~= seq![tracks@.len() as u8] + spec_tracks_payload(
                    tracks@.take(i + 1),
                ));
            }
            i = i + 1;
        }
        proof {
            assert(tracks@.take(tracks@.len() as int) =~= tracks@);
        }
        HandshakePacket {
            packet_type: HandshakePacketType::SyncResponse,
            session_id,
            payload,
        }
    }

    /// Parse the track records out of a SyncResponse payload: the empty
    /// list for an empty payload, otherwise up to the advertised count of
    /// records, stopping at the first incomplete one.
    pub fn parse_sync_response(&self) -> (r: Vec<TrackInfo>)
        ensures
            self.payload@.len() == 0 ==> r@.len() == 0,
            self.payload@.len() > 0 ==> tracks_match(
                r@,
                spec_parse_tracks(
                    self.payload@.subrange(1, self.payload@.len() as int),
                    self.payload@[0] as nat,
                ),
            ),
    {
        if self.payload.len() == 0 {
            return Vec::new();
        }
        let count = self.payload[0];
        parse_tracks(
            slice_subrange(self.payload.as_slice(), 1, self.payload.len()),
            count,
        )
    }
}

/// A remote peer's address for handshake bookkeeping.
#[derive(Debug, Clone, Copy, PartialEq, Eq, Structural)]
pub struct PeerAddr {
    pub ip: LanAddress,
    pub port: u16,
}

/// Handshake state with one remote peer.
#[derive(Debug, Clone)]
pub enum HandshakeState {
    /// Nothing exchanged yet.
    Idle,
    /// A Hello went out; waiting for the HelloAck.
    HelloSent { sent_at_us: u64 },
    /// A Hello came in and was acknowledged.
    HelloReceived { peer_caps: PeerCapabilities },
    /// The handshake completed.
    Connected {
        peer_name: String,
        peer_caps: PeerCapabilities,
        audio_port: u16,
        connected_at_us: u64,
    },
    /// The handshake failed.
    Failed { reason: String },
}

/// The state stored for an address, if any: addresses are unique in a
/// well-formed table, so the first match is the only one.
pub open spec fn state_of(
    states: Seq<(PeerAddr, HandshakeState)>,
    addr: PeerAddr,
) -> Option<HandshakeState>
    decreases states.len(),
{
    if states.len() == 0 {
        None
    } else if states[0].0 == addr {
        Some(states[0].1)
    } else {
        state_of(states.drop_first(), addr)
    }
}

/// A handshake table holds each address at most once.
pub open spec fn unique_addrs(states: Seq<(PeerAddr, HandshakeState)>) -> bool {
    forall|i: int, j: int|
        0 <= i < j < states.len() ==> (#[trigger] states[i]).0 != (#[trigger] states[j]).0
}

/// Whether an entry survives a staleness sweep at `now_us`: a pending
/// Hello only within the timeout, a failed handshake never, every other
/// state always.
pub open spec fn keeps_state(st: HandshakeState, now_us: u64, timeout_us: u64) -> bool {
    match st {
        HandshakeState::HelloSent { sent_at_us } => sent_at_us + timeout_us > now_us,
        HandshakeState::Failed { .. } => false,
        _ => true,
    }
}

/// The entries surviving a staleness sweep.
pub open spec fn swept_states(
    states: Seq<(PeerAddr, HandshakeState)>,
    now_us: u64,
    timeout_us: u64,
) -> Seq<(PeerAddr, HandshakeState)> {
    states.filter(|e: (PeerAddr, HandshakeState)| keeps_state(e.1, now_us, timeout_us))
}

/// Whether a listing entry corresponds to a connected peer in the table.
pub open spec fn connected_entry(
    states: Seq<(PeerAddr, HandshakeState)>,
    e: (PeerAddr, String, u16),
) -> bool {
    exists|j: int|
        0 <= j < states.len() && (#[trigger] states[j]).0 == e.0 && (states[j].1 matches
        HandshakeState::Connected { peer_name, audio_port, .. } && peer_name == e.1 && audio_port
            == e.2)
}

/// Drives the handshake state machine, one state per remote address.
pub struct HandshakeManager {
    our_name: String,
    our_audio_port: u16,
    our_capabilities: PeerCapabilities,
    states: Vec<(PeerAddr, HandshakeState)>,
    next_session_id: u32,
}

impl HandshakeManager {
    /// The state table.
    pub closed spec fn spec_states(&self) -> Seq<(PeerAddr, HandshakeState)> {
        self.states@
    }

    /// This peer's name.
    pub closed spec fn spec_name(&self) -> Seq<char> {
        self.our_name@
    }

    /// This peer's audio port.
    pub closed spec fn spec_audio_port(&self) -> u16 {
        self.our_audio_port
    }

    /// This peer's capabilities.
    pub closed spec fn spec_capabilities(&self) -> PeerCapabilities {
        self.our_capabilities
    }

    /// The session id the next initiation will use.
    pub closed spec fn spec_next_session_id(&self) -> u32 {
        self.next_session_id
    }

    /// Addresses are unique in the table.
    pub open spec fn wf(&self) -> bool {
        unique_addrs(self.spec_states())
    }

    /// The fixed parts of the manager are unchanged.
    pub open spec fn same_identity(&self, other: &HandshakeManager) -> bool {
        &&& self.spec_name() == other.spec_name()
        &&& self.spec_audio_port() == other.spec_audio_port()
        &&& self.spec_capabilities() == other.spec_capabilities()
    }

    /// A manager with no per-peer state; session ids start at one.
    pub fn new(name: String, audio_port: u16, capabilities: PeerCapabilities) -> (r:
        HandshakeManager)
        ensures
            r.wf(),
            r.spec_states() == Seq::<(PeerAddr, HandshakeState)>::empty(),
            r.spec_name() == name@,
            r.spec_audio_port() == audio_port,
            r.spec_capabilities() == capabilities,
            r.spec_next_session_id() == 1,
    {
        HandshakeManager {
            our_name: name,
            our_audio_port: audio_port,
            our_capabilities: capabilities,
            states: Vec::new(),
            next_session_id: 1,
        }
    }

    /// Store a state for an address: the existing entry is replaced, or a
    /// new one appended.
    fn set_state(&mut self, addr: PeerAddr, st: HandshakeState)
        requires
            old(self).wf(),
        ensures
            final(self).wf(),
            final(self).same_identity(old(self)),
            final(self).spec_next_session_id() == old(self).spec_next_session_id(),
            state_of(final(self).spec_states(), addr) == Some(st),
            forall|a: PeerAddr|
                a != addr ==> #[trigger] state_of(final(self).spec_states(), a) == state_of(
                    old(self).spec_states(),
                    a,
                ),
    {
        let ghost states0 = self.states@;
        let mut i: usize = 0;
        let len = self.states.len();
        while i < len
            invariant
                i <= len,
                len == self.states@.len(),
                self.states@ == states0,
                states0 == old(self).spec_states(),
                self.same_identity(old(self)),
                self.spec_next_session_id() == old(self).spec_next_session_id(),
                unique_addrs(states0),
                forall|j: int| 0 <= j < i ==> (#[trigger] self.states@[j]).0 != addr,
            decreases len - i,
        {
            if self.states[i].0 == addr {
                self.states[i] = (addr, st);
                proof {
                    assert(self.states@ == states0.update(i as int, (addr, st)));
                    lemma_state_of_update(states0, addr, st, i as int);
                    assert(unique_addrs(self.states@));
                    assert forall|a: PeerAddr|
                        a != addr implies #[trigger] state_of(self.states@, a) == state_of(
                        states0,
                        a,
                    ) by {
                        assert(state_of(states0.update(i as int, (addr, st)), a) == state_of(
                            states0,
                            a,
                        ));
                    }
                }
                return ;
            }
            i = i + 1;
        }
        self.states.push((addr, st));
        proof {
            assert(self.states@ == states0.push((addr, st)));
            lemma_state_of_append(states0, addr, st);
            assert(unique_addrs(self.states@));
            assert forall|a: PeerAddr|
                a != addr implies #[trigger] state_of(self.states@, a) == state_of(states0, a) by {
                assert(state_of(states0.push((addr, st)), a) == state_of(states0, a));
            }
        }
    }

    /// Remove the state for an address, if any.
    fn remove_state(&mut self, addr: PeerAddr)
        requires
            old(self).wf(),
        ensures
            final(self).wf(),
            final(self).same_identity(old(self)),
            final(self).spec_next_session_id() == old(self).spec_next_session_id(),
            state_of(final(self).spec_states(), addr) is None,
            forall|a: PeerAddr|
                a != addr ==> #[trigger] state_of(final(self).spec_states(), a) == state_of(
                    old(self).spec_states(),
                    a,
                ),
    {
        let ghost states0 = self.states@;
        let mut i: usize = 0;
        let len = self.states.len();
        while i < len
            invariant
                i <= len,
                len == self.states@.len(),
                self.states@ == states0,
                states0 == old(self).spec_states(),
                self.same_identity(old(self)),
                self.spec_next_session_id() == old(self).spec_next_session_id(),
                unique_addrs(states0),
                forall|j: int| 0 <= j < i ==> (#[trigger] self.states@[j]).0 != addr,
            decreases len - i,
        {
            if self.states[i].0 == addr {
                proof {
                    assert forall|j: int|
                        0 <= j < states0.len() && j != i implies (#[trigger] states0[j]).0
                            != addr by {
                        if j > i {
                            assert(states0[i as int].0 != states0[j].0);
                        }
                    }
                }
                self.states.remove(i);
                proof {
                    assert(self.states@ == states0.remove(i as int));
                    lemma_state_of_remove(states0, addr, i as int);
                    assert(unique_addrs(self.states@));
                    assert forall|a: PeerAddr|
                        a != addr implies #[trigger] state_of(self.states@, a) == state_of(
                        states0,
                        a,
                    ) by {
                        assert(state_of(states0.remove(i as int), a) == state_of(states0, a));
                    }
                }
                return ;
            }
            i = i + 1;
        }
        proof {
            lemma_state_of_absent(states0, addr);
        }
    }

    /// Begin a handshake with a peer: the state becomes `HelloSent` and
    /// the returned Hello carries this peer's port, capabilities and name
    /// under a fresh session id.
    pub fn initiate(&mut self, peer: PeerAddr, now_us: u64) -> (r: HandshakePacket)
        requires
            old(self).wf(),
        ensures
            final(self).wf(),
            final(self).same_identity(old(self)),
            r.packet_type == HandshakePacketType::Hello,
            r.session_id == old(self).spec_next_session_id(),
            r.payload@ == spec_hello_payload(
                old(self).spec_audio_port(),
                old(self).spec_capabilities(),
                old(self).spec_name(),
            ),
            final(self).spec_next_session_id() == vstd::wrapping::u32_specs::wrapping_add(
                old(self).spec_next_session_id(),
                1,
            ),
            state_of(final(self).spec_states(), peer) == Some(
                HandshakeState::HelloSent { sent_at_us: now_us },
            ),
            forall|a: PeerAddr|
                a != peer ==> #[trigger] state_of(final(self).spec_states(), a) == state_of(
                    old(self).spec_states(),
                    a,
                ),
    {
        let session_id = self.next_session_id;
        self.next_session_id = self.next_session_id.wrapping_add(1);
        self.set_state(peer, HandshakeState::HelloSent { sent_at_us: now_us });
        let name = self.our_name.clone();
        HandshakePacket::hello(session_id, name.as_str(), self.our_audio_port, self.our_capabilities)
    }

    /// Process one incoming handshake packet from `peer` at `now_us` and
    /// produce the reply to send back, if any.
    ///
    /// A compatible Hello is answered with a HelloAck and connects the
    /// peer; an incompatible one is answered with an Error and fails it. A
    /// HelloAck connects the peer when a Hello of ours is pending and is
    /// ignored otherwise. A Ping is answered with a Pong, its session id
    /// echoed, the state untouched. A Goodbye deletes the state. An Error
    /// fails the peer with the reported reason. Every other type is
    /// ignored. States of other peers never change.
    pub fn process_packet(&mut self, peer: PeerAddr, packet: &HandshakePacket, now_us: u64) -> (r:
        Option<HandshakePacket>)
        requires
            old(self).wf(),
        ensures
            final(self).wf(),
            final(self).same_identity(old(self)),
            final(self).spec_next_session_id() == old(self).spec_next_session_id(),
            forall|a: PeerAddr|
                a != peer ==> #[trigger] state_of(final(self).spec_states(), a) == state_of(
                    old(self).spec_states(),
                    a,
                ),
            ({
                let states0 = old(self).spec_states();
                let states1 = final(self).spec_states();
                match packet.packet_type {
                    HandshakePacketType::Hello => match spec_parse_hello(packet.payload@) {
                        None => state_of(states1, peer) == state_of(states0, peer) && r is None,
                        Some((port, caps, nb)) => {
                            if spec_compatible(old(self).spec_capabilities(), caps) {
                                &&& (r matches Some(ack) && ack.packet_type
                                    == HandshakePacketType::HelloAck && ack.session_id
                                    == packet.session_id && ack.payload@ == spec_hello_payload(
                                    old(self).spec_audio_port(),
                                    old(self).spec_capabilities(),
                                    old(self).spec_name(),
                                ))
                                &&& (state_of(states1, peer) matches Some(
                                    HandshakeState::Connected {
                                        peer_name,
                                        peer_caps,
                                        audio_port,
                                        connected_at_us,
                                    },
                                ) && peer_caps == caps && audio_port == port && connected_at_us
                                    == now_us && (valid_utf8(nb) ==> peer_name@ == decode_utf8(
                                    nb,
                                )))
                            } else {
                                &&& (r matches Some(e) && e.packet_type
                                    == HandshakePacketType::ErrorPacket && e.session_id
                                    == packet.session_id)
                                &&& (state_of(states1, peer) matches Some(
                                    HandshakeState::Failed { reason },
                                ) && reason@ == "incompatible capabilities"@)
                            }
                        },
                    },
                    HandshakePacketType::HelloAck => match spec_parse_hello(packet.payload@) {
                        None => state_of(states1, peer) == state_of(states0, peer) && r is None,
                        Some((port, caps, nb)) => {
                            &&& r is None
                            &&& (if state_of(states0, peer) matches Some(
                                HandshakeState::HelloSent { .. },
                            ) {
                                (state_of(states1, peer) matches Some(
                                    HandshakeState::Connected {
                                        peer_name,
                                        peer_caps,
                                        audio_port,
                                        connected_at_us,
                                    },
                                ) && peer_caps == caps && audio_port == port && connected_at_us
                                    == now_us && (valid_utf8(nb) ==> peer_name@ == decode_utf8(
                                    nb,
                                )))
                            } else {
                                state_of(states1, peer) == state_of(states0, peer)
                            })
                        },
                    },
                    HandshakePacketType::Ping => {
                        &&& (r matches Some(p) && p.packet_type == HandshakePacketType::Pong
                            && p.session_id == packet.session_id && p.payload@ == Seq::<
                            u8,
                        >::empty())
                        &&& state_of(states1, peer) == state_of(states0, peer)
                    },
                    HandshakePacketType::Goodbye => r is None && state_of(states1, peer) is None,
                    HandshakePacketType::ErrorPacket => {
                        &&& r is None
                        &&& (state_of(states1, peer) matches Some(
                            HandshakeState::Failed { reason },
                        ) && ({
                            let pl = packet.payload@;
                            &&& (pl.len() == 0 ==> reason@ == Seq::<char>::empty())
                            &&& (pl.len() > 0 && pl.len() < 1 + pl[0] ==> reason@ == Seq::<
                                char,
                            >::empty())
                            &&& (pl.len() > 0 && pl.len() >= 1 + pl[0] && valid_utf8(
                                pl.subrange(1, 1 + pl[0]),
                            ) ==> reason@ == decode_utf8(pl.subrange(1, 1 + pl[0])))
                        }))
                    },
                    _ => state_of(states1, peer) == state_of(states0, peer) && r is None,
                }
            }),
    {
        match packet.packet_type {
            HandshakePacketType::Hello => {
                match packet.parse_hello() {
                    Some((audio_port, peer_caps, peer_name)) => {
                        if !self.our_capabilities.is_compatible_with(&peer_caps) {
                            self.set_state(
                                peer,
                                HandshakeState::Failed {
                                    reason: new_strlit_owned("incompatible capabilities"),
                                },
                            );
                            return Some(
                                HandshakePacket::error(
                                    packet.session_id,
                                    "incompatible capabilities",
                                ),
                            );
                        }
                        self.set_state(
                            peer,
                            HandshakeState::Connected {
                                peer_name,
                                peer_caps,
                                audio_port,
                                connected_at_us: now_us,
                            },
                        );
                        let name = self.our_name.clone();
                        Some(
                            HandshakePacket::hello_ack(
                                packet.session_id,
                                name.as_str(),
                                self.our_audio_port,
                                self.our_capabilities,
                            ),
                        )
                    },
                    None => None,
                }
            },
            HandshakePacketType::HelloAck => {
                match packet.parse_hello() {
                    Some((audio_port, peer_caps, peer_name)) => {
                        let pending = match self.get_state(peer) {
                            Some(HandshakeState::HelloSent { .. }) => true,
                            _ => false,
                        };
                        if pending {
                            self.set_state(
                                peer,
                                HandshakeState::Connected {
                                    peer_name,
                                    peer_caps,
                                    audio_port,
                                    connected_at_us: now_us,
                                },
                            );
                        }
                        None
                    },
                    None => None,
                }
            },
            HandshakePacketType::Ping => Some(HandshakePacket::pong(packet.session_id)),
            HandshakePacketType::Goodbye => {
                self.remove_state(peer);
                None
            },
            HandshakePacketType::ErrorPacket => {
                let reason = match packet.parse_error() {
                    Some(msg) => msg,
                    None => String::new(),
                };
                self.set_state(peer, HandshakeState::Failed { reason });
                None
            },
            _ => None,
        }
    }

    /// The state stored for a peer, if any.
    pub fn get_state(&self, peer: PeerAddr) -> (r: Option<HandshakeState>)
        requires
            self.wf(),
        ensures
            r == state_of(self.spec_states(), peer),
    {
        let mut i: usize = 0;
        let len = self.states.len();
        while i < len
            invariant
                i <= len,
                len == self.spec_states().len(),
                forall|j: int| 0 <= j < i ==> (#[trigger] self.spec_states()[j]).0 != peer,
            decreases len - i,
        {
            if self.states[i].0 == peer {
                let st = clone_state(&self.states[i].1);
                proof {
                    lemma_state_of_found(self.spec_states(), peer, i as int);
                }
                return Some(st);
            }
            i = i + 1;
        }
        proof {
            lemma_state_of_absent(self.spec_states(), peer);
        }
        None
    }

    /// Whether the handshake with a peer has completed.
    pub fn is_connected(&self, peer: PeerAddr) -> (r: bool)
        requires
            self.wf(),
        ensures
            r == (state_of(self.spec_states(), peer) matches Some(
                HandshakeState::Connected { .. },
            )),
    {
        match self.get_state(peer) {
            Some(HandshakeState::Connected { .. }) => true,
            _ => false,
        }
    }

    /// The connected peers with their names and audio ports.
    pub fn connected_peers(&self) -> (r: Vec<(PeerAddr, String, u16)>)
        requires
            self.wf(),
        ensures
            forall|k: int|
                0 <= k < r@.len() ==> connected_entry(self.spec_states(), #[trigger] r@[k]),
            forall|i: int|
                0 <= i < self.spec_states().len() && ((#[trigger] self.spec_states()[i]).1 matches
                    HandshakeState::Connected { .. }) ==> exists|k: int|
                    0 <= k < r@.len() && (#[trigger] r@[k]).0 == self.spec_states()[i].0,
    {
        let mut r: Vec<(PeerAddr, String, u16)> = Vec::new();
        let mut i: usize = 0;
        let len = self.states.len();
        while i < len
            invariant
                i <= len,
                len == self.spec_states().len(),
                forall|k: int|
                    0 <= k < r@.len() ==> connected_entry(self.spec_states(), #[trigger] r@[k]),
                forall|j: int|
                    0 <= j < i && ((#[trigger] self.spec_states()[j]).1 matches
                        HandshakeState::Connected { .. }) ==> exists|k: int|
                        0 <= k < r@.len() && (#[trigger] r@[k]).0 == self.spec_states()[j].0,
            decreases len - i,
        {
            let addr = self.states[i].0;
            match &self.states[i].1 {
                HandshakeState::Connected { peer_name, audio_port, .. } => {
                    let entry = (addr, peer_name.clone(), *audio_port);
                    let ghost before = r@;
                    r.push(entry);
                    proof {
                        assert(r@[before.len() as int] == entry);
                        assert((self.spec_states()[i as int]).0 == entry.0);
                        assert(self.spec_states()[i as int].1 matches HandshakeState::Connected {
                            peer_name,
                            audio_port,
                            ..
                        } && peer_name == entry.1 && audio_port == entry.2);
                        assert(connected_entry(self.spec_states(), entry));
                        assert forall|k: int| 0 <= k < before.len() implies r@[k]
                            == before[k] by {}
                    }
                },
                _ => {},
            }
            i = i + 1;
        }
        r
    }

    /// Sweep the table at `now_us`: pending Hellos older than
    /// `timeout_us` and failed handshakes are removed, connected peers are
    /// kept (their liveness comes from audio traffic and discovery).
    pub fn cleanup_stale(&mut self, now_us: u64, timeout_us: u64)
        requires
            old(self).wf(),
        ensures
            final(self).wf(),
            final(self).same_identity(old(self)),
            final(self).spec_next_session_id() == old(self).spec_next_session_id(),
            final(self).spec_states() == swept_states(old(self).spec_states(), now_us, timeout_us),
    {
        broadcast use Seq::lemma_filter_push;

        let ghost states0 = self.states@;
        let mut kept: Vec<(PeerAddr, HandshakeState)> = Vec::new();
        let mut i: usize = 0;
        let len = self.states.len();
        while i < len
            invariant
                i <= len,
                len == self.states@.len(),
                self.states@ == states0,
                states0 == old(self).spec_states(),
                kept@ == swept_states(states0.take(i as int), now_us, timeout_us),
            decreases len - i,
        {
            proof {
                assert(states0.take(i + 1) =~= states0.take(i as int).push(states0[i as int]));
                lemma_swept_push(states0.take(i as int), states0[i as int], now_us, timeout_us);
            }
            let keep = match &self.states[i].1 {
                HandshakeState::HelloSent { sent_at_us } => {
                    if *sent_at_us >= now_us {
                        *sent_at_us > now_us || timeout_us > 0
                    } else {
                        timeout_us > now_us - *sent_at_us
                    }
                },
                HandshakeState::Failed { .. } => false,
                _ => true,
            };
            if keep {
                let addr = self.states[i].0;
                let st = clone_state(&self.states[i].1);
                let entry = (addr, st);
                proof {
                    assert(entry == states0[i as int]);
                }
                kept.push(entry);
            }
            i = i + 1;
        }
        proof {
            assert(states0.take(len as int) =~= states0);
        }
        self.states = kept;
        proof {
            lemma_swept_unique(states0, now_us, timeout_us);
        }
    }
}

/// An owned copy of a short static message.
fn new_strlit_owned(s: &str) -> (r: String)
    ensures
        r@ == s@,
{
    s.to_owned()
}

/// A copy of a handshake state.
fn clone_state(st: &HandshakeState) -> (r: HandshakeState)
    ensures
        r == *st,
{
    match st {
        HandshakeState::Idle => HandshakeState::Idle,
        HandshakeState::HelloSent { sent_at_us } => HandshakeState::HelloSent {
            sent_at_us: *sent_at_us,
        },
        HandshakeState::HelloReceived { peer_caps } => HandshakeState::HelloReceived {
            peer_caps: *peer_caps,
        },
        HandshakeState::Connected { peer_name, peer_caps, audio_port, connected_at_us } => {
            HandshakeState::Connected {
                peer_name: peer_name.clone(),
                peer_caps: *peer_caps,
                audio_port: *audio_port,
                connected_at_us: *connected_at_us,
            }
        },
        HandshakeState::Failed { reason } => HandshakeState::Failed { reason: reason.clone() },
    }
}

/// Replacing the first entry for an address realises a table update.
proof fn lemma_state_of_update(
    states: Seq<(PeerAddr, HandshakeState)>,
    addr: PeerAddr,
    st: HandshakeState,
    i: int,
)
    requires
        0 <= i < states.len(),
        states[i].0 == addr,
        forall|j: int| 0 <= j < i ==> (#[trigger] states[j]).0 != addr,
    ensures
        state_of(states.update(i, (addr, st)), addr) == Some(st),
        forall|a: PeerAddr|
            a != addr ==> #[trigger] state_of(states.update(i, (addr, st)), a) == state_of(
                states,
                a,
            ),
    decreases states.len(),
{
    let updated = states.update(i, (addr, st));
    if i == 0 {
        assert(updated[0] == (addr, st));
        assert forall|a: PeerAddr|
            a != addr implies #[trigger] state_of(updated, a) == state_of(states, a) by {
            assert(updated.drop_first() =~= states.drop_first());
            assert(updated[0].0 == addr);
            assert(state_of(updated, a) == state_of(updated.drop_first(), a));
            assert(state_of(states, a) == state_of(states.drop_first(), a));
        }
    } else {
        lemma_state_of_update(states.drop_first(), addr, st, i - 1);
        assert(updated.drop_first() =~= states.drop_first().update(i - 1, (addr, st)));
        assert(updated[0] == states[0]);
        assert(updated[0].0 != addr);
        assert(state_of(updated, addr) == state_of(updated.drop_first(), addr));
        assert forall|a: PeerAddr|
            a != addr implies #[trigger] state_of(updated, a) == state_of(states, a) by {
            if states[0].0 == a {
            } else {
                assert(state_of(updated, a) == state_of(updated.drop_first(), a));
                assert(state_of(states, a) == state_of(states.drop_first(), a));
                assert(state_of(states.drop_first().update(i - 1, (addr, st)), a) == state_of(
                    states.drop_first(),
                    a,
                ));
            }
        }
    }
}

/// Appending an entry for an absent address realises a table insert.
proof fn lemma_state_of_append(
    states: Seq<(PeerAddr, HandshakeState)>,
    addr: PeerAddr,
    st: HandshakeState,
)
    requires
        forall|j: int| 0 <= j < states.len() ==> (#[trigger] states[j]).0 != addr,
    ensures
        state_of(states.push((addr, st)), addr) == Some(st),
        forall|a: PeerAddr|
            a != addr ==> #[trigger] state_of(states.push((addr, st)), a) == state_of(states, a),
    decreases states.len(),
{
    let pushed = states.push((addr, st));
    if states.len() == 0 {
        assert(pushed[0] == (addr, st));
        assert forall|a: PeerAddr|
            a != addr implies #[trigger] state_of(pushed, a) == state_of(states, a) by {
            assert(pushed.drop_first() =~= Seq::<(PeerAddr, HandshakeState)>::empty());
            assert(pushed[0].0 == addr);
            assert(state_of(pushed, a) == state_of(pushed.drop_first(), a));
            assert(state_of(pushed.drop_first(), a) is None);
        }
    } else {
        lemma_state_of_append(states.drop_first(), addr, st);
        assert(pushed.drop_first() =~= states.drop_first().push((addr, st)));
        assert(pushed[0] == states[0]);
        assert(pushed[0].0 != addr);
        assert(state_of(pushed, addr) == state_of(pushed.drop_first(), addr));
        assert forall|a: PeerAddr|
            a != addr implies #[trigger] state_of(pushed, a) == state_of(states, a) by {
            if states[0].0 == a {
            } else {
                assert(state_of(pushed, a) == state_of(pushed.drop_first(), a));
                assert(state_of(states, a) == state_of(states.drop_first(), a));
                assert(state_of(states.drop_first().push((addr, st)), a) == state_of(
                    states.drop_first(),
                    a,
                ));
            }
        }
    }
}

/// Removing the first entry for an address realises a table delete.
proof fn lemma_state_of_remove(states: Seq<(PeerAddr, HandshakeState)>, addr: PeerAddr, i: int)
    requires
        0 <= i < states.len(),
        states[i].0 == addr,
        forall|j: int| 0 <= j < states.len() && j != i ==> (#[trigger] states[j]).0 != addr,
    ensures
        state_of(states.remove(i), addr) is None,
        forall|a: PeerAddr|
            a != addr ==> #[trigger] state_of(states.remove(i), a) == state_of(states, a),
    decreases states.len(),
{
    let removed = states.remove(i);
    if i == 0 {
        assert(removed =~= states.drop_first());
        lemma_state_of_absent_general(states.drop_first(), addr);
        assert forall|a: PeerAddr|
            a != addr implies #[trigger] state_of(removed, a) == state_of(states, a) by {
            if states[0].0 == a {
            } else {
                assert(state_of(states, a) == state_of(states.drop_first(), a));
            }
        }
    } else {
        lemma_state_of_remove(states.drop_first(), addr, i - 1);
        assert(removed.drop_first() =~= states.drop_first().remove(i - 1));
        assert(removed[0] == states[0]);
        assert(removed[0].0 != addr);
        assert(state_of(removed, addr) == state_of(removed.drop_first(), addr));
        assert forall|a: PeerAddr|
            a != addr implies #[trigger] state_of(removed, a) == state_of(states, a) by {
            if states[0].0 == a {
            } else {
                assert(state_of(removed, a) == state_of(removed.drop_first(), a));
                assert(state_of(states, a) == state_of(states.drop_first(), a));
                assert(state_of(states.drop_first().remove(i - 1), a) == state_of(
                    states.drop_first(),
                    a,
                ));
            }
        }
    }
}

/// A table with no entry for an address yields nothing for it.
proof fn lemma_state_of_absent(states: Seq<(PeerAddr, HandshakeState)>, addr: PeerAddr)
    requires
        forall|j: int| 0 <= j < states.len() ==> (#[trigger] states[j]).0 != addr,
    ensures
        state_of(states, addr) is None,
    decreases states.len(),
{
    if states.len() > 0 {
        lemma_state_of_absent(states.drop_first(), addr);
    }
}

/// Same statement for use under a weaker hypothesis shape.
proof fn lemma_state_of_absent_general(states: Seq<(PeerAddr, HandshakeState)>, addr: PeerAddr)
    requires
        forall|j: int| 0 <= j < states.len() ==> (#[trigger] states[j]).0 != addr,
    ensures
        state_of(states, addr) is None,
{
    lemma_state_of_absent(states, addr);
}

/// Finding the first entry for an address yields its state.
proof fn lemma_state_of_found(states: Seq<(PeerAddr, HandshakeState)>, addr: PeerAddr, i: int)
    requires
        0 <= i < states.len(),
        states[i].0 == addr,
        forall|j: int| 0 <= j < i ==> (#[trigger] states[j]).0 != addr,
    ensures
        state_of(states, addr) == Some(states[i].1),
    decreases i,
{
    if i > 0 {
        lemma_state_of_found(states.drop_first(), addr, i - 1);
    }
}

/// One element extends the sweep filter as expected.
proof fn lemma_swept_push(
    s: Seq<(PeerAddr, HandshakeState)>,
    x: (PeerAddr, HandshakeState),
    now_us: u64,
    timeout_us: u64,
)
    ensures
        swept_states(s.push(x), now_us, timeout_us) == if keeps_state(x.1, now_us, timeout_us) {
            swept_states(s, now_us, timeout_us).push(x)
        } else {
            swept_states(s, now_us, timeout_us)
        },
{
    broadcast use Seq::lemma_filter_push;

}

/// Sweeping keeps addresses unique.
proof fn lemma_swept_unique(s: Seq<(PeerAddr, HandshakeState)>, now_us: u64, timeout_us: u64)
    requires
        unique_addrs(s),
    ensures
        unique_addrs(swept_states(s, now_us, timeout_us)),
{
    let pred = |e: (PeerAddr, HandshakeState)| keeps_state(e.1, now_us, timeout_us);
    let f = s.filter(pred);
    assert forall|i: int, j: int|
        0 <= i < j < f.len() implies (#[trigger] f[i]).0 != (#[trigger] f[j]).0 by {
        lemma_filter_from_distinct(s, pred, i, j);
    }
}

/// Two positions of a filtered sequence come from two distinct positions
/// of the original, in order.
proof fn lemma_filter_from_distinct(
    s: Seq<(PeerAddr, HandshakeState)>,
    pred: spec_fn((PeerAddr, HandshakeState)) -> bool,
    i: int,
    j: int,
)
    requires
        unique_addrs(s),
        0 <= i < j < s.filter(pred).len(),
    ensures
        s.filter(pred)[i].0 != s.filter(pred)[j].0,
    decreases s.len(),
{
    broadcast use Seq::lemma_filter_push;

    if s.len() > 0 {
        let prefix = s.drop_last();
        assert(s =~= prefix.push(s.last()));
        assert(unique_addrs(prefix));
        let fp = prefix.filter(pred);
        let f = s.filter(pred);
        if pred(s.last()) {
            if j < fp.len() {
                lemma_filter_from_distinct(prefix, pred, i, j);
            } else {
                assert(f[j] == s.last());
                lemma_filter_element_of(prefix, pred, i);
                let w = choose|w: int| 0 <= w < prefix.len() && prefix[w] == fp[i];
                assert(s[w] == fp[i]);
                assert(s[s.len() - 1] == s.last());
                assert(s[w].0 != s[s.len() - 1].0);
            }
        } else {
            lemma_filter_from_distinct(prefix, pred, i, j);
        }
    }
}

/// Every element of a filtered sequence occurs in the original.
proof fn lemma_filter_element_of(
    s: Seq<(PeerAddr, HandshakeState)>,
    pred: spec_fn((PeerAddr, HandshakeState)) -> bool,
    i: int,
)
    requires
        0 <= i < s.filter(pred).len(),
    ensures
        exists|w: int| 0 <= w < s.len() && s[w] == s.filter(pred)[i],
    decreases s.len(),
{
    broadcast use Seq::lemma_filter_push;

    if s.len() > 0 {
        let prefix = s.drop_last();
        assert(s =~= prefix.push(s.last()));
        let fp = prefix.filter(pred);
        if pred(s.last()) && i == fp.len() {
            assert(s[s.len() - 1] == s.filter(pred)[i]);
        } else {
            lemma_filter_element_of(prefix, pred, i);
            let w = choose|w: int| 0 <= w < prefix.len() && prefix[w] == fp[i];
            assert(s[w] == s.filter(pred)[i]);
        }
    }
}

} // verus!
