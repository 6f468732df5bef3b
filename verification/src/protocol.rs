//! Wire protocol for audio streaming packets.
//!
//! An audio packet is a fixed 16-byte little-endian header followed by an
//! opaque codec payload:
//!
//! | offset | len | field     |
//! |-------:|----:|-----------|
//! |      0 |   2 | magic `0xAF01`, little-endian |
//! |      2 |   1 | track id  |
//! |      3 |   1 | flags (bit 0 keyframe, bit 1 stereo, bit 2 FEC) |
//! |      4 |   4 | sequence, u32 little-endian |
//! |      8 |   8 | timestamp in microseconds, u64 little-endian |
//! |     16 |   * | payload, at most 1440 bytes |
//!
//! Receivers drop a datagram whose magic does not match or whose length is
//! below the header size.

use vstd::prelude::*;
use vstd::bytes::*;
use vstd::slice::{slice_index_get, slice_subrange, slice_to_vec};

verus! {

/// Magic number identifying audio packets on the wire.
pub const PACKET_MAGIC: u16 = 0xAF01;

/// Maximum payload size in bytes, so that header plus payload stay within
/// one MTU-sized datagram.
pub const MAX_PAYLOAD_SIZE: usize = 1440;

/// Audio packet header size in bytes.
pub const HEADER_SIZE: usize = 16;

/// Flags byte of an audio packet. Bit 0 marks a keyframe, bit 1 stereo
/// payload, bit 2 forward error correction; the remaining bits are reserved.
#[derive(Debug, Clone, Copy)]
pub struct PacketFlags(u8);

/// Whether the keyframe bit is set in a flags byte.
pub open spec fn spec_keyframe(bits: u8) -> bool {
    bits & PacketFlags::KEYFRAME != 0
}

/// Whether the stereo bit is set in a flags byte.
pub open spec fn spec_stereo(bits: u8) -> bool {
    bits & PacketFlags::STEREO != 0
}

/// Whether the FEC bit is set in a flags byte.
pub open spec fn spec_fec(bits: u8) -> bool {
    bits & PacketFlags::FEC != 0
}

impl PacketFlags {
    pub const KEYFRAME: u8 = 0x01;

    pub const STEREO: u8 = 0x02;

    pub const FEC: u8 = 0x04;

    /// The raw flags byte.
    pub closed spec fn bits(self) -> u8 {
        self.0
    }

    /// Empty flags: no keyframe, no stereo, no FEC.
    pub fn new() -> (r: PacketFlags)
        ensures
            r.bits() == 0u8,
    {
        PacketFlags(0)
    }

    /// Set or clear the keyframe bit, leaving the other bits unchanged.
    pub fn set_keyframe(self, value: bool) -> (r: PacketFlags)
        ensures
            spec_keyframe(r.bits()) == value,
            spec_stereo(r.bits()) == spec_stereo(self.bits()),
            spec_fec(r.bits()) == spec_fec(self.bits()),
            r.bits() == if value {
                self.bits() | 0x01u8
            } else {
                self.bits() & 0xFEu8
            },
    {
        let b = self.0;
        if value {
            proof {
                assert((b | 0x01u8) & 0x01u8 != 0 && ((b | 0x01u8) & 0x02u8 != 0) == (b & 0x02u8
                    != 0) && ((b | 0x01u8) & 0x04u8 != 0) == (b & 0x04u8 != 0)) by (bit_vector);
            }
            PacketFlags(b | 0x01)
        } else {
            proof {
                assert((b & 0xFEu8) & 0x01u8 == 0 && ((b & 0xFEu8) & 0x02u8 != 0) == (b & 0x02u8
                    != 0) && ((b & 0xFEu8) & 0x04u8 != 0) == (b & 0x04u8 != 0)) by (bit_vector);
            }
            PacketFlags(b & 0xFE)
        }
    }

    /// Set or clear the stereo bit, leaving the other bits unchanged.
    pub fn set_stereo(self, value: bool) -> (r: PacketFlags)
        ensures
            spec_stereo(r.bits()) == value,
            spec_keyframe(r.bits()) == spec_keyframe(self.bits()),
            spec_fec(r.bits()) == spec_fec(self.bits()),
            r.bits() == if value {
                self.bits() | 0x02u8
            } else {
                self.bits() & 0xFDu8
            },
    {
        let b = self.0;
        if value {
            proof {
                assert((b | 0x02u8) & 0x02u8 != 0 && ((b | 0x02u8) & 0x01u8 != 0) == (b & 0x01u8
                    != 0) && ((b | 0x02u8) & 0x04u8 != 0) == (b & 0x04u8 != 0)) by (bit_vector);
            }
            PacketFlags(b | 0x02)
        } else {
            proof {
                assert((b & 0xFDu8) & 0x02u8 == 0 && ((b & 0xFDu8) & 0x01u8 != 0) == (b & 0x01u8
                    != 0) && ((b & 0xFDu8) & 0x04u8 != 0) == (b & 0x04u8 != 0)) by (bit_vector);
            }
            PacketFlags(b & 0xFD)
        }
    }

    /// Set or clear the FEC bit, leaving the other bits unchanged.
    pub fn set_fec(self, value: bool) -> (r: PacketFlags)
        ensures
            spec_fec(r.bits()) == value,
            spec_keyframe(r.bits()) == spec_keyframe(self.bits()),
            spec_stereo(r.bits()) == spec_stereo(self.bits()),
            r.bits() == if value {
                self.bits() | 0x04u8
            } else {
                self.bits() & 0xFBu8
            },
    {
        let b = self.0;
        if value {
            proof {
                assert((b | 0x04u8) & 0x04u8 != 0 && ((b | 0x04u8) & 0x01u8 != 0) == (b & 0x01u8
                    != 0) && ((b | 0x04u8) & 0x02u8 != 0) == (b & 0x02u8 != 0)) by (bit_vector);
            }
            PacketFlags(b | 0x04)
        } else {
            proof {
                assert((b & 0xFBu8) & 0x04u8 == 0 && ((b & 0xFBu8) & 0x01u8 != 0) == (b & 0x01u8
                    != 0) && ((b & 0xFBu8) & 0x02u8 != 0) == (b & 0x02u8 != 0)) by (bit_vector);
            }
            PacketFlags(b & 0xFB)
        }
    }

    /// Whether the keyframe bit is set.
    pub fn is_keyframe(&self) -> (r: bool)
        ensures
            r == spec_keyframe(self.bits()),
    {
        self.0 & Self::KEYFRAME != 0
    }

    /// Whether the stereo bit is set.
    pub fn is_stereo(&self) -> (r: bool)
        ensures
            r == spec_stereo(self.bits()),
    {
        self.0 & Self::STEREO != 0
    }

    /// Whether the FEC bit is set.
    pub fn has_fec(&self) -> (r: bool)
        ensures
            r == spec_fec(self.bits()),
    {
        self.0 & Self::FEC != 0
    }

    /// The flags as a raw byte for the wire.
    pub fn as_byte(&self) -> (r: u8)
        ensures
            r == self.bits(),
    {
        self.0
    }

    /// Flags from a raw wire byte.
    pub fn from_byte(byte: u8) -> (r: PacketFlags)
        ensures
            r.bits() == byte,
    {
        PacketFlags(byte)
    }
}

impl Default for PacketFlags {
    /// Empty flags, as `PacketFlags::new` returns.
    fn default() -> (r: PacketFlags)
        ensures
            r.bits() == 0u8,
    {
        PacketFlags(0)
    }
}

/// Mathematical model of an audio packet: the header fields plus the
/// payload bytes.
pub struct AudioPacketView {
    pub track_id: u8,
    pub flags: u8,
    pub sequence: u32,
    pub timestamp: u64,
    pub payload: Seq<u8>,
}

/// Audio packet for network transmission.
#[derive(Debug, Clone)]
pub struct AudioPacket {
    /// Track identifier.
    pub track_id: u8,
    /// Packet flags.
    pub flags: PacketFlags,
    /// Per-track sequence number, wrapping modulo 2^32.
    pub sequence: u32,
    /// Capture timestamp in microseconds, sender-local monotonic.
    pub timestamp: u64,
    /// Opaque encoded audio data.
    pub payload: Vec<u8>,
}

impl View for AudioPacket {
    type V = AudioPacketView;

    open spec fn view(&self) -> AudioPacketView {
        AudioPacketView {
            track_id: self.track_id,
            flags: self.flags.bits(),
            sequence: self.sequence,
            timestamp: self.timestamp,
            payload: self.payload@,
        }
    }
}

/// The wire form of a packet: magic, track id, flags, sequence and
/// timestamp in little-endian order, then the payload bytes.
pub open spec fn spec_serialize(p: AudioPacketView) -> Seq<u8> {
    spec_u16_to_le_bytes(PACKET_MAGIC) + seq![p.track_id, p.flags] + spec_u32_to_le_bytes(
        p.sequence,
    ) + spec_u64_to_le_bytes(p.timestamp) + p.payload
}

/// The packet a byte string parses to: `None` when the string is shorter
/// than the header or its magic does not match, the decoded fields
/// otherwise.
pub open spec fn spec_deserialize(d: Seq<u8>) -> Option<AudioPacketView> {
    if d.len() < HEADER_SIZE {
        None
    } else if spec_u16_from_le_bytes(d.subrange(0, 2)) != PACKET_MAGIC {
        None
    } else {
        Some(
            AudioPacketView {
                track_id: d[2],
                flags: d[3],
                sequence: spec_u32_from_le_bytes(d.subrange(4, 8)),
                timestamp: spec_u64_from_le_bytes(d.subrange(8, 16)),
                payload: d.subrange(16, d.len() as int),
            },
        )
    }
}

impl AudioPacket {
    /// A packet with empty flags and the given header fields and payload.
    pub fn new(track_id: u8, sequence: u32, timestamp: u64, payload: Vec<u8>) -> (r: AudioPacket)
        ensures
            r@ == (AudioPacketView {
                track_id,
                flags: 0u8,
                sequence,
                timestamp,
                payload: payload@,
            }),
    {
        AudioPacket { track_id, flags: PacketFlags::new(), sequence, timestamp, payload }
    }

    /// Serialize the packet to bytes for network transmission.
    pub fn serialize(&self) -> (r: Vec<u8>)
        ensures
            r@ == spec_serialize(self@),
    {
        let mut buf: Vec<u8> = Vec::new();
        let mut magic = u16_to_le_bytes(PACKET_MAGIC);
        buf.append(&mut magic);
        buf.push(self.track_id);
        buf.push(self.flags.as_byte());
        let mut seq_bytes = u32_to_le_bytes(self.sequence);
        buf.append(&mut seq_bytes);
        let mut ts_bytes = u64_to_le_bytes(self.timestamp);
        buf.append(&mut ts_bytes);
        buf.extend_from_slice(self.payload.as_slice());
        proof {
            assert(buf@ =~= spec_serialize(self@));
        }
        buf
    }

    /// Deserialize a packet from bytes. Returns `None` exactly when the
    /// data is shorter than the header or the magic does not match.
    pub fn deserialize(data: &[u8]) -> (r: Option<AudioPacket>)
        ensures
            match r {
                Some(p) => spec_deserialize(data@) == Some(p@),
                None => spec_deserialize(data@) is None,
            },
    {
        if data.len() < HEADER_SIZE {
            return None;
        }
        let magic = u16_from_le_bytes(slice_subrange(data, 0, 2));
        if magic != PACKET_MAGIC {
            return None;
        }
        let track_id = *slice_index_get(data, 2);
        let flags = PacketFlags::from_byte(*slice_index_get(data, 3));
        let sequence = u32_from_le_bytes(slice_subrange(data, 4, 8));
        let timestamp = u64_from_le_bytes(slice_subrange(data, 8, 16));
        let payload = slice_to_vec(slice_subrange(data, 16, data.len()));
        let packet = AudioPacket { track_id, flags, sequence, timestamp, payload };
        proof {
            assert(spec_deserialize(data@) == Some(packet@));
        }
        Some(packet)
    }

    /// Total packet size on the wire, header included.
    pub fn total_size(&self) -> (r: usize)
        requires
            self.payload@.len() + HEADER_SIZE <= usize::MAX,
        ensures
            r == spec_serialize(self@).len(),
    {
        proof {
            vstd::bytes::lemma_auto_spec_u16_to_from_le_bytes();
            vstd::bytes::lemma_auto_spec_u32_to_from_le_bytes();
            vstd::bytes::lemma_auto_spec_u64_to_from_le_bytes();
        }
        HEADER_SIZE + self.payload.len()
    }
}

/// Packet round-trip: any audio packet deserializes from its own wire form
/// to exactly its own fields.
pub proof fn lemma_packet_round_trip(p: AudioPacketView)
    ensures
        spec_deserialize(spec_serialize(p)) == Some(p),
{
    lemma_auto_spec_u16_to_from_le_bytes();
    lemma_auto_spec_u32_to_from_le_bytes();
    lemma_auto_spec_u64_to_from_le_bytes();
    let d = spec_serialize(p);
    assert(d.subrange(0, 2) =~= spec_u16_to_le_bytes(PACKET_MAGIC));
    assert(d.subrange(4, 8) =~= spec_u32_to_le_bytes(p.sequence));
    assert(d.subrange(8, 16) =~= spec_u64_to_le_bytes(p.timestamp));
    assert(d.subrange(16, d.len() as int) =~= p.payload);
    assert(spec_deserialize(d) == Some(p));
}

} // verus!
