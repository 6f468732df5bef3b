//! Sender-side logic: per-track sequence assignment, datagram building
//! and the adaptive poll timeout of the sender loop.
//!
//! The loop itself — a blocking channel receive and a UDP send — stays
//! with the caller: it asks `sender_poll_timeout_us` how long to wait,
//! and hands each outgoing payload to `MultiTrackSender::send_audio`,
//! which assigns the sequence number and returns the finished datagram.

use vstd::prelude::*;
use crate::protocol::{spec_serialize, AudioPacket, AudioPacketView, PacketFlags};
use crate::ring::spec_count_up;
use vstd::wrapping::u32_specs;

verus! {

/// An encoded frame ready for the wire.
#[derive(Debug, Clone)]
pub struct EncodedPacket {
    pub track_id: u8,
    pub sequence: u32,
    pub timestamp: u64,
    pub payload: Vec<u8>,
    pub flags: PacketFlags,
}

/// The sender loop's adaptive poll timeout: 100 µs while traffic flows,
/// one millisecond after ten consecutive timeouts, five milliseconds
/// after a hundred.
pub fn sender_poll_timeout_us(consecutive_timeouts: u32) -> (r: u64)
    ensures
        consecutive_timeouts < 10 ==> r == 100,
        10 <= consecutive_timeouts < 100 ==> r == 1000,
        consecutive_timeouts >= 100 ==> r == 5000,
{
    if consecutive_timeouts < 10 {
        100
    } else if consecutive_timeouts < 100 {
        1000
    } else {
        5000
    }
}

/// Number of tracks with an assigned sequence counter.
pub open spec fn count_sequences(s: Seq<Option<u32>>) -> nat
    decreases s.len(),
{
    if s.len() == 0 {
        0
    } else {
        count_sequences(s.drop_last()) + if s.last() is Some {
            1nat
        } else {
            0nat
        }
    }
}

/// The active count never exceeds the table size.
proof fn lemma_count_sequences_le_len(s: Seq<Option<u32>>)
    ensures
        count_sequences(s) <= s.len(),
    decreases s.len(),
{
    if s.len() > 0 {
        lemma_count_sequences_le_len(s.drop_last());
    }
}

/// Updating one counter slot changes the active count by the occupancy
/// difference.
proof fn lemma_count_sequences_update(s: Seq<Option<u32>>, i: int, v: Option<u32>)
    requires
        0 <= i < s.len(),
    ensures
        count_sequences(s.update(i, v)) == count_sequences(s) - (if s[i] is Some {
            1int
        } else {
            0int
        }) + (if v is Some {
            1int
        } else {
            0int
        }),
    decreases s.len(),
{
    let updated = s.update(i, v);
    if i == s.len() - 1 {
        assert(updated.drop_last() =~= s.drop_last());
    } else {
        lemma_count_sequences_update(s.drop_last(), i, v);
        assert(updated.drop_last() =~= s.drop_last().update(i, v));
        assert(updated.last() == s.last());
    }
}

/// Sender statistics.
#[derive(Debug, Clone)]
pub struct SenderStats {
    /// Datagrams prepared for sending.
    pub packets_sent: u64,
    /// Bytes of those datagrams.
    pub bytes_sent: u64,
    /// Tracks with an assigned sequence counter.
    pub active_tracks: usize,
}

/// Builds outgoing audio datagrams for many tracks, owning the per-track
/// sequence counters. Each track's sequences start at zero and are
/// assigned consecutively, wrapping modulo 2^32.
pub struct MultiTrackSender {
    sequences: Vec<Option<u32>>,
    active: usize,
    packets_prepared: u64,
    bytes_prepared: u64,
}

impl MultiTrackSender {
    /// The per-track sequence counters: the next sequence each track will
    /// be assigned, absent for a track never sent on.
    pub closed spec fn spec_sequences(&self) -> Seq<Option<u32>> {
        self.sequences@
    }

    /// Datagrams prepared so far.
    pub closed spec fn spec_packets_prepared(&self) -> u64 {
        self.packets_prepared
    }

    /// Bytes prepared so far.
    pub closed spec fn spec_bytes_prepared(&self) -> u64 {
        self.bytes_prepared
    }

    /// One slot per track id, the active count exact.
    pub closed spec fn wf(&self) -> bool {
        &&& self.sequences@.len() == 256
        &&& self.active == count_sequences(self.sequences@)
    }

    /// A sender with no sequence assigned yet.
    pub fn new() -> (r: MultiTrackSender)
        ensures
            r.wf(),
            forall|i: int| 0 <= i < 256 ==> (#[trigger] r.spec_sequences()[i]) is None,
            r.spec_packets_prepared() == 0,
            r.spec_bytes_prepared() == 0,
    {
        let mut sequences: Vec<Option<u32>> = Vec::new();
        let mut i: usize = 0;
        while i < 256
            invariant
                i <= 256,
                sequences@.len() == i,
                forall|j: int| 0 <= j < i ==> (#[trigger] sequences@[j]) is None,
                count_sequences(sequences@) == 0,
            decreases 256 - i,
        {
            let ghost before = sequences@;
            sequences.push(None);
            proof {
                assert(sequences@.drop_last() =~= before);
            }
            i = i + 1;
        }
        MultiTrackSender { sequences, active: 0, packets_prepared: 0, bytes_prepared: 0 }
    }

    /// Assign the track's next sequence number and build the datagram for
    /// this payload: the assigned sequence is the track's counter (zero
    /// for a first send), the counter advances by one wrapping, and the
    /// returned bytes are the wire form of the packet with the stereo
    /// flag as given and no other flag set.
    pub fn send_audio(&mut self, track_id: u8, payload: Vec<u8>, timestamp: u64, stereo: bool)
        -> (r: (u32, Vec<u8>))
        requires
            old(self).wf(),
        ensures
            final(self).wf(),
            ({
                let assigned = match old(self).spec_sequences()[track_id as int] {
                    Some(s) => s,
                    None => 0u32,
                };
                &&& r.0 == assigned
                &&& final(self).spec_sequences() == old(self).spec_sequences().update(
                    track_id as int,
                    Some(u32_specs::wrapping_add(assigned, 1)),
                )
                &&& r.1@ == spec_serialize(
                    AudioPacketView {
                        track_id,
                        flags: if stereo {
                            2u8
                        } else {
                            0u8
                        },
                        sequence: assigned,
                        timestamp,
                        payload: payload@,
                    },
                )
                &&& final(self).spec_packets_prepared() == spec_count_up(
                    old(self).spec_packets_prepared(),
                )
            }),
    {
        let ghost seqs0 = self.sequences@;
        let was_none = self.sequences[track_id as usize].is_none();
        let assigned: u32 = match self.sequences[track_id as usize] {
            Some(s) => s,
            None => 0,
        };
        self.sequences[track_id as usize] = Some(assigned.wrapping_add(1));
        proof {
            lemma_count_sequences_update(
                seqs0,
                track_id as int,
                self.sequences@[track_id as int],
            );
            lemma_count_sequences_le_len(seqs0);
        }
        if was_none {
            self.active = self.active + 1;
        }
        let flags = PacketFlags::new().set_stereo(stereo);
        let packet = AudioPacket { track_id, flags, sequence: assigned, timestamp, payload };
        let data = packet.serialize();
        if self.packets_prepared < u64::MAX {
            self.packets_prepared = self.packets_prepared + 1;
        }
        if self.bytes_prepared <= u64::MAX - data.len() as u64 {
            self.bytes_prepared = self.bytes_prepared + data.len() as u64;
        }
        proof {
            assert(0u8 | 0x02u8 == 2u8 && 0u8 & 0xFDu8 == 0u8) by (bit_vector);
        }
        (assigned, data)
    }

    /// Reset a track's sequence counter to zero.
    pub fn reset_sequence(&mut self, track_id: u8)
        requires
            old(self).wf(),
        ensures
            final(self).wf(),
            final(self).spec_sequences() == old(self).spec_sequences().update(
                track_id as int,
                Some(0u32),
            ),
    {
        let ghost seqs0 = self.sequences@;
        let was_none = self.sequences[track_id as usize].is_none();
        self.sequences[track_id as usize] = Some(0);
        proof {
            lemma_count_sequences_update(seqs0, track_id as int, Some(0u32));
            lemma_count_sequences_le_len(seqs0);
        }
        if was_none {
            self.active = self.active + 1;
        }
    }

    /// Forget a track's sequence counter.
    pub fn remove_track(&mut self, track_id: u8)
        requires
            old(self).wf(),
        ensures
            final(self).wf(),
            final(self).spec_sequences() == old(self).spec_sequences().update(
                track_id as int,
                None::<u32>,
            ),
    {
        let ghost seqs0 = self.sequences@;
        let was_some = self.sequences[track_id as usize].is_some();
        self.sequences[track_id as usize] = None;
        proof {
            lemma_count_sequences_update(seqs0, track_id as int, None::<u32>);
        }
        if was_some {
            self.active = self.active - 1;
        }
    }

    /// A snapshot of the sender's counters.
    pub fn stats(&self) -> (r: SenderStats)
        requires
            self.wf(),
        ensures
            r.packets_sent == self.spec_packets_prepared(),
            r.bytes_sent == self.spec_bytes_prepared(),
            r.active_tracks == count_sequences(self.spec_sequences()),
    {
        SenderStats {
            packets_sent: self.packets_prepared,
            bytes_sent: self.bytes_prepared,
            active_tracks: self.active,
        }
    }
}

} // verus!
