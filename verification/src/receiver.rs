//! Receiver-side logic: datagram classification, the adaptive backoff of
//! the receiver loop, and per-track sequence statistics.
//!
//! The loop itself — a non-blocking socket read — stays with the caller:
//! it hands each datagram to `classify_datagram` and asks
//! `receiver_backoff` what to do after an empty read.

use vstd::prelude::*;
use crate::protocol::{spec_deserialize, spec_fec, spec_stereo, AudioPacket};
use crate::ring::spec_count_up;
use vstd::wrapping::u32_specs;

verus! {

/// A parsed audio packet with its arrival time.
#[derive(Debug, Clone)]
pub struct ReceivedPacket {
    pub track_id: u8,
    pub sequence: u32,
    pub timestamp: u64,
    pub payload: Vec<u8>,
    pub is_stereo: bool,
    pub has_fec: bool,
    /// Arrival time in microseconds.
    pub receive_time_us: u64,
}

impl ReceivedPacket {
    /// A received packet from a parsed audio packet and its arrival time.
    pub fn from_packet(packet: AudioPacket, receive_time_us: u64) -> (r: ReceivedPacket)
        ensures
            r.track_id == packet@.track_id,
            r.sequence == packet@.sequence,
            r.timestamp == packet@.timestamp,
            r.payload@ == packet@.payload,
            r.is_stereo == spec_stereo(packet@.flags),
            r.has_fec == spec_fec(packet@.flags),
            r.receive_time_us == receive_time_us,
    {
        let is_stereo = packet.flags.is_stereo();
        let has_fec = packet.flags.has_fec();
        ReceivedPacket {
            track_id: packet.track_id,
            sequence: packet.sequence,
            timestamp: packet.timestamp,
            payload: packet.payload,
            is_stereo,
            has_fec,
            receive_time_us,
        }
    }
}

/// Parse one datagram received at `now_us` into a packet for dispatch:
/// `None` exactly when the datagram is not a valid audio packet (the
/// caller counts it as invalid).
pub fn classify_datagram(data: &[u8], now_us: u64) -> (r: Option<ReceivedPacket>)
    ensures
        match r {
            Some(p) => {
                &&& spec_deserialize(data@) matches Some(v)
                &&& p.track_id == v.track_id
                &&& p.sequence == v.sequence
                &&& p.timestamp == v.timestamp
                &&& p.payload@ == v.payload
                &&& p.is_stereo == spec_stereo(v.flags)
                &&& p.has_fec == spec_fec(v.flags)
                &&& p.receive_time_us == now_us
            },
            None => spec_deserialize(data@) is None,
        },
{
    match AudioPacket::deserialize(data) {
        Some(packet) => Some(ReceivedPacket::from_packet(packet, now_us)),
        None => None,
    }
}

/// What the receiver loop does after a run of consecutive empty reads: a
/// spin-loop hint below ten, a thread yield below a hundred, a 50 µs
/// sleep from then on.
#[derive(Debug, Clone, Copy, PartialEq, Eq, Structural)]
pub enum BackoffAction {
    /// Spin: lowest latency for bursty traffic.
    Spin,
    /// Yield the thread.
    Yield,
    /// Sleep for 50 µs.
    Sleep,
}

/// The backoff action after this many consecutive empty reads.
pub fn receiver_backoff(empty_reads: u32) -> (r: BackoffAction)
    ensures
        empty_reads < 10 ==> r == BackoffAction::Spin,
        10 <= empty_reads < 100 ==> r == BackoffAction::Yield,
        empty_reads >= 100 ==> r == BackoffAction::Sleep,
{
    if empty_reads < 10 {
        BackoffAction::Spin
    } else if empty_reads < 100 {
        BackoffAction::Yield
    } else {
        BackoffAction::Sleep
    }
}

/// Receiver statistics.
#[derive(Debug, Clone)]
pub struct ReceiverStats {
    pub packets_received: u64,
    pub bytes_received: u64,
    pub invalid_packets: u64,
    pub registered_tracks: usize,
}

/// Per-track statistics of one track receiver.
#[derive(Debug, Clone)]
pub struct TrackReceiverStats {
    pub track_id: u8,
    pub packets_received: u64,
    pub packets_lost: u64,
    pub out_of_order: u64,
    /// Lost per thousand of all packets accounted for.
    pub loss_permille: u32,
}

/// Sequence bookkeeping for the packets of one track.
pub struct TrackReceiver {
    track_id: u8,
    last_sequence: Option<u32>,
    packets_received: u64,
    packets_lost: u64,
    out_of_order: u64,
}

impl TrackReceiver {
    /// The last sequence seen, if any.
    pub closed spec fn spec_last_sequence(&self) -> Option<u32> {
        self.last_sequence
    }

    /// Packets recorded so far.
    pub closed spec fn spec_packets_received(&self) -> u64 {
        self.packets_received
    }

    /// Lost packets inferred from sequence gaps.
    pub closed spec fn spec_packets_lost(&self) -> u64 {
        self.packets_lost
    }

    /// Packets that arrived behind an already-seen sequence.
    pub closed spec fn spec_out_of_order(&self) -> u64 {
        self.out_of_order
    }

    /// The track this receiver tracks.
    pub closed spec fn spec_track_id(&self) -> u8 {
        self.track_id
    }

    /// A fresh receiver for one track.
    pub fn new(track_id: u8) -> (r: TrackReceiver)
        ensures
            r.spec_track_id() == track_id,
            r.spec_last_sequence() is None,
            r.spec_packets_received() == 0,
            r.spec_packets_lost() == 0,
            r.spec_out_of_order() == 0,
    {
        TrackReceiver {
            track_id,
            last_sequence: None,
            packets_received: 0,
            packets_lost: 0,
            out_of_order: 0,
        }
    }

    /// Account one arrived sequence number against the expected next one:
    /// a gap ahead counts its width as lost, a sequence at or behind the
    /// expected one counts one out-of-order arrival; the first sequence
    /// only sets the baseline. Counters saturate at their range.
    pub fn process_sequence(&mut self, sequence: u32)
        requires
            true,
        ensures
            final(self).spec_track_id() == old(self).spec_track_id(),
            final(self).spec_packets_received() == old(self).spec_packets_received(),
            final(self).spec_last_sequence() == Some(sequence),
            ({
                match old(self).spec_last_sequence() {
                    None => final(self).spec_packets_lost() == old(self).spec_packets_lost()
                        && final(self).spec_out_of_order() == old(self).spec_out_of_order(),
                    Some(last) => {
                        let expected = u32_specs::wrapping_add(last, 1);
                        if sequence == expected {
                            final(self).spec_packets_lost() == old(self).spec_packets_lost()
                                && final(self).spec_out_of_order() == old(self).spec_out_of_order()
                        } else if sequence > expected {
                            final(self).spec_packets_lost() as int == (if old(
                                self,
                            ).spec_packets_lost() + (sequence - expected) <= u64::MAX {
                                old(self).spec_packets_lost() + (sequence - expected)
                            } else {
                                u64::MAX as int
                            }) && final(self).spec_out_of_order() == old(self).spec_out_of_order()
                        } else {
                            final(self).spec_out_of_order() == spec_count_up(
                                old(self).spec_out_of_order(),
                            ) && final(self).spec_packets_lost() == old(self).spec_packets_lost()
                        }
                    },
                }
            }),
    {
        match self.last_sequence {
            Some(last) => {
                let expected = last.wrapping_add(1);
                if sequence != expected {
                    if sequence > expected {
                        let gap = (sequence - expected) as u64;
                        if self.packets_lost <= u64::MAX - gap {
                            self.packets_lost = self.packets_lost + gap;
                        } else {
                            self.packets_lost = u64::MAX;
                        }
                    } else {
                        if self.out_of_order < u64::MAX {
                            self.out_of_order = self.out_of_order + 1;
                        }
                    }
                }
            },
            None => {},
        }
        self.last_sequence = Some(sequence);
    }

    /// Record one arrived packet: its sequence is accounted exactly as
    /// `process_sequence` does and the received counter advances.
    pub fn record_packet(&mut self, sequence: u32)
        ensures
            final(self).spec_track_id() == old(self).spec_track_id(),
            final(self).spec_packets_received() == spec_count_up(
                old(self).spec_packets_received(),
            ),
            final(self).spec_last_sequence() == Some(sequence),
            ({
                match old(self).spec_last_sequence() {
                    None => final(self).spec_packets_lost() == old(self).spec_packets_lost()
                        && final(self).spec_out_of_order() == old(self).spec_out_of_order(),
                    Some(last) => {
                        let expected = u32_specs::wrapping_add(last, 1);
                        if sequence == expected {
                            final(self).spec_packets_lost() == old(self).spec_packets_lost()
                                && final(self).spec_out_of_order() == old(self).spec_out_of_order()
                        } else if sequence > expected {
                            final(self).spec_packets_lost() as int == (if old(
                                self,
                            ).spec_packets_lost() + (sequence - expected) <= u64::MAX {
                                old(self).spec_packets_lost() + (sequence - expected)
                            } else {
                                u64::MAX as int
                            }) && final(self).spec_out_of_order() == old(self).spec_out_of_order()
                        } else {
                            final(self).spec_out_of_order() == spec_count_up(
                                old(self).spec_out_of_order(),
                            ) && final(self).spec_packets_lost() == old(self).spec_packets_lost()
                        }
                    },
                }
            }),
    {
        self.process_sequence(sequence);
        if self.packets_received < u64::MAX {
            self.packets_received = self.packets_received + 1;
        }
    }

    /// The track this receiver tracks.
    pub fn track_id(&self) -> (r: u8)
        ensures
            r == self.spec_track_id(),
    {
        self.track_id
    }

    /// A snapshot of the counters, with the loss rate in thousandths.
    pub fn stats(&self) -> (r: TrackReceiverStats)
        ensures
            r.track_id == self.spec_track_id(),
            r.packets_received == self.spec_packets_received(),
            r.packets_lost == self.spec_packets_lost(),
            r.out_of_order == self.spec_out_of_order(),
            self.spec_packets_received() + self.spec_packets_lost() == 0 ==> r.loss_permille == 0,
            self.spec_packets_received() + self.spec_packets_lost() > 0 ==> r.loss_permille as int
                == self.spec_packets_lost() as int * 1000 / (self.spec_packets_received() as int
                + self.spec_packets_lost() as int),
    {
        let total: u128 = self.packets_received as u128 + self.packets_lost as u128;
        let loss_permille: u32 = if total == 0 {
            0
        } else {
            let q: u128 = (self.packets_lost as u128) * 1000 / total;
            proof {
                assert(self.packets_lost as int * 1000 / (self.packets_received as int
                    + self.packets_lost as int) <= 1000) by (nonlinear_arith)
                    requires
                        self.packets_received as int + self.packets_lost as int >= 1,
                        self.packets_lost >= 0,
                        self.packets_lost <= self.packets_received as int + self.packets_lost as int,
                ;
            }
            q as u32
        };
        TrackReceiverStats {
            track_id: self.track_id,
            packets_received: self.packets_received,
            packets_lost: self.packets_lost,
            out_of_order: self.out_of_order,
            loss_permille,
        }
    }
}

} // verus!
