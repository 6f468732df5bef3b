//! Audio frames: one captured or decoded block of interleaved samples.
//!
//! Sample data is opaque to this library; a sample is carried as its 32-bit
//! word (the IEEE-754 bit pattern of the platform's float sample). Callers
//! convert at the edge; the logic here reads only lengths and header fields.

use vstd::prelude::*;

verus! {

/// One block of interleaved audio samples together with its stream
/// position. Invariant of well-formed frames: the sample count is a
/// multiple of the channel count.
#[derive(Debug, Clone)]
pub struct AudioFrame {
    /// Interleaved sample words, channel count ≥ 1, length a multiple of it.
    pub samples: Vec<u32>,
    /// Number of interleaved channels.
    pub channels: u16,
    /// Capture timestamp in microseconds, monotonic.
    pub timestamp: u64,
    /// Frame sequence number, wrapping modulo 2^32.
    pub sequence: u32,
}

impl AudioFrame {
    /// A frame from its parts.
    pub fn new(samples: Vec<u32>, channels: u16, timestamp: u64, sequence: u32) -> (r: AudioFrame)
        ensures
            r.samples@ == samples@,
            r.channels == channels,
            r.timestamp == timestamp,
            r.sequence == sequence,
    {
        AudioFrame { samples, channels, timestamp, sequence }
    }

    /// Number of samples per channel.
    pub fn samples_per_channel(&self) -> (r: usize)
        requires
            self.channels > 0,
        ensures
            r == self.samples@.len() as int / self.channels as int,
    {
        self.samples.len() / (self.channels as usize)
    }

    /// Frame duration in microseconds at the given sample rate.
    pub fn duration_us(&self, sample_rate: u32) -> (r: u64)
        requires
            self.channels > 0,
            sample_rate > 0,
            self.samples@.len() * 1_000_000 <= u64::MAX,
        ensures
            r == (self.samples@.len() as int / self.channels as int) * 1_000_000
                / sample_rate as int,
    {
        (self.samples_per_channel() as u64 * 1_000_000) / (sample_rate as u64)
    }
}

/// Assembles an incoming stream of interleaved sample words into blocks
/// of exactly one codec frame, as the capture side hands them to the
/// encoder. Samples arrive in blocks of arbitrary size and leave in
/// blocks of `frame_samples` words, in order, with the remainder held
/// back.
pub struct FrameChunker {
    buffer: Vec<u32>,
    frame_samples: usize,
}

impl FrameChunker {
    /// The sample words held back so far, in arrival order.
    pub closed spec fn spec_buffered(&self) -> Seq<u32> {
        self.buffer@
    }

    /// The fixed frame size in sample words.
    pub closed spec fn spec_frame_samples(&self) -> usize {
        self.frame_samples
    }

    /// An empty chunker cutting frames of `frame_samples` words.
    pub fn new(frame_samples: usize) -> (r: FrameChunker)
        requires
            frame_samples > 0,
        ensures
            r.spec_buffered() == Seq::<u32>::empty(),
            r.spec_frame_samples() == frame_samples,
    {
        FrameChunker { buffer: Vec::new(), frame_samples }
    }

    /// Append one captured block to the held samples.
    pub fn push_samples(&mut self, samples: &[u32])
        requires
            old(self).spec_buffered().len() + samples@.len() <= usize::MAX,
        ensures
            final(self).spec_buffered() == old(self).spec_buffered() + samples@,
            final(self).spec_frame_samples() == old(self).spec_frame_samples(),
    {
        self.buffer.extend_from_slice(samples);
    }

    /// Cut the next full frame off the front of the held samples, or
    /// nothing while fewer than a frame is held.
    pub fn next_frame(&mut self) -> (r: Option<Vec<u32>>)
        ensures
            final(self).spec_frame_samples() == old(self).spec_frame_samples(),
            old(self).spec_buffered().len() < old(self).spec_frame_samples() ==> r is None
                && final(self).spec_buffered() == old(self).spec_buffered(),
            old(self).spec_buffered().len() >= old(self).spec_frame_samples() ==> ({
                &&& (r matches Some(frame) && frame@ == old(self).spec_buffered().take(
                    old(self).spec_frame_samples() as int,
                ))
                &&& final(self).spec_buffered() == old(self).spec_buffered().skip(
                    old(self).spec_frame_samples() as int,
                )
            }),
    {
        if self.buffer.len() < self.frame_samples {
            return None;
        }
        let mut tail = self.buffer.split_off(self.frame_samples);
        core::mem::swap(&mut self.buffer, &mut tail);
        Some(tail)
    }
}

} // verus!
