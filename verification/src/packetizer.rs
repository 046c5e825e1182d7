//! Packetization of captured frames.
//!
//! One packet is emitted per cadence tick with a wrapping sequence number
//! starting at 0 and a capture timestamp counted in samples since the
//! session started. The documented underrun policy is emit-silence: a
//! tick with no captured frame still emits an all-zero payload, so the
//! sender's sequence stays continuous and a receiver can attribute every
//! sequence gap to network loss.

use crate::seqnum::{seq_succ, seq_succ_spec};
use crate::{zero_frame, zero_frame_spec};
use vstd::prelude::*;

verus! {

/// An outbound packet before wire encoding: fixed-point samples plus the
/// sequencing header the packetizer assigns.
pub struct OutboundPacket {
    pub sequence: u32,
    pub capture_timestamp: u64,
    pub payload: Vec<i32>,
}

/// Assigns sequence numbers and sample-count timestamps to outgoing
/// frames, one packet per tick.
pub struct Packetizer {
    pub next_sequence: u32,
    pub samples_sent: u64,
    pub frame_size: usize,
}

impl Packetizer {
    /// A packetizer at the start of a session: sequence 0, timestamp 0.
    pub fn new(frame_size: usize) -> (p: Packetizer)
        requires
            0 < frame_size,
        ensures
            p.next_sequence == 0,
            p.samples_sent == 0,
            p.frame_size == frame_size,
    {
        Packetizer { next_sequence: 0, samples_sent: 0, frame_size }
    }

    /// Emits the packet for one cadence tick: the captured frame, or a
    /// silent payload on capture underrun (emit-silence policy). The
    /// sequence number advances by one, wrapping; the timestamp advances
    /// by one frame of samples, saturating at the top of its range.
    pub fn tick(&mut self, frame: Option<Vec<i32>>) -> (p: OutboundPacket)
        requires
            frame matches Some(f) ==> f@.len() == old(self).frame_size,
        ensures
            final(self).frame_size == old(self).frame_size,
            p.sequence == old(self).next_sequence,
            final(self).next_sequence == seq_succ_spec(old(self).next_sequence),
            p.capture_timestamp == old(self).samples_sent,
            final(self).samples_sent == (if old(self).samples_sent + old(self).frame_size
                <= u64::MAX {
                old(self).samples_sent + old(self).frame_size
            } else {
                u64::MAX as int
            }),
            p.payload@.len() == old(self).frame_size,
            frame matches Some(f) ==> p.payload@ == f@,
            frame is None ==> p.payload@ == zero_frame_spec(old(self).frame_size as nat),
    {
        let payload = match frame {
            Some(f) => f,
            None => zero_frame(self.frame_size),
        };
        let sequence = self.next_sequence;
        let capture_timestamp = self.samples_sent;
        self.next_sequence = seq_succ(self.next_sequence);
        if self.samples_sent <= u64::MAX - self.frame_size as u64 {
            self.samples_sent = self.samples_sent + self.frame_size as u64;
        } else {
            self.samples_sent = u64::MAX;
        }
        OutboundPacket { sequence, capture_timestamp, payload }
    }
}

} // verus!
