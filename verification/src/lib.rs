//! Core pipeline of a multi-participant voice-chat client: packetization,
//! wire framing, per-sender jitter buffering, mixing, and session
//! negotiation. Device and network I/O live outside this crate; the library
//! works on plain values (fixed-point samples, byte vectors, integers) and
//! every function here carries a verified contract.

pub mod capture;
pub mod jitter;
pub mod mixer;
pub mod packetizer;
pub mod participants;
pub mod seqnum;
pub mod session;
pub mod transport;
pub mod wire;

use crate::capture::FrameQueue;
use crate::mixer::clamp_spec;
use crate::mixer::sum_at;
use crate::jitter::push_post;
use crate::packetizer::OutboundPacket;
use crate::packetizer::Packetizer;
use crate::participants::active_pulls;
use crate::participants::contains_addr;
use crate::participants::is_active;
use crate::participants::ParticipantTable;
use crate::seqnum::seq_succ_spec;
use vstd::prelude::*;

verus! {

/// Unit amplitude of a fixed-point audio sample: a sample value of
/// `FULL_SCALE` stands for +1.0, `-FULL_SCALE` for -1.0.
pub const FULL_SCALE: i32 = 1048576;

/// A frame of `n` silent samples.
pub open spec fn zero_frame_spec(n: nat) -> Seq<i32> {
    Seq::new(n, |i: int| 0i32)
}

/// Builds a silent frame of `n` samples.
pub fn zero_frame(n: usize) -> (out: Vec<i32>)
    ensures
        out@ == zero_frame_spec(n as nat),
{
    let mut out: Vec<i32> = Vec::new();
    let mut i: usize = 0;
    while i < n
        invariant
            i <= n,
            out@ =~= zero_frame_spec(i as nat),
        decreases n - i,
    {
        out.push(0);
        i = i + 1;
    }
    proof {
        assert(out@ =~= zero_frame_spec(n as nat));
    }
    out
}

/// One send-side tick, input queue to server: takes the oldest captured
/// frame from the hand-off queue (silence when the capture side
/// underran) and packetizes it under the next sequence number and
/// timestamp. The caller encodes and transmits the returned packet.
pub fn send_audio(queue: &mut FrameQueue, packetizer: &mut Packetizer) -> (pkt: OutboundPacket)
    requires
        old(queue).wf(),
        old(queue).frame_size == old(packetizer).frame_size,
    ensures
        final(queue).wf(),
        final(queue).frame_size == old(queue).frame_size,
        final(queue).capacity == old(queue).capacity,
        final(queue).dropped == old(queue).dropped,
        final(queue).frames@ == (if old(queue).frames@.len() == 0 {
            old(queue).frames@
        } else {
            old(queue).frames@.drop_first()
        }),
        final(packetizer).frame_size == old(packetizer).frame_size,
        pkt.sequence == old(packetizer).next_sequence,
        final(packetizer).next_sequence == seq_succ_spec(old(packetizer).next_sequence),
        pkt.capture_timestamp == old(packetizer).samples_sent,
        pkt.payload@.len() == old(packetizer).frame_size,
        old(queue).frames@.len() > 0 ==> pkt.payload@ == old(queue).frames@[0]@,
        old(queue).frames@.len() == 0 ==> pkt.payload@ == zero_frame_spec(
            old(packetizer).frame_size as nat,
        ),
{
    let frame = queue.pop_frame();
    packetizer.tick(frame)
}

/// One receive-side step, server to output queues: files a validated
/// packet's samples into the sending participant's jitter buffer,
/// creating the participant on first contact and refreshing its
/// activity clock.
pub fn enqueue_output_audio(
    table: &mut ParticipantTable,
    now: u64,
    address: u64,
    sequence: u32,
    payload: Vec<i32>,
) -> (known: bool)
    requires
        old(table).wf(),
        payload@.len() == old(table).frame_size,
    ensures
        final(table).wf(),
        old(table).same_config(*final(table)),
        known == (contains_addr(old(table).participants@, address) || old(table).participants@.len() < crate::mixer::MAX_MIX_INPUTS),
        !known ==> *final(table) == *old(table),
        // a known sender: only its entry changes — clock and last-seen
        // sequence refreshed, and its buffer related to its old state by
        // exactly one push of (sequence, payload)
        contains_addr(old(table).participants@, address) ==> exists|i: int|
            {
                &&& 0 <= i < old(table).participants@.len()
                &&& (#[trigger] old(table).participants@[i]).address == address
                &&& final(table).participants@ == old(table).participants@.update(
                    i,
                    final(table).participants@[i],
                )
                &&& final(table).participants@[i].address == address
                &&& final(table).participants@[i].last_activity == now
                &&& final(table).participants@[i].last_sequence_seen == sequence
                &&& push_post(
                    old(table).participants@[i].jitter_buffer@,
                    final(table).participants@[i].jitter_buffer@,
                    sequence,
                    payload@,
                    old(table).participants@[i].jitter_buffer@.push_accepted(sequence),
                )
            },
        // a new sender: re-created (or created) with a one-packet buffer
        // anchored at this sequence, everyone else untouched
        !contains_addr(old(table).participants@, address) && old(table).participants@.len()
            < crate::mixer::MAX_MIX_INPUTS ==> {
            &&& final(table).participants@.len() == old(table).participants@.len() + 1
            &&& final(table).participants@.subrange(0, old(table).participants@.len() as int)
                == old(table).participants@
            &&& final(table).participants@.last().address == address
            &&& final(table).participants@.last().last_activity == now
            &&& final(table).participants@.last().last_sequence_seen == sequence
            &&& final(table).participants@.last().jitter_buffer@.started
            &&& final(table).participants@.last().jitter_buffer@.cursor == sequence
            &&& final(table).participants@.last().jitter_buffer@.entries == seq![
                (sequence, payload@),
            ]
            &&& final(table).participants@.last().jitter_buffer@.misses == 0
            &&& (final(table).participants@.last().jitter_buffer@.state is Steady
                <==> old(table).min_depth <= 1)
            &&& (final(table).participants@.last().jitter_buffer@.state is Steady
                || final(table).participants@.last().jitter_buffer@.state is Filling)
        },
{
    table.on_packet(now, address, sequence, payload)
}

/// One playback tick, output queues to the device: pulls the current
/// frame from every active participant's jitter buffer and mixes them
/// under the hard-clamp policy. The caller hands the returned frame to
/// the playback callback.
pub fn play_audio(table: &mut ParticipantTable, now: u64) -> (out: Vec<i32>)
    requires
        old(table).wf(),
    ensures
        final(table).wf(),
        old(table).same_config(*final(table)),
        final(table).participants@.len() == old(table).participants@.len(),
        // an inactive sender is skipped outright: its entry — buffer,
        // cursor, clock — is untouched
        forall|j: int|
            0 <= j < old(table).participants@.len() && !is_active(
                #[trigger] old(table).participants@[j],
                now,
                old(table).timeout_ms,
            ) ==> final(table).participants@[j] == old(table).participants@[j],
        // each active sender's buffer is pulled exactly once: it moves to
        // its after-pull state (cursor forward only, never replaying a
        // passed sequence), with address, clock and last-seen unchanged
        forall|j: int|
            0 <= j < old(table).participants@.len() && is_active(
                #[trigger] old(table).participants@[j],
                now,
                old(table).timeout_ms,
            ) ==> final(table).participants@[j].jitter_buffer@ == old(table).participants@[j].jitter_buffer@.after_pull() && final(table).participants@[j].address == old(table).participants@[j].address && final(table).participants@[j].last_activity == old(table).participants@[j].last_activity
                && final(table).participants@[j].last_sequence_seen == old(table).participants@[j].last_sequence_seen,
        out@.len() == old(table).frame_size,
        forall|k: int|
            0 <= k < old(table).frame_size ==> out@[k] == clamp_spec(
                sum_at(active_pulls(old(table).participants@, now, old(table).timeout_ms), k),
            ),
        forall|k: int|
            0 <= k < old(table).frame_size ==> -(FULL_SCALE as int) <= #[trigger] out@[k]
                <= FULL_SCALE as int,
{
    table.mix_active(now)
}

} // verus!
