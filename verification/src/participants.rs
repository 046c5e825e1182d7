//! The participant table of the transport receiver.
//!
//! Incoming packets are demultiplexed by sender address: each sender gets
//! its own jitter buffer, an activity clock and a last-seen sequence.
//! A sender silent beyond the inactivity timeout is excluded from mixes
//! and evicted; it is re-created (and so re-included) as soon as its
//! traffic resumes. Mixing pulls one frame from every active sender's
//! buffer and sums them under the mixer's hard-clamp policy.

use crate::jitter::{push_post, JitterBuffer};
use crate::mixer::{clamp_spec, frames_view, mix_frames, sum_at, MAX_MIX_INPUTS};
use vstd::prelude::*;

verus! {

/// One remote sender: its endpoint key, sequencing state, jitter buffer
/// and activity clock (milliseconds, same clock as `now` below).
pub struct Participant {
    pub address: u64,
    pub last_sequence_seen: u32,
    pub jitter_buffer: JitterBuffer,
    pub last_activity: u64,
}

/// The sender was heard within the inactivity timeout (a clock reading
/// from the future counts as active).
pub open spec fn is_active(p: Participant, now: u64, timeout_ms: u64) -> bool {
    p.last_activity + timeout_ms >= now
}

/// Some tracked participant has this address.
pub open spec fn contains_addr(parts: Seq<Participant>, address: u64) -> bool {
    exists|i: int| 0 <= i < parts.len() && (#[trigger] parts[i]).address == address
}

/// The participants that survive eviction at time `now`, in order.
pub open spec fn active_only(parts: Seq<Participant>, now: u64, timeout_ms: u64) -> Seq<
    Participant,
>
    decreases parts.len(),
{
    if parts.len() == 0 {
        Seq::empty()
    } else {
        let rest = active_only(parts.drop_last(), now, timeout_ms);
        if is_active(parts.last(), now, timeout_ms) {
            rest.push(parts.last())
        } else {
            rest
        }
    }
}

/// The frames one mix tick pulls: the pull payload of every active
/// participant's buffer, in table order.
pub open spec fn active_pulls(parts: Seq<Participant>, now: u64, timeout_ms: u64) -> Seq<
    Seq<i32>,
>
    decreases parts.len(),
{
    if parts.len() == 0 {
        Seq::empty()
    } else {
        let rest = active_pulls(parts.drop_last(), now, timeout_ms);
        if is_active(parts.last(), now, timeout_ms) {
            rest.push(parts.last().jitter_buffer@.pull_payload())
        } else {
            rest
        }
    }
}

/// Law: eviction keeps exactly the recently-heard senders — everyone
/// silent beyond the timeout is gone (and so contributes nothing to any
/// later mix), everyone heard within the window is kept unchanged.
pub proof fn lemma_eviction_excludes_inactive(parts: Seq<Participant>, now: u64, timeout_ms: u64)
    ensures
        forall|i: int|
            0 <= i < active_only(parts, now, timeout_ms).len() ==> is_active(
                #[trigger] active_only(parts, now, timeout_ms)[i],
                now,
                timeout_ms,
            ) && parts.contains(active_only(parts, now, timeout_ms)[i]),
        forall|i: int|
            0 <= i < parts.len() && is_active(#[trigger] parts[i], now, timeout_ms)
                ==> active_only(parts, now, timeout_ms).contains(parts[i]),
    decreases parts.len(),
{
    if parts.len() > 0 {
        lemma_eviction_excludes_inactive(parts.drop_last(), now, timeout_ms);
        let rest = active_only(parts.drop_last(), now, timeout_ms);
        let whole = active_only(parts, now, timeout_ms);
        assert forall|i: int| 0 <= i < whole.len() implies is_active(
            #[trigger] whole[i],
            now,
            timeout_ms,
        ) && parts.contains(whole[i]) by {
            if i < rest.len() {
                assert(whole[i] == rest[i]);
                let j = choose|j: int|
                    0 <= j < parts.drop_last().len() && parts.drop_last()[j] == rest[i];
                assert(parts[j] == rest[i]);
            } else {
                assert(whole[i] == parts.last());
                assert(parts[parts.len() - 1] == parts.last());
            }
        }
        assert forall|i: int|
            0 <= i < parts.len() && is_active(#[trigger] parts[i], now, timeout_ms) implies whole
            .contains(parts[i]) by {
            if i < parts.len() - 1 {
                assert(parts.drop_last()[i] == parts[i]);
                let j = choose|j: int| 0 <= j < rest.len() && rest[j] == parts[i];
                assert(whole[j] == parts[i]);
            } else {
                assert(whole[whole.len() - 1] == parts.last());
            }
        }
    }
}

/// The per-room participant table owned by the transport receiver.
pub struct ParticipantTable {
    pub participants: Vec<Participant>,
    pub timeout_ms: u64,
    pub frame_size: usize,
    pub min_depth: usize,
    pub max_depth: usize,
}

impl ParticipantTable {
    /// Table integrity: bounded size, unique addresses, and every
    /// buffer well-formed with this table's configuration.
    pub open spec fn wf(self) -> bool {
        &&& 0 < self.min_depth <= self.max_depth
        &&& 0 < self.frame_size
        &&& self.participants@.len() <= MAX_MIX_INPUTS
        &&& (forall|i: int, j: int|
            0 <= i < j < self.participants@.len() ==> (#[trigger] self.participants@[i]).address
                != (#[trigger] self.participants@[j]).address)
        &&& (forall|i: int|
            0 <= i < self.participants@.len() ==> (#[trigger] self.participants@[i])
                .jitter_buffer@.wf() && self.participants@[i].jitter_buffer@.frame_size
                == self.frame_size as nat && self.participants@[i].jitter_buffer@.min_depth
                == self.min_depth as nat && self.participants@[i].jitter_buffer@.max_depth
                == self.max_depth as nat)
    }

    /// Configuration unchanged by an operation.
    pub open spec fn same_config(self, other: ParticipantTable) -> bool {
        &&& self.timeout_ms == other.timeout_ms
        &&& self.frame_size == other.frame_size
        &&& self.min_depth == other.min_depth
        &&& self.max_depth == other.max_depth
    }

    /// An empty table for a session with this frame size, jitter depth
    /// window and inactivity timeout.
    pub fn new(frame_size: usize, min_depth: usize, max_depth: usize, timeout_ms: u64) -> (t:
        ParticipantTable)
        requires
            0 < min_depth <= max_depth,
            0 < frame_size,
        ensures
            t.wf(),
            t.participants@.len() == 0,
            t.frame_size == frame_size,
            t.min_depth == min_depth,
            t.max_depth == max_depth,
            t.timeout_ms == timeout_ms,
    {
        ParticipantTable { participants: Vec::new(), timeout_ms, frame_size, min_depth, max_depth }
    }

    /// Files one validated packet from `address`: refreshes the sender's
    /// activity clock and last-seen sequence and pushes the payload into
    /// its jitter buffer, creating the sender on first contact. Returns
    /// whether the sender is tracked (a packet from an unknown sender is
    /// ignored only when the table is full).
    pub fn on_packet(
        &mut self,
        now: u64,
        address: u64,
        sequence: u32,
        payload: Vec<i32>,
    ) -> (known: bool)
        requires
            old(self).wf(),
            payload@.len() == old(self).frame_size,
        ensures
            final(self).wf(),
            old(self).same_config(*final(self)),
            known == (contains_addr(old(self).participants@, address) || old(self).participants@.len() < MAX_MIX_INPUTS),
            !known ==> *final(self) == *old(self),
            contains_addr(old(self).participants@, address) ==> exists|i: int|
                {
                    &&& 0 <= i < old(self).participants@.len()
                    &&& (#[trigger] old(self).participants@[i]).address == address
                    &&& final(self).participants@ == old(self).participants@.update(
                        i,
                        final(self).participants@[i],
                    )
                    &&& final(self).participants@[i].address == address
                    &&& final(self).participants@[i].last_activity == now
                    &&& final(self).participants@[i].last_sequence_seen == sequence
                    &&& push_post(
                        old(self).participants@[i].jitter_buffer@,
                        final(self).participants@[i].jitter_buffer@,
                        sequence,
                        payload@,
                        old(self).participants@[i].jitter_buffer@.push_accepted(sequence),
                    )
                },
            !contains_addr(old(self).participants@, address) && old(self).participants@.len()
                < MAX_MIX_INPUTS ==> {
                &&& final(self).participants@.len() == old(self).participants@.len() + 1
                &&& final(self).participants@.subrange(
                    0,
                    old(self).participants@.len() as int,
                ) == old(self).participants@
                &&& final(self).participants@.last().address == address
                &&& final(self).participants@.last().last_activity == now
                &&& final(self).participants@.last().last_sequence_seen == sequence
                &&& final(self).participants@.last().jitter_buffer@.started
                &&& final(self).participants@.last().jitter_buffer@.cursor == sequence
                &&& final(self).participants@.last().jitter_buffer@.entries == seq![
                    (sequence, payload@),
                ]
                &&& final(self).participants@.last().jitter_buffer@.misses == 0
                &&& (final(self).participants@.last().jitter_buffer@.state is Steady
                    <==> old(self).min_depth <= 1)
                &&& (final(self).participants@.last().jitter_buffer@.state is Steady
                    || final(self).participants@.last().jitter_buffer@.state is Filling)
            },
    {
        let n = self.participants.len();
        let mut idx: usize = 0;
        while idx < n && self.participants[idx].address != address
            invariant
                n == self.participants@.len(),
                idx <= n,
                forall|j: int| 0 <= j < idx ==> (#[trigger] self.participants@[j]).address
                    != address,
            decreases n - idx,
        {
            idx = idx + 1;
        }
        if idx < n {
            let mut p = self.participants.remove(idx);
            p.last_activity = now;
            p.last_sequence_seen = sequence;
            let _ = p.jitter_buffer.push(sequence, payload);
            self.participants.insert(idx, p);
            proof {
                assert(self.participants@ =~= old(self).participants@.update(
                    idx as int,
                    self.participants@[idx as int],
                ));
                assert(old(self).participants@[idx as int].address == address);
                assert(contains_addr(old(self).participants@, address));
            }
            return true;
        }
        proof {
            assert(!contains_addr(old(self).participants@, address));
        }
        if n == MAX_MIX_INPUTS {
            return false;
        }
        let mut jb = JitterBuffer::new(self.frame_size, self.min_depth, self.max_depth);
        let _ = jb.push(sequence, payload);
        self.participants.push(
            Participant { address, last_sequence_seen: sequence, jitter_buffer: jb, last_activity: now },
        );
        proof {
            assert(self.participants@.subrange(0, old(self).participants@.len() as int)
                =~= old(self).participants@);
        }
        true
    }

    /// Removes every sender whose last packet is older than the
    /// inactivity timeout; the survivors keep their order and state.
    pub fn evict_inactive(&mut self, now: u64)
        requires
            old(self).wf(),
        ensures
            final(self).wf(),
            old(self).same_config(*final(self)),
            final(self).participants@ == active_only(
                old(self).participants@,
                now,
                old(self).timeout_ms,
            ),
    {
        let ghost orig = self.participants@;
        let mut kept: Vec<Participant> = Vec::new();
        let ghost mut k: int = 0;
        while self.participants.len() > 0
            invariant
                old(self).same_config(*self),
                0 <= k <= orig.len(),
                self.participants@ =~= orig.subrange(k, orig.len() as int),
                kept@ =~= active_only(orig.subrange(0, k), now, self.timeout_ms),
                kept@.len() <= k,
                forall|i: int|
                    0 <= i < kept@.len() ==> exists|j: int|
                        0 <= j < k && #[trigger] kept@[i] == orig[j],
                forall|i: int, j: int|
                    0 <= i < j < kept@.len() ==> (#[trigger] kept@[i]).address
                        != (#[trigger] kept@[j]).address,
                forall|i: int, j: int|
                    0 <= i < j < orig.len() ==> (#[trigger] orig[i]).address
                        != (#[trigger] orig[j]).address,
                forall|i: int|
                    0 <= i < orig.len() ==> (#[trigger] orig[i]).jitter_buffer@.wf()
                        && orig[i].jitter_buffer@.frame_size == self.frame_size as nat
                        && orig[i].jitter_buffer@.min_depth == self.min_depth as nat
                        && orig[i].jitter_buffer@.max_depth == self.max_depth as nat,
            decreases self.participants@.len(),
        {
            let p = self.participants.remove(0);
            let keep = p.last_activity >= now || now - p.last_activity <= self.timeout_ms;
            proof {
                assert(p == orig[k]);
                assert(orig.subrange(0, k + 1).drop_last() =~= orig.subrange(0, k));
                assert(orig.subrange(0, k + 1).last() == orig[k]);
                assert(keep == is_active(orig[k], now, self.timeout_ms));
            }
            if keep {
                proof {
                    assert forall|i: int| 0 <= i < kept@.len() implies (#[trigger] kept@[i])
                        .address != p.address by {
                        let j = choose|j: int| 0 <= j < k && kept@[i] == orig[j];
                        assert(orig[j].address != orig[k].address);
                    }
                }
                kept.push(p);
            }
            proof {
                assert(self.participants@ =~= orig.subrange(k + 1, orig.len() as int));
                k = k + 1;
                assert(kept@ =~= active_only(orig.subrange(0, k), now, self.timeout_ms));
            }
        }
        proof {
            assert(orig.subrange(0, orig.len() as int) =~= orig);
        }
        self.participants = kept;
        proof {
            assert forall|i: int|
                0 <= i < self.participants@.len() implies (#[trigger] self.participants@[i])
                .jitter_buffer@.wf() && self.participants@[i].jitter_buffer@.frame_size
                == self.frame_size as nat && self.participants@[i].jitter_buffer@.min_depth
                == self.min_depth as nat && self.participants@[i].jitter_buffer@.max_depth
                == self.max_depth as nat by {
                let j = choose|j: int| 0 <= j < orig.len() && self.participants@[i] == orig[j];
            }
        }
    }

    /// One output tick: pulls the current frame from every active
    /// sender's buffer (advancing it) and mixes them under the hard-clamp
    /// policy; inactive senders are skipped entirely, their buffers
    /// untouched.
    pub fn mix_active(&mut self, now: u64) -> (out: Vec<i32>)
        requires
            old(self).wf(),
        ensures
            final(self).wf(),
            old(self).same_config(*final(self)),
            final(self).participants@.len() == old(self).participants@.len(),
            forall|j: int|
                0 <= j < old(self).participants@.len() && !is_active(
                    #[trigger] old(self).participants@[j],
                    now,
                    old(self).timeout_ms,
                ) ==> final(self).participants@[j] == old(self).participants@[j],
            forall|j: int|
                0 <= j < old(self).participants@.len() && is_active(
                    #[trigger] old(self).participants@[j],
                    now,
                    old(self).timeout_ms,
                ) ==> final(self).participants@[j].jitter_buffer@ == old(self).participants@[j].jitter_buffer@.after_pull() && final(self).participants@[j].address == old(self).participants@[j].address && final(self).participants@[j].last_activity == old(self).participants@[j].last_activity
                    && final(self).participants@[j].last_sequence_seen == old(self).participants@[j].last_sequence_seen,
            out@.len() == old(self).frame_size,
            forall|k: int|
                0 <= k < old(self).frame_size ==> out@[k] == clamp_spec(
                    sum_at(active_pulls(old(self).participants@, now, old(self).timeout_ms), k),
                ),
    {
        let mut frames: Vec<Vec<i32>> = Vec::new();
        let n = self.participants.len();
        let mut i: usize = 0;
        while i < n
            invariant
                self.wf(),
                old(self).same_config(*self),
                n == self.participants@.len(),
                n == old(self).participants@.len(),
                i <= n,
                forall|j: int| i <= j < n ==> self.participants@[j] == old(self).participants@[j],
                forall|j: int|
                    0 <= j < i && !is_active(
                        #[trigger] old(self).participants@[j],
                        now,
                        old(self).timeout_ms,
                    ) ==> self.participants@[j] == old(self).participants@[j],
                forall|j: int|
                    0 <= j < i && is_active(
                        #[trigger] old(self).participants@[j],
                        now,
                        old(self).timeout_ms,
                    ) ==> self.participants@[j].jitter_buffer@ == old(self).participants@[j].jitter_buffer@.after_pull() && self.participants@[j].address
                        == old(self).participants@[j].address && self.participants@[j].last_activity
                        == old(self).participants@[j].last_activity
                        && self.participants@[j].last_sequence_seen == old(self).participants@[j].last_sequence_seen,
                frames@.len() <= i,
                forall|f: int| 0 <= f < frames@.len() ==> (#[trigger] frames@[f])@.len()
                    == self.frame_size,
                frames_view(frames@) =~= active_pulls(
                    old(self).participants@.subrange(0, i as int),
                    now,
                    old(self).timeout_ms,
                ),
            decreases n - i,
        {
            let active = self.participants[i].last_activity >= now || now
                - self.participants[i].last_activity <= self.timeout_ms;
            proof {
                assert(active == is_active(old(self).participants@[i as int], now, old(self).timeout_ms));
                assert(old(self).participants@.subrange(0, i + 1).drop_last() =~= old(self).participants@.subrange(0, i as int));
                assert(old(self).participants@.subrange(0, i + 1).last() == old(self).participants@[i as int]);
            }
            if active {
                let ghost pre = self.participants@;
                let mut p = self.participants.remove(i);
                let r = p.jitter_buffer.pull();
                self.participants.insert(i, p);
                frames.push(r.0);
                proof {
                    assert(self.participants@ =~= pre.update(
                        i as int,
                        self.participants@[i as int],
                    ));
                }
                proof {
                    assert(frames_view(frames@) =~= active_pulls(
                        old(self).participants@.subrange(0, i + 1),
                        now,
                        old(self).timeout_ms,
                    ));
                }
            }
            i = i + 1;
        }
        proof {
            assert(old(self).participants@.subrange(0, n as int) =~= old(self).participants@);
        }
        mix_frames(&frames, self.frame_size)
    }
}

} // verus!
