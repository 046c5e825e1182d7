//! Per-participant jitter buffer.
//!
//! The buffer absorbs network reordering and loss. `push` inserts packets
//! keyed by sequence number; `pull` always hands back exactly one frame:
//! the buffered payload when the cursor's packet arrived in time, and a
//! silent concealment frame otherwise (silence concealment is this
//! library's documented policy). The playback cursor only ever moves
//! forward in modular sequence space; a frame whose sequence the cursor
//! has already passed is discarded on push and can never be played.
//!
//! States follow the `Filling -> Steady -> Underrun -> Steady` cycle:
//! `Filling` until a minimum depth is reached, `Underrun` after
//! `MISS_THRESHOLD` consecutive concealments, back to `Steady` when a
//! packet at or after the cursor arrives (the cursor resynchronizes to the
//! earliest buffered packet).

use crate::seqnum::{
    lemma_delta_injective, lemma_delta_shift, lemma_delta_succ, lemma_succ_is_next, seq_delta,
    seq_delta_spec, seq_in_window, seq_succ, seq_succ_spec,
};
use crate::{zero_frame, zero_frame_spec};
use vstd::prelude::*;

verus! {

/// Consecutive concealment frames after which the buffer declares underrun.
pub const MISS_THRESHOLD: u32 = 3;

/// Phase of the fill/playback cycle.
#[derive(Clone, Copy, PartialEq, Eq, Structural, Debug)]
pub enum BufferState {
    Filling,
    Steady,
    Underrun,
}

/// What a `pull` produced.
#[derive(Clone, Copy, PartialEq, Eq, Structural, Debug)]
pub enum PullKind {
    /// Still filling: a silent frame, cursor untouched.
    Waiting,
    /// The buffered payload for the cursor sequence.
    Frame,
    /// The cursor's packet is missing: a silent concealment frame.
    Concealed,
}

/// Mathematical model of a jitter buffer: entries are `(sequence, payload)`
/// pairs ordered by their modular distance from the cursor.
#[verifier::ext_equal]
pub ghost struct BufModel {
    pub state: BufferState,
    pub started: bool,
    pub cursor: u32,
    pub entries: Seq<(u32, Seq<i32>)>,
    pub misses: u32,
    pub frame_size: nat,
    pub min_depth: nat,
    pub max_depth: nat,
}

/// Some buffered entry carries sequence number `s`.
pub open spec fn contains_seqnum(entries: Seq<(u32, Seq<i32>)>, s: u32) -> bool {
    exists|i: int| 0 <= i < entries.len() && (#[trigger] entries[i]).0 == s
}

/// The entries an accepted push is inserted into: a full buffer first
/// sheds its oldest entry.
pub open spec fn push_base(m: BufModel) -> Seq<(u32, Seq<i32>)> {
    if m.entries.len() == m.max_depth {
        m.entries.drop_first()
    } else {
        m.entries
    }
}

/// Length of `push_base(m)`.
pub open spec fn push_base_len(m: BufModel) -> nat {
    push_base(m).len()
}

/// The slot an in-order insert of sequence `s` takes among `entries`
/// (sorted by modular distance from `c`): the number of entries strictly
/// closer to the cursor than `s`.
pub open spec fn ordered_insert_pos(c: u32, entries: Seq<(u32, Seq<i32>)>, s: u32) -> int
    decreases entries.len(),
{
    if entries.len() == 0 {
        0
    } else if seq_delta_spec(c, entries[0].0) < seq_delta_spec(c, s) {
        1 + ordered_insert_pos(c, entries.drop_first(), s)
    } else {
        0
    }
}

/// A position with everything before it closer than `s` and everything
/// from it on farther is the ordered insert slot.
pub proof fn lemma_ordered_insert_pos_char(
    c: u32,
    entries: Seq<(u32, Seq<i32>)>,
    s: u32,
    pos: int,
)
    requires
        0 <= pos <= entries.len(),
        forall|j: int|
            0 <= j < pos ==> seq_delta_spec(c, (#[trigger] entries[j]).0) < seq_delta_spec(c, s),
        forall|j: int|
            pos <= j < entries.len() ==> seq_delta_spec(c, (#[trigger] entries[j]).0)
                > seq_delta_spec(c, s),
    ensures
        ordered_insert_pos(c, entries, s) == pos,
    decreases entries.len(),
{
    if entries.len() > 0 && pos > 0 {
        let d = entries.drop_first();
        assert forall|j: int| 0 <= j < pos - 1 implies seq_delta_spec(c, (#[trigger] d[j]).0)
            < seq_delta_spec(c, s) by {
            assert(d[j] == entries[j + 1]);
        }
        assert forall|j: int| pos - 1 <= j < d.len() implies seq_delta_spec(
            c,
            (#[trigger] d[j]).0,
        ) > seq_delta_spec(c, s) by {
            assert(d[j] == entries[j + 1]);
        }
        lemma_ordered_insert_pos_char(c, d, s, pos - 1);
    }
}

/// Every payload holds exactly `frame_size` samples.
pub open spec fn payloads_sized(frame_size: nat, entries: Seq<(u32, Seq<i32>)>) -> bool {
    forall|i: int| 0 <= i < entries.len() ==> (#[trigger] entries[i]).1.len() == frame_size
}

/// Every entry lies in the cursor's forward window.
pub open spec fn entries_in_window(c: u32, entries: Seq<(u32, Seq<i32>)>) -> bool {
    forall|i: int| 0 <= i < entries.len() ==> seq_in_window(c, (#[trigger] entries[i]).0)
}

/// Entries are strictly ordered by modular distance from the cursor.
pub open spec fn entries_ordered(c: u32, entries: Seq<(u32, Seq<i32>)>) -> bool {
    forall|i: int, j: int|
        0 <= i < j < entries.len() ==> seq_delta_spec(c, (#[trigger] entries[i]).0)
            < seq_delta_spec(c, (#[trigger] entries[j]).0)
}

/// Shedding the oldest entry keeps the buffer's ordering facts.
pub proof fn lemma_drop_first_props(c: u32, frame_size: nat, entries: Seq<(u32, Seq<i32>)>)
    requires
        entries.len() > 0,
        payloads_sized(frame_size, entries),
        entries_in_window(c, entries),
        entries_ordered(c, entries),
    ensures
        payloads_sized(frame_size, entries.drop_first()),
        entries_in_window(c, entries.drop_first()),
        entries_ordered(c, entries.drop_first()),
{
    let d = entries.drop_first();
    assert forall|i: int| 0 <= i < d.len() implies (#[trigger] d[i]).1.len() == frame_size
        && seq_in_window(c, d[i].0) by {
        assert(d[i] == entries[i + 1]);
    }
    assert forall|i: int, j: int| 0 <= i < j < d.len() implies seq_delta_spec(
        c,
        (#[trigger] d[i]).0,
    ) < seq_delta_spec(c, (#[trigger] d[j]).0) by {
        assert(d[i] == entries[i + 1]);
        assert(d[j] == entries[j + 1]);
    }
}

/// Inserting a packet at its ordered slot keeps the buffer's ordering
/// facts and records the packet.
pub proof fn lemma_insert_props(
    c: u32,
    frame_size: nat,
    base: Seq<(u32, Seq<i32>)>,
    s: u32,
    p: Seq<i32>,
    pos: int,
)
    requires
        0 <= pos <= base.len(),
        p.len() == frame_size,
        seq_in_window(c, s),
        payloads_sized(frame_size, base),
        entries_in_window(c, base),
        entries_ordered(c, base),
        forall|j: int|
            0 <= j < pos ==> seq_delta_spec(c, (#[trigger] base[j]).0) < seq_delta_spec(c, s),
        forall|j: int|
            pos <= j < base.len() ==> seq_delta_spec(c, (#[trigger] base[j]).0)
                > seq_delta_spec(c, s),
    ensures
        payloads_sized(frame_size, base.insert(pos, (s, p))),
        entries_in_window(c, base.insert(pos, (s, p))),
        entries_ordered(c, base.insert(pos, (s, p))),
        base.insert(pos, (s, p))[pos] == (s, p),
        contains_seqnum(base.insert(pos, (s, p)), s),
{
    let e = base.insert(pos, (s, p));
    assert forall|i: int| 0 <= i < e.len() implies (#[trigger] e[i]) == (if i < pos {
        base[i]
    } else if i == pos {
        (s, p)
    } else {
        base[i - 1]
    }) by {}
    assert forall|i: int| 0 <= i < e.len() implies (#[trigger] e[i]).1.len() == frame_size
        && seq_in_window(c, e[i].0) by {}
    assert forall|i: int, j: int| 0 <= i < j < e.len() implies seq_delta_spec(
        c,
        (#[trigger] e[i]).0,
    ) < seq_delta_spec(c, (#[trigger] e[j]).0) by {}
    assert(e[pos].0 == s);
}

/// Moving the cursor forward to the oldest buffered sequence keeps every
/// entry in window and in order, with the head at distance zero.
pub proof fn lemma_rebase_cursor(c: u32, entries: Seq<(u32, Seq<i32>)>)
    requires
        entries.len() > 0,
        entries_in_window(c, entries),
        entries_ordered(c, entries),
    ensures
        entries_in_window(entries[0].0, entries),
        entries_ordered(entries[0].0, entries),
        seq_delta_spec(entries[0].0, entries[0].0) == 0,
        seq_in_window(c, entries[0].0),
{
    let h = entries[0].0;
    assert forall|j: int| 0 <= j < entries.len() implies seq_delta_spec(
        h,
        (#[trigger] entries[j]).0,
    ) == seq_delta_spec(c, entries[j].0) - seq_delta_spec(c, h) by {
        if j > 0 {
            assert(seq_delta_spec(c, entries[0].0) < seq_delta_spec(c, entries[j].0));
        }
        lemma_delta_shift(c, h, entries[j].0);
    }
}

impl BufModel {
    /// Well-formedness: bounded depth, full-sized payloads, every entry at
    /// or after the cursor, entries strictly ordered by distance from it.
    pub open spec fn wf(self) -> bool {
        &&& 0 < self.min_depth <= self.max_depth
        &&& 0 < self.frame_size
        &&& self.entries.len() <= self.max_depth
        &&& payloads_sized(self.frame_size, self.entries)
        &&& entries_in_window(self.cursor, self.entries)
        &&& entries_ordered(self.cursor, self.entries)
        &&& (!self.started ==> self.entries.len() == 0 && self.state is Filling)
    }

    /// The buffer has not begun playback: it still returns silence and
    /// holds its cursor.
    pub open spec fn waiting(self) -> bool {
        !self.started || self.state is Filling
    }

    /// The packet for the cursor sequence is buffered and ready.
    pub open spec fn frame_ready(self) -> bool {
        &&& !self.waiting()
        &&& self.entries.len() > 0
        &&& self.entries[0].0 == self.cursor
    }

    /// The frame a `pull` returns: the cursor's payload when present, a
    /// silent frame otherwise.
    pub open spec fn pull_payload(self) -> Seq<i32> {
        if self.frame_ready() {
            self.entries[0].1
        } else {
            zero_frame_spec(self.frame_size)
        }
    }

    /// The kind of result a `pull` reports.
    pub open spec fn pull_kind(self) -> PullKind {
        if self.waiting() {
            PullKind::Waiting
        } else if self.frame_ready() {
            PullKind::Frame
        } else {
            PullKind::Concealed
        }
    }

    /// Whether a push of sequence `s` is kept: the first packet always is;
    /// afterwards a packet is dropped when it is out of the cursor's
    /// window (already played or unreachably far ahead), a duplicate, or
    /// older than everything in a buffer that is already full.
    pub open spec fn push_accepted(self, s: u32) -> bool {
        if !self.started {
            true
        } else if !seq_in_window(self.cursor, s) {
            false
        } else if contains_seqnum(self.entries, s) {
            false
        } else if self.entries.len() == self.max_depth && seq_delta_spec(self.cursor, s)
            < seq_delta_spec(self.cursor, self.entries[0].0) {
            false
        } else {
            true
        }
    }

    /// The buffer after one `pull`.
    pub open spec fn after_pull(self) -> BufModel {
        if self.waiting() {
            self
        } else if self.frame_ready() {
            BufModel {
                cursor: seq_succ_spec(self.cursor),
                entries: self.entries.drop_first(),
                misses: 0,
                state: BufferState::Steady,
                ..self
            }
        } else {
            BufModel {
                cursor: seq_succ_spec(self.cursor),
                misses: if self.misses >= MISS_THRESHOLD {
                    self.misses
                } else {
                    (self.misses + 1) as u32
                },
                state: if self.misses + 1 >= MISS_THRESHOLD {
                    BufferState::Underrun
                } else {
                    self.state
                },
                ..self
            }
        }
    }
}

/// Everything `push` guarantees, gathered as one relation between the
/// buffer model before (`pre`) and after (`post`) pushing `(s, p)`, so
/// that contracts about a buffer owned by a larger structure can restate
/// the effect of a push in one clause.
pub open spec fn push_post(
    pre: BufModel,
    post: BufModel,
    s: u32,
    p: Seq<i32>,
    accepted: bool,
) -> bool {
    &&& post.wf()
    &&& accepted == pre.push_accepted(s)
    &&& post.frame_size == pre.frame_size
    &&& post.min_depth == pre.min_depth
    &&& post.max_depth == pre.max_depth
    &&& post.started == (pre.started || accepted)
    &&& (pre.started ==> seq_in_window(pre.cursor, post.cursor))
    &&& (pre.started && !accepted ==> post == pre)
    &&& (!pre.started ==> post.cursor == s && post.entries == seq![(s, p)])
    &&& (pre.started && accepted ==> post.entries == push_base(pre).insert(
        ordered_insert_pos(pre.cursor, push_base(pre), s),
        (s, p),
    ))
    &&& (accepted ==> contains_seqnum(post.entries, s))
    &&& (accepted ==> post.entries.len() == push_base_len(pre) + 1)
    &&& (pre.started && !(pre.state is Underrun) ==> post.cursor == pre.cursor)
    &&& (pre.state is Steady ==> post.state is Steady && post.misses == pre.misses)
    &&& (accepted && pre.state is Filling ==> (post.state is Steady <==> post.entries.len()
        >= pre.min_depth) && (post.state is Steady || post.state is Filling) && post.misses
        == pre.misses)
    &&& (accepted && pre.state is Underrun ==> post.state is Steady && post.misses == 0
        && post.cursor == post.entries[0].0)
}

/// Law: playback never replays a sequence the cursor has advanced past.
/// A pull that reports `Frame` hands back exactly the payload buffered for
/// the cursor's own sequence, and a pull moves the cursor only forward —
/// either not at all (still filling) or to the immediate successor.
pub proof fn lemma_pull_never_replays(m: BufModel)
    requires
        m.wf(),
    ensures
        m.pull_kind() is Frame ==> m.entries[0].0 == m.cursor && m.pull_payload()
            == m.entries[0].1,
        seq_in_window(m.cursor, m.after_pull().cursor),
        m.after_pull().cursor == m.cursor || m.after_pull().cursor == seq_succ_spec(m.cursor),
{
    lemma_succ_is_next(m.cursor);
}

/// Law: in steady playback, a gap of exactly one missing sequence costs
/// exactly one concealment frame. The pull at the missing sequence
/// conceals and advances; the very next pull returns the buffered frame
/// just after the gap, and playback then continues past it.
pub proof fn lemma_single_gap_single_concealment(m: BufModel)
    requires
        m.wf(),
        m.started,
        m.state is Steady,
        m.entries.len() > 0,
        m.entries[0].0 == seq_succ_spec(m.cursor),
    ensures
        m.pull_kind() is Concealed,
        m.after_pull().pull_kind() is Frame,
        m.after_pull().pull_payload() == m.entries[0].1,
        m.after_pull().after_pull().cursor == seq_succ_spec(seq_succ_spec(m.cursor)),
{
    lemma_succ_is_next(m.cursor);
}

/// A bounded, sequence-ordered reordering buffer for one participant.
pub struct JitterBuffer {
    state: BufferState,
    started: bool,
    cursor: u32,
    entries: Vec<(u32, Vec<i32>)>,
    misses: u32,
    frame_size: usize,
    min_depth: usize,
    max_depth: usize,
}

impl View for JitterBuffer {
    type V = BufModel;

    closed spec fn view(&self) -> BufModel {
        BufModel {
            state: self.state,
            started: self.started,
            cursor: self.cursor,
            entries: self.entries@.map_values(|e: (u32, Vec<i32>)| (e.0, e.1@)),
            misses: self.misses,
            frame_size: self.frame_size as nat,
            min_depth: self.min_depth as nat,
            max_depth: self.max_depth as nat,
        }
    }
}

impl JitterBuffer {
    /// Creates an empty buffer that will report `Steady` once `min_depth`
    /// packets are buffered and never holds more than `max_depth`.
    pub fn new(frame_size: usize, min_depth: usize, max_depth: usize) -> (b: JitterBuffer)
        requires
            0 < min_depth <= max_depth,
            0 < frame_size,
        ensures
            b@.wf(),
            !b@.started,
            b@.state is Filling,
            b@.misses == 0,
            b@.entries.len() == 0,
            b@.frame_size == frame_size as nat,
            b@.min_depth == min_depth as nat,
            b@.max_depth == max_depth as nat,
    {
        JitterBuffer {
            state: BufferState::Filling,
            started: false,
            cursor: 0,
            entries: Vec::new(),
            misses: 0,
            frame_size,
            min_depth,
            max_depth,
        }
    }

    /// Current state, for scheduling decisions outside the buffer.
    pub fn state(&self) -> (s: BufferState)
        ensures
            s == self@.state,
    {
        self.state
    }

    /// How many packets are buffered.
    pub fn depth(&self) -> (n: usize)
        ensures
            n == self@.entries.len(),
    {
        self.entries.len()
    }

    /// Buffers the packet `(s, payload)` in sequence order. The first
    /// packet anchors the cursor at its own sequence; later packets are
    /// dropped when already played out (behind the cursor's window), when
    /// duplicated, or when older than every entry of a full buffer; a full
    /// buffer otherwise evicts its oldest entry in favor of the newcomer.
    /// The cursor never moves backward; in `Underrun` an accepted packet
    /// resynchronizes it forward to the oldest buffered sequence, and in
    /// `Filling` reaching `min_depth` buffered packets starts playback.
    #[verifier::rlimit(100)]
    pub fn push(&mut self, s: u32, payload: Vec<i32>) -> (accepted: bool)
        requires
            old(self)@.wf(),
            payload@.len() == old(self)@.frame_size,
        ensures
            final(self)@.wf(),
            accepted == old(self)@.push_accepted(s),
            final(self)@.frame_size == old(self)@.frame_size,
            final(self)@.min_depth == old(self)@.min_depth,
            final(self)@.max_depth == old(self)@.max_depth,
            final(self)@.started == (old(self)@.started || accepted),
            // the cursor never rewinds
            old(self)@.started ==> seq_in_window(old(self)@.cursor, final(self)@.cursor),
            // a rejected push leaves the buffer untouched
            old(self)@.started && !accepted ==> final(self)@ == old(self)@,
            // the first packet anchors playback at its own sequence
            !old(self)@.started ==> final(self)@.cursor == s && final(self)@.entries == seq![
                (s, payload@),
            ],
            // an accepted later packet is inserted in order, evicting the
            // oldest entry of a full buffer
            old(self)@.started && accepted ==> final(self)@.entries == push_base(
                old(self)@,
            ).insert(ordered_insert_pos(old(self)@.cursor, push_base(old(self)@), s), (s, payload@)),
            accepted ==> contains_seqnum(final(self)@.entries, s),
            accepted ==> final(self)@.entries.len() == push_base_len(old(self)@) + 1,
            // state transitions
            old(self)@.started && !(old(self)@.state is Underrun) ==> final(self)@.cursor
                == old(self)@.cursor,
            old(self)@.state is Steady ==> final(self)@.state is Steady && final(self)@.misses
                == old(self)@.misses,
            accepted && (old(self)@.state is Filling) ==> (final(self)@.state is Steady
                <==> final(self)@.entries.len() >= old(self)@.min_depth) && (final(self)@.state
                is Steady || final(self)@.state is Filling) && final(self)@.misses
                == old(self)@.misses,
            accepted && old(self)@.state is Underrun ==> final(self)@.state is Steady
                && final(self)@.misses == 0 && final(self)@.cursor == final(self)@.entries[0].0,
            push_post(old(self)@, final(self)@, s, payload@, accepted),
    {
        if !self.started {
            self.started = true;
            self.cursor = s;
            self.entries.push((s, payload));
            if self.min_depth <= 1 {
                self.state = BufferState::Steady;
            }
            proof {
                assert(self@.entries =~= seq![(s, payload@)]);
                assert(self@.entries[0].0 == s);
                assert(seq_delta_spec(s, s) == 0);
            }
            return true;
        }
        let d = seq_delta(self.cursor, s);
        if d >= 0x8000_0000u32 {
            return false;
        }
        let mut i: usize = 0;
        while i < self.entries.len() && seq_delta(self.cursor, self.entries[i].0) < d
            invariant
                old(self)@.wf(),
                *self == *old(self),
                i <= self.entries.len(),
                d == seq_delta_spec(self.cursor, s),
                forall|j: int|
                    0 <= j < i ==> seq_delta_spec(self.cursor, (#[trigger] self@.entries[j]).0)
                        < d,
            decreases self.entries.len() - i,
        {
            i = i + 1;
        }
        proof {
            if i < self@.entries.len() && self@.entries[i as int].0 != s {
                assert(seq_delta_spec(self.cursor, self@.entries[i as int].0) != d) by {
                    if seq_delta_spec(self.cursor, self@.entries[i as int].0) == d {
                        lemma_delta_injective(self.cursor, self@.entries[i as int].0, s);
                    }
                };
            }
        }
        if i < self.entries.len() && self.entries[i].0 == s {
            proof {
                assert(contains_seqnum(old(self)@.entries, s));
                assert(self@ =~= old(self)@);
            }
            return false;
        }
        proof {
            assert forall|j: int| i <= j < self@.entries.len() implies seq_delta_spec(
                self.cursor,
                (#[trigger] self@.entries[j]).0,
            ) > d by {
                assert(seq_delta_spec(self.cursor, self@.entries[i as int].0) >= d);
                if seq_delta_spec(self.cursor, self@.entries[j].0) == d {
                    lemma_delta_injective(self.cursor, self@.entries[j].0, s);
                }
            }
            assert forall|j: int| 0 <= j < self@.entries.len() implies (#[trigger] self@
                .entries[j]).0 != s by {
                if j < i {
                    assert(seq_delta_spec(self.cursor, self@.entries[j].0) < d);
                } else {
                    assert(seq_delta_spec(self.cursor, self@.entries[j].0) > d);
                }
            }
            assert(!contains_seqnum(old(self)@.entries, s));
        }
        let mut pos = i;
        if self.entries.len() == self.max_depth {
            if i == 0 {
                proof {
                    assert(self@ =~= old(self)@);
                }
                return false;
            }
            self.entries.remove(0);
            pos = pos - 1;
        }
        proof {
            if old(self)@.entries.len() == old(self)@.max_depth {
                lemma_drop_first_props(
                    self.cursor,
                    old(self)@.frame_size,
                    old(self)@.entries,
                );
            }
            assert(self@.entries =~= push_base(old(self)@));
            assert forall|j: int| 0 <= j < pos implies seq_delta_spec(
                self.cursor,
                (#[trigger] self@.entries[j]).0,
            ) < d by {
                if pos < i {
                    assert(self@.entries[j] == old(self)@.entries[j + 1]);
                }
            }
            assert forall|j: int| pos <= j < self@.entries.len() implies seq_delta_spec(
                self.cursor,
                (#[trigger] self@.entries[j]).0,
            ) > d by {
                if pos < i {
                    assert(self@.entries[j] == old(self)@.entries[j + 1]);
                }
            }
        }
        let ghost base = self@.entries;
        self.entries.insert(pos, (s, payload));
        proof {
            assert(self@.entries =~= base.insert(pos as int, (s, payload@)));
            lemma_insert_props(
                self.cursor,
                old(self)@.frame_size,
                base,
                s,
                payload@,
                pos as int,
            );
            assert(self@.entries[pos as int].0 == s);
            assert(contains_seqnum(self@.entries, s));
        }
        match self.state {
            BufferState::Filling => {
                if self.entries.len() >= self.min_depth {
                    self.state = BufferState::Steady;
                }
            },
            BufferState::Steady => {},
            BufferState::Underrun => {
                self.state = BufferState::Steady;
                self.misses = 0;
                let head = self.entries[0].0;
                proof {
                    lemma_rebase_cursor(self.cursor, self@.entries);
                }
                self.cursor = head;
            },
        }
        proof {
            lemma_ordered_insert_pos_char(
                old(self).cursor,
                push_base(old(self)@),
                s,
                pos as int,
            );
            assert(self@.entries == push_base(old(self)@).insert(pos as int, (s, payload@)));
        }
        true
    }

    /// Hands back one frame of `frame_size` samples and advances playback:
    /// the buffered payload when the cursor's packet is present, silence
    /// while filling (cursor held) or as concealment for a missing packet
    /// (cursor advanced regardless, so a late packet can never rewind it).
    pub fn pull(&mut self) -> (r: (Vec<i32>, PullKind))
        requires
            old(self)@.wf(),
        ensures
            final(self)@ == old(self)@.after_pull(),
            final(self)@.wf(),
            r.0@ == old(self)@.pull_payload(),
            r.1 == old(self)@.pull_kind(),
    {
        if !self.started || matches!(self.state, BufferState::Filling) {
            let out = zero_frame(self.frame_size);
            proof {
                assert(self@ =~= old(self)@.after_pull());
            }
            return (out, PullKind::Waiting);
        }
        if self.entries.len() > 0 && self.entries[0].0 == self.cursor {
            let e = self.entries.remove(0);
            proof {
                assert forall|i: int| 1 <= i < old(self)@.entries.len() implies seq_delta_spec(
                    old(self).cursor,
                    old(self)@.entries[i].0,
                ) >= 1 by {
                    assert(seq_delta_spec(old(self).cursor, old(self)@.entries[0].0) == 0);
                }
            }
            self.cursor = seq_succ(self.cursor);
            self.misses = 0;
            self.state = BufferState::Steady;
            proof {
                assert(self@.entries =~= old(self)@.entries.drop_first());
                assert(self@ =~= old(self)@.after_pull());
                assert forall|i: int| 0 <= i < self@.entries.len() implies seq_delta_spec(
                    self@.cursor,
                    (#[trigger] self@.entries[i]).0,
                ) == seq_delta_spec(old(self)@.cursor, old(self)@.entries[i + 1].0) - 1 by {
                    lemma_delta_succ(old(self).cursor, old(self)@.entries[i + 1].0);
                }
            }
            return (e.1, PullKind::Frame);
        }
        let out = zero_frame(self.frame_size);
        proof {
            assert forall|i: int| 0 <= i < self@.entries.len() implies seq_delta_spec(
                self.cursor,
                (#[trigger] self@.entries[i]).0,
            ) >= 1 by {
                if seq_delta_spec(self.cursor, self@.entries[i].0) == 0 {
                    lemma_delta_injective(self.cursor, self@.entries[i].0, self.cursor);
                    assert(i > 0);
                    assert(seq_delta_spec(self.cursor, self@.entries[0].0) < 0);
                }
            }
        }
        self.cursor = seq_succ(self.cursor);
        if self.misses < MISS_THRESHOLD {
            self.misses = self.misses + 1;
        }
        if self.misses >= MISS_THRESHOLD {
            self.state = BufferState::Underrun;
        }
        proof {
            assert(self@ =~= old(self)@.after_pull());
            assert forall|i: int| 0 <= i < self@.entries.len() implies seq_delta_spec(
                self@.cursor,
                (#[trigger] self@.entries[i]).0,
            ) == seq_delta_spec(old(self)@.cursor, old(self)@.entries[i].0) - 1 by {
                lemma_delta_succ(old(self).cursor, old(self)@.entries[i].0);
            }
        }
        (out, PullKind::Concealed)
    }
}

} // verus!
