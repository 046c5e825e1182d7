use voicechat::jitter::{BufferState, JitterBuffer, PullKind, MISS_THRESHOLD};
use voicechat::seqnum::{seq_delta, seq_is_in_window, seq_succ};

fn frame(fill: i32, n: usize) -> Vec<i32> {
    vec![fill; n]
}

#[test]
fn filling_pulls_silence_without_moving() {
    let mut b = JitterBuffer::new(4, 2, 8);
    let (out, kind) = b.pull();
    assert_eq!(kind, PullKind::Waiting);
    assert_eq!(out, vec![0, 0, 0, 0]);
    assert!(matches!(b.state(), BufferState::Filling));
}

#[test]
fn reaches_steady_at_min_depth_and_plays_in_order() {
    let mut b = JitterBuffer::new(2, 2, 8);
    assert!(b.push(10, frame(1, 2)));
    assert!(matches!(b.state(), BufferState::Filling));
    // out-of-order arrival: 12 before 11
    assert!(b.push(12, frame(3, 2)));
    assert!(matches!(b.state(), BufferState::Steady));
    assert!(b.push(11, frame(2, 2)));
    assert_eq!(b.depth(), 3);
    let (o1, k1) = b.pull();
    assert_eq!((o1[0], k1), (1, PullKind::Frame));
    let (o2, k2) = b.pull();
    assert_eq!((o2[0], k2), (2, PullKind::Frame));
    let (o3, k3) = b.pull();
    assert_eq!((o3[0], k3), (3, PullKind::Frame));
}

#[test]
fn late_packet_behind_cursor_never_plays() {
    // monotonic-cursor invariant: once the cursor passed a sequence, a
    // late copy of it is discarded, not replayed
    let mut b = JitterBuffer::new(1, 1, 8);
    assert!(b.push(100, frame(1, 1)));
    let _ = b.pull(); // plays 100, cursor now 101
    let _ = b.pull(); // conceals 101, cursor now 102
    assert!(!b.push(100, frame(9, 1))); // stale: dropped
    assert!(!b.push(101, frame(9, 1))); // stale: dropped
    assert_eq!(b.depth(), 0);
    assert!(b.push(102, frame(5, 1)));
    let (o, k) = b.pull();
    assert_eq!((o[0], k), (5, PullKind::Frame));
}

#[test]
fn single_gap_costs_exactly_one_concealment() {
    let mut b = JitterBuffer::new(1, 1, 8);
    assert!(b.push(0, frame(1, 1)));
    assert!(b.push(2, frame(3, 1))); // sequence 1 missing
    let (o0, k0) = b.pull();
    assert_eq!((o0[0], k0), (1, PullKind::Frame));
    let (o1, k1) = b.pull();
    assert_eq!((o1[0], k1), (0, PullKind::Concealed)); // the one concealment
    let (o2, k2) = b.pull();
    assert_eq!((o2[0], k2), (3, PullKind::Frame)); // playback resumes exactly
}

#[test]
fn wraparound_zero_after_max_is_next() {
    // sequence 0 pushed right after 0xFFFFFFFF is "next", not "ancient"
    let mut b = JitterBuffer::new(1, 1, 8);
    assert!(b.push(0xFFFF_FFFF, frame(7, 1)));
    assert!(b.push(0, frame(8, 1)));
    let (o1, k1) = b.pull();
    assert_eq!((o1[0], k1), (7, PullKind::Frame));
    let (o2, k2) = b.pull();
    assert_eq!((o2[0], k2), (8, PullKind::Frame));
}

#[test]
fn seqnum_arithmetic_wraps() {
    assert_eq!(seq_succ(0xFFFF_FFFF), 0);
    assert_eq!(seq_delta(0xFFFF_FFFF, 0), 1);
    assert!(seq_is_in_window(0xFFFF_FFFF, 0));
    assert!(!seq_is_in_window(5, 4)); // one behind the cursor: played out
    assert_eq!(seq_delta(0, 0xFFFF_FFFF), 0xFFFF_FFFF);
}

#[test]
fn underrun_then_resync_on_new_packet() {
    let mut b = JitterBuffer::new(1, 1, 8);
    assert!(b.push(0, frame(1, 1)));
    let _ = b.pull(); // plays 0
    for _ in 0..MISS_THRESHOLD {
        let (_, k) = b.pull();
        assert_eq!(k, PullKind::Concealed);
    }
    assert!(matches!(b.state(), BufferState::Underrun));
    // a packet far ahead of the cursor resynchronizes playback to it
    assert!(b.push(50, frame(6, 1)));
    assert!(matches!(b.state(), BufferState::Steady));
    let (o, k) = b.pull();
    assert_eq!((o[0], k), (6, PullKind::Frame));
}

#[test]
fn full_buffer_sheds_oldest() {
    let mut b = JitterBuffer::new(1, 1, 2);
    assert!(b.push(0, frame(1, 1)));
    assert!(b.push(1, frame(2, 1)));
    assert!(b.push(2, frame(3, 1))); // evicts sequence 0
    assert_eq!(b.depth(), 2);
    let (o0, k0) = b.pull(); // sequence 0 was evicted: concealed
    assert_eq!((o0[0], k0), (0, PullKind::Concealed));
    let (o1, k1) = b.pull();
    assert_eq!((o1[0], k1), (2, PullKind::Frame));
    let (o2, k2) = b.pull();
    assert_eq!((o2[0], k2), (3, PullKind::Frame));
}

#[test]
fn duplicate_push_is_ignored() {
    let mut b = JitterBuffer::new(1, 2, 8);
    assert!(b.push(4, frame(1, 1)));
    assert!(!b.push(4, frame(9, 1)));
    assert_eq!(b.depth(), 1);
    assert!(b.push(5, frame(2, 1)));
    let (o, k) = b.pull();
    assert_eq!((o[0], k), (1, PullKind::Frame)); // original payload kept
}
