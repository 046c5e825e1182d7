//! Modular arithmetic on 32-bit packet sequence numbers.
//!
//! Sequence numbers wrap around, so "before" and "after" are decided by the
//! modular distance from a reference point, never by naive integer
//! comparison: a sequence `s` is at-or-after a cursor `c` when the wrapped
//! distance from `c` to `s` is less than half the sequence space.

use vstd::prelude::*;

verus! {

/// Wrapped distance from `from` to `to` in the 32-bit sequence space:
/// `(to - from) mod 2^32`.
pub open spec fn seq_delta_spec(from: u32, to: u32) -> int {
    if to >= from {
        to - from
    } else {
        0x1_0000_0000 - from + to
    }
}

/// The sequence that immediately follows `s`, wrapping at 2^32.
pub open spec fn seq_succ_spec(s: u32) -> u32 {
    if s == 0xFFFF_FFFFu32 {
        0u32
    } else {
        (s + 1) as u32
    }
}

/// `s` lies at or ahead of the cursor `c`, within half the sequence space.
/// Everything else is treated as already played out (or hopelessly far
/// ahead, which the modular encoding cannot distinguish).
pub open spec fn seq_in_window(c: u32, s: u32) -> bool {
    seq_delta_spec(c, s) < 0x8000_0000
}

/// Distinct sequences have distinct distances from any common reference.
pub proof fn lemma_delta_injective(c: u32, a: u32, b: u32)
    requires
        seq_delta_spec(c, a) == seq_delta_spec(c, b),
    ensures
        a == b,
{
}

/// Advancing the cursor by one shrinks every in-window distance by one.
pub proof fn lemma_delta_succ(c: u32, s: u32)
    requires
        seq_delta_spec(c, s) >= 1,
    ensures
        seq_delta_spec(seq_succ_spec(c), s) == seq_delta_spec(c, s) - 1,
{
}

/// Rebasing distances: when `a` is no farther from `c` than `b` is, the
/// distance from `a` to `b` is the difference of their distances from `c`.
pub proof fn lemma_delta_shift(c: u32, a: u32, b: u32)
    requires
        seq_delta_spec(c, a) <= seq_delta_spec(c, b),
    ensures
        seq_delta_spec(a, b) == seq_delta_spec(c, b) - seq_delta_spec(c, a),
{
}

/// The successor of any sequence number is at distance exactly one, hence
/// strictly newer and in window — in particular across the 32-bit
/// wraparound, where the successor of `0xFFFF_FFFF` is `0`.
pub proof fn lemma_succ_is_next(s: u32)
    ensures
        seq_succ_spec(s) != s,
        seq_delta_spec(s, seq_succ_spec(s)) == 1,
        seq_in_window(s, seq_succ_spec(s)),
{
}

/// Computes the wrapped distance from `from` to `to`.
pub fn seq_delta(from: u32, to: u32) -> (d: u32)
    ensures
        d == seq_delta_spec(from, to),
{
    if to >= from {
        to - from
    } else {
        (u32::MAX - from) + to + 1
    }
}

/// Computes the wrapping successor of `s`.
pub fn seq_succ(s: u32) -> (r: u32)
    ensures
        r == seq_succ_spec(s),
{
    if s == u32::MAX {
        0
    } else {
        s + 1
    }
}

/// Decides whether `s` is at or ahead of the cursor `c` (modular window).
pub fn seq_is_in_window(c: u32, s: u32) -> (r: bool)
    ensures
        r == seq_in_window(c, s),
{
    seq_delta(c, s) < 0x8000_0000u32
}

} // verus!
