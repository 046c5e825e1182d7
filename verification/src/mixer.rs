//! Sample mixing with clipping control.
//!
//! One output frame is the sample-by-sample sum of the current frame of
//! every active participant. The documented clipping policy is hard
//! clamping: each summed sample is clamped to the representable range
//! `[-FULL_SCALE, FULL_SCALE]`, so no mix ever overflows or wraps.

use crate::FULL_SCALE;
use vstd::prelude::*;

verus! {

/// Most frames one mix may sum; keeps the 64-bit accumulator exact.
pub const MAX_MIX_INPUTS: usize = 4096;

/// Hard-clamp a summed sample to the representable range.
pub open spec fn clamp_spec(x: int) -> int {
    if x > FULL_SCALE as int {
        FULL_SCALE as int
    } else if x < -(FULL_SCALE as int) {
        -(FULL_SCALE as int)
    } else {
        x
    }
}

/// The frames a vector of sample vectors stands for.
pub open spec fn frames_view(frames: Seq<Vec<i32>>) -> Seq<Seq<i32>> {
    frames.map_values(|f: Vec<i32>| f@)
}

/// Sum of sample `k` across the given frames.
pub open spec fn sum_at(frames: Seq<Seq<i32>>, k: int) -> int
    decreases frames.len(),
{
    if frames.len() == 0 {
        0
    } else {
        sum_at(frames.drop_last(), k) + frames.last()[k]
    }
}

/// The sum of `n` samples is bounded by `n` times the sample range.
pub proof fn lemma_sum_at_bound(frames: Seq<Seq<i32>>, k: int)
    ensures
        -(frames.len() * 0x8000_0000) <= sum_at(frames, k) <= frames.len() * 0x8000_0000,
    decreases frames.len(),
{
    if frames.len() > 0 {
        lemma_sum_at_bound(frames.drop_last(), k);
    }
}

/// Law: however many frames are mixed and whatever their samples, a mixed
/// sample never leaves the representable range — full-scale inputs
/// saturate at full scale instead of wrapping.
pub proof fn lemma_mix_in_range(frames: Seq<Seq<i32>>, k: int)
    ensures
        -(FULL_SCALE as int) <= clamp_spec(sum_at(frames, k)) <= FULL_SCALE as int,
{
}

/// Sums the given frames sample-by-sample into one frame of
/// `frame_size` samples, hard-clamping every output sample to
/// `[-FULL_SCALE, FULL_SCALE]`.
pub fn mix_frames(frames: &Vec<Vec<i32>>, frame_size: usize) -> (out: Vec<i32>)
    requires
        frames@.len() <= MAX_MIX_INPUTS,
        forall|i: int| 0 <= i < frames@.len() ==> (#[trigger] frames@[i])@.len() == frame_size,
    ensures
        out@.len() == frame_size,
        forall|k: int|
            0 <= k < frame_size ==> out@[k] == clamp_spec(
                sum_at(frames_view(frames@), k),
            ),
        forall|k: int|
            0 <= k < frame_size ==> -(FULL_SCALE as int) <= #[trigger] out@[k] <= FULL_SCALE
                as int,
{
    let mut out: Vec<i32> = Vec::new();
    let mut k: usize = 0;
    while k < frame_size
        invariant
            frames@.len() <= MAX_MIX_INPUTS,
            forall|i: int|
                0 <= i < frames@.len() ==> (#[trigger] frames@[i])@.len() == frame_size,
            k <= frame_size,
            out@.len() == k,
            forall|k2: int|
                0 <= k2 < k ==> out@[k2] == clamp_spec(sum_at(frames_view(frames@), k2)),
        decreases frame_size - k,
    {
        let mut acc: i64 = 0;
        let mut j: usize = 0;
        while j < frames.len()
            invariant
                frames@.len() <= MAX_MIX_INPUTS,
                forall|i: int|
                    0 <= i < frames@.len() ==> (#[trigger] frames@[i])@.len() == frame_size,
                k < frame_size,
                j <= frames@.len(),
                acc == sum_at(frames_view(frames@).subrange(0, j as int), k as int),
            decreases frames@.len() - j,
        {
            proof {
                lemma_sum_at_bound(frames_view(frames@).subrange(0, j as int), k as int);
                assert(frames_view(frames@).subrange(0, j + 1).drop_last() =~= frames_view(
                    frames@,
                ).subrange(0, j as int));
                assert(frames_view(frames@).subrange(0, j + 1).last() == frames@[j as int]@);
            }
            let s = frames[j][k];
            acc = acc + s as i64;
            j = j + 1;
        }
        proof {
            assert(frames_view(frames@).subrange(0, frames@.len() as int) =~= frames_view(
                frames@,
            ));
        }
        let clamped: i32 = if acc > FULL_SCALE as i64 {
            FULL_SCALE
        } else if acc < -(FULL_SCALE as i64) {
            -FULL_SCALE
        } else {
            acc as i32
        };
        out.push(clamped);
        k = k + 1;
    }
    out
}

} // verus!
