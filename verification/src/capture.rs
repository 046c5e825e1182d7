//! Bounded hand-off queue between the capture callback and the
//! packetizer.
//!
//! The capture side must never block or grow without bound, so the queue
//! has a fixed capacity; when it is full, the oldest unconsumed frame is
//! dropped and counted — continuity of fresh audio wins over
//! completeness of stale audio.

use vstd::prelude::*;

verus! {

/// A fixed-capacity FIFO of capture frames that sheds its oldest frame
/// when full.
pub struct FrameQueue {
    pub frames: Vec<Vec<i32>>,
    pub capacity: usize,
    pub frame_size: usize,
    pub dropped: u64,
}

impl FrameQueue {
    /// Queue integrity: positive bounds, never over capacity, every
    /// queued frame full-sized.
    pub open spec fn wf(self) -> bool {
        &&& 0 < self.capacity
        &&& 0 < self.frame_size
        &&& self.frames@.len() <= self.capacity
        &&& forall|i: int|
            0 <= i < self.frames@.len() ==> (#[trigger] self.frames@[i])@.len()
                == self.frame_size
    }

    /// An empty queue.
    pub fn new(frame_size: usize, capacity: usize) -> (q: FrameQueue)
        requires
            0 < frame_size,
            0 < capacity,
        ensures
            q.wf(),
            q.frames@.len() == 0,
            q.dropped == 0,
            q.frame_size == frame_size,
            q.capacity == capacity,
    {
        FrameQueue { frames: Vec::new(), capacity, frame_size, dropped: 0 }
    }

    /// Enqueues a captured frame; a full queue drops its oldest frame
    /// first and advances the drop counter (saturating).
    pub fn push_frame(&mut self, f: Vec<i32>) -> (dropped_oldest: bool)
        requires
            old(self).wf(),
            f@.len() == old(self).frame_size,
        ensures
            final(self).wf(),
            final(self).capacity == old(self).capacity,
            final(self).frame_size == old(self).frame_size,
            dropped_oldest == (old(self).frames@.len() == old(self).capacity),
            !dropped_oldest ==> final(self).frames@ == old(self).frames@.push(f)
                && final(self).dropped == old(self).dropped,
            dropped_oldest ==> final(self).frames@ == old(self).frames@.drop_first().push(f)
                && final(self).dropped == (if old(self).dropped < u64::MAX {
                old(self).dropped + 1
            } else {
                old(self).dropped as int
            }),
    {
        let mut dropped_oldest = false;
        if self.frames.len() == self.capacity {
            self.frames.remove(0);
            if self.dropped < u64::MAX {
                self.dropped = self.dropped + 1;
            }
            dropped_oldest = true;
            proof {
                assert(self.frames@ =~= old(self).frames@.drop_first());
            }
        }
        self.frames.push(f);
        dropped_oldest
    }

    /// Dequeues the oldest frame, if any.
    pub fn pop_frame(&mut self) -> (r: Option<Vec<i32>>)
        requires
            old(self).wf(),
        ensures
            final(self).wf(),
            final(self).capacity == old(self).capacity,
            final(self).frame_size == old(self).frame_size,
            final(self).dropped == old(self).dropped,
            r is None <==> old(self).frames@.len() == 0,
            r is None ==> *final(self) == *old(self),
            r matches Some(f) ==> f == old(self).frames@[0] && final(self).frames@ == old(self).frames@.drop_first() && f@.len() == old(self).frame_size,
    {
        if self.frames.len() == 0 {
            return None;
        }
        let f = self.frames.remove(0);
        proof {
            assert(self.frames@ =~= old(self).frames@.drop_first());
        }
        Some(f)
    }
}

} // verus!
