//! Transport-health accounting for the outbound UDP path.
//!
//! A single failed send just drops that packet — retrying stale audio is
//! worse than losing it. Only a run of consecutive failures is escalated
//! as a transport-health event, so the session layer can decide to
//! renegotiate.

use vstd::prelude::*;

verus! {

/// Counts consecutive send failures and signals escalation when they
/// reach the configured threshold.
pub struct SendHealth {
    pub consecutive_failures: u32,
    pub threshold: u32,
}

impl SendHealth {
    /// Health integrity: a positive threshold bounds the counter.
    pub open spec fn wf(self) -> bool {
        &&& 0 < self.threshold
        &&& self.consecutive_failures <= self.threshold
    }

    /// A healthy tracker that escalates after `threshold` consecutive
    /// failures.
    pub fn new(threshold: u32) -> (h: SendHealth)
        requires
            0 < threshold,
        ensures
            h.wf(),
            h.consecutive_failures == 0,
            h.threshold == threshold,
    {
        SendHealth { consecutive_failures: 0, threshold }
    }

    /// Records the outcome of one send. A success clears the failure
    /// run; a failure extends it, and escalation is reported exactly
    /// when the run reaches the threshold.
    pub fn record(&mut self, ok: bool) -> (escalate: bool)
        requires
            old(self).wf(),
        ensures
            final(self).wf(),
            final(self).threshold == old(self).threshold,
            ok ==> final(self).consecutive_failures == 0 && !escalate,
            !ok ==> final(self).consecutive_failures == (if old(self).consecutive_failures
                < old(self).threshold {
                old(self).consecutive_failures + 1
            } else {
                old(self).consecutive_failures as int
            }),
            !ok ==> (escalate <==> final(self).consecutive_failures == old(self).threshold),
    {
        if ok {
            self.consecutive_failures = 0;
            false
        } else {
            if self.consecutive_failures < self.threshold {
                self.consecutive_failures = self.consecutive_failures + 1;
            }
            self.consecutive_failures == self.threshold
        }
    }
}

} // verus!
