//! Bookkeeping of the periodic peer fetch: consecutive failures are counted
//! and, at a threshold, escalated once and counted afresh. Fetching never stops.

use vstd::prelude::*;

verus! {

/// Consecutive failures escalated by the standard tracker.
pub const FAILURE_THRESHOLD: u32 = 5;

/// What one fetch tick comes to.
#[derive(Debug, Clone, Copy, PartialEq, Eq, Structural)]
pub enum FetchVerdict {
    /// The list arrived: reconcile it.
    Reconcile,
    /// The fetch failed; this is the given consecutive failure.
    Failed(u32),
    /// The threshold was reached: warn once; the count starts over.
    Escalated,
}

#[derive(Debug, Clone, Copy, PartialEq, Eq, Structural)]
pub struct FetchFailures {
    pub consecutive: u32,
    pub threshold: u32,
}

impl FetchFailures {
    pub open spec fn wf(&self) -> bool {
        1 <= self.threshold && self.consecutive < self.threshold
    }

    /// A tracker with no failures that escalates at `threshold`.
    pub fn new(threshold: u32) -> (r: FetchFailures)
        requires
            threshold >= 1,
        ensures
            r.wf(),
            r.consecutive == 0,
            r.threshold == threshold,
    {
        FetchFailures { consecutive: 0, threshold }
    }

    /// A tracker that escalates at five consecutive failures.
    pub fn standard() -> (r: FetchFailures)
        ensures
            r.wf(),
            r.consecutive == 0,
            r.threshold == FAILURE_THRESHOLD,
    {
        FetchFailures::new(FAILURE_THRESHOLD)
    }

    /// Records the outcome of one fetch.
    pub fn record(&mut self, fetched: bool) -> (r: FetchVerdict)
        requires
            old(self).wf(),
        ensures
            final(self).wf(),
            final(self).threshold == old(self).threshold,
            fetched ==> r == FetchVerdict::Reconcile && final(self).consecutive == 0,
            !fetched && old(self).consecutive + 1 >= old(self).threshold ==> r
                == FetchVerdict::Escalated && final(self).consecutive == 0,
            !fetched && old(self).consecutive + 1 < old(self).threshold ==> r == FetchVerdict::Failed(
                (old(self).consecutive + 1) as u32,
            ) && final(self).consecutive == old(self).consecutive + 1,
    {
        if fetched {
            self.consecutive = 0;
            FetchVerdict::Reconcile
        } else {
            let n = self.consecutive + 1;
            if n >= self.threshold {
                self.consecutive = 0;
                FetchVerdict::Escalated
            } else {
                self.consecutive = n;
                FetchVerdict::Failed(n)
            }
        }
    }
}

} // verus!
