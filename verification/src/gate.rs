//! The detection rule that drives escalation: every observed event is fed
//! to the time-windowed estimator, and an address is escalated exactly when
//! its windowed count exceeds the configured limit.  Reading lines and
//! programming the firewall are the caller's side; the decision is made
//! here.

use vstd::prelude::*;
use crate::window::Resolution;
use crate::window::TimeWindowCMS;
use crate::window::bumped;
use crate::window::rotated;
use crate::window::sum_est;

verus! {

/// Monitor state: the attempt limit per window period and the rolling
/// window of counts.
pub struct IronGate<R: Resolution> {
    pub limit: u64,
    pub window: TimeWindowCMS<R>,
}

impl<R: Resolution> IronGate<R> {
    pub open spec fn wf(self) -> bool {
        self.window.wf()
    }

    /// Feeds one observed event for `key` at time `stamp`; returns the
    /// windowed count after the event and whether it crossed the limit —
    /// the escalation decision.
    pub fn observe(&mut self, stamp: i64, key: &[u8]) -> (r: (u64, bool))
        requires
            old(self).wf(),
            old(self).window.total_items() < u64::MAX,
            i64::MIN <= stamp - old(self).window.last,
            stamp - old(self).window.last <= i64::MAX,
        ensures
            final(self).wf(),
            final(self).limit == old(self).limit,
            final(self).window.resolution == old(self).window.resolution,
            final(self).window.sketches@.len() == old(self).window.sketches@.len(),
            final(self).window.hists() =~= bumped(
                rotated(old(self).window.hists(), old(self).window.spec_k(stamp)),
                key@,
            ),
            r.0 as nat == sum_est(final(self).window.hists(), key@),
            r.0 >= 1,
            final(self).window.total_items() <= old(self).window.total_items() + 1,
            r.1 == (r.0 > old(self).limit),
            old(self).window.spec_k(stamp) <= 0 ==> r.0 as nat == old(self).window.window_count(
                key@,
            ) + 1,
            old(self).window.spec_k(stamp) as int >= old(self).window.hists().len() ==> r.0 == 1,
    {
        let n = self.window.add(stamp, key);
        (n, n > self.limit)
    }
}

} // verus!