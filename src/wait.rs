//! The back-off that an endpoint follows while it waits for its peer.
use vstd::prelude::*;

verus! {

/// The first interval, in nanoseconds.
pub const FIRST_WAIT_NS: u64 = 10;

/// The default ceiling on the interval, in nanoseconds: one millisecond.
pub const DEFAULT_CEILING_NS: u64 = 1_000_000;

/// Exponential back-off: each interval is twice the one before, up to a
/// ceiling.
pub struct ExpWait {
    curr_wait_ns: u64,
    ceiling_ns: u64,
}

/// The interval that follows `curr` under `ceiling`.
pub open spec fn doubled(curr: u64, ceiling: u64) -> u64 {
    if 2 * curr > ceiling {
        ceiling
    } else {
        (2 * curr) as u64
    }
}

impl ExpWait {
    /// The next interval to sleep for, and the ceiling.
    pub closed spec fn view(&self) -> (u64, u64) {
        (self.curr_wait_ns, self.ceiling_ns)
    }

    /// A back-off that starts at `FIRST_WAIT_NS` under the default ceiling.
    pub fn new() -> (r: ExpWait)
        ensures
            r.view() == (FIRST_WAIT_NS, DEFAULT_CEILING_NS),
    {
        ExpWait { curr_wait_ns: FIRST_WAIT_NS, ceiling_ns: DEFAULT_CEILING_NS }
    }

    /// A back-off that starts at `FIRST_WAIT_NS`, or at the ceiling if that
    /// is lower, and never goes beyond `ceiling_ns`.
    pub fn with_ceiling(ceiling_ns: u64) -> (r: ExpWait)
        ensures
            r.view() == (if FIRST_WAIT_NS <= ceiling_ns {
                FIRST_WAIT_NS
            } else {
                ceiling_ns
            }, ceiling_ns),
    {
        let first = if FIRST_WAIT_NS <= ceiling_ns {
            FIRST_WAIT_NS
        } else {
            ceiling_ns
        };
        ExpWait { curr_wait_ns: first, ceiling_ns }
    }

    /// The interval to sleep for now; the next one is twice as long, but no
    /// longer than the ceiling.
    pub fn next_wait(&mut self) -> (r: u64)
        ensures
            r == old(self).view().0,
            final(self).view() == (doubled(old(self).view().0, old(self).view().1), old(
                self,
            ).view().1),
    {
        let r = self.curr_wait_ns;
        self.curr_wait_ns = if self.curr_wait_ns > self.ceiling_ns / 2 {
            self.ceiling_ns
        } else {
            2 * self.curr_wait_ns
        };
        r
    }
}

} // verus!
