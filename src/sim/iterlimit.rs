//! A counter of iterations with a maximum.
use vstd::prelude::*;

verus! {

/// An iteration limiter.
#[derive(Copy, Clone, Debug)]
pub struct IterLimit {
    /// Maximum number of iterations allowed.
    max: u64,
    /// Current number of iterations.
    cur: u64,
}

impl IterLimit {
    /// The maximum number of iterations.
    pub closed spec fn limit(&self) -> u64 {
        self.max
    }

    /// The number of iterations counted so far.
    pub closed spec fn count(&self) -> u64 {
        self.cur
    }

    /// Whether the count has reached the maximum.
    pub open spec fn is_reached(&self) -> bool {
        self.count() >= self.limit()
    }

    /// Create a new iteration limiter.
    pub fn new(max: u64) -> (r: IterLimit)
        ensures
            r.limit() == max,
            r.count() == 0,
    {
        IterLimit { max, cur: 0 }
    }

    /// Increment the number of iterations; at `u64::MAX` the count stays there.
    pub fn inc(&mut self)
        ensures
            final(self).limit() == old(self).limit(),
            old(self).count() < u64::MAX ==> final(self).count() == old(self).count() + 1,
            old(self).count() == u64::MAX ==> final(self).count() == u64::MAX,
    {
        if self.cur < u64::MAX {
            self.cur = self.cur + 1;
        }
    }

    /// Check if the maximum has been reached.
    pub fn reached(&self) -> (r: bool)
        ensures
            r == self.is_reached(),
    {
        self.cur >= self.max
    }

    /// Reset the number of iterations to zero.
    pub fn reset(&mut self)
        ensures
            final(self).limit() == old(self).limit(),
            final(self).count() == 0,
            old(self).limit() > 0 ==> !final(self).is_reached(),
    {
        self.cur = 0;
    }

    /// Get the current number of iterations.
    pub fn get(&self) -> (r: u64)
        ensures
            r == self.count(),
    {
        self.cur
    }
}

} // verus!
