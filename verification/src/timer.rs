//! The repeating timer that paces production.

use vstd::prelude::*;

verus! {

/// A repeating timer, in nanoseconds.
pub struct TimerModel {
    pub period: nat,
    pub elapsed: nat,
    pub finished: bool,
}

impl TimerModel {
    /// A timer has a positive period and has not yet run through it.
    pub open spec fn valid(self) -> bool {
        self.period > 0 && self.elapsed < self.period
    }

    /// A timer of the given period that has not run yet.
    pub open spec fn fresh(period: nat) -> TimerModel {
        TimerModel { period, elapsed: 0, finished: false }
    }

    /// Whether `delta` more nanoseconds complete at least one period.
    pub open spec fn completes(self, delta: nat) -> bool {
        self.elapsed + delta >= self.period
    }

    /// The timer after `delta` more nanoseconds: it is finished if a period
    /// was completed, and keeps what has run of the current period.
    pub open spec fn tick(self, delta: nat) -> TimerModel {
        TimerModel {
            period: self.period,
            elapsed: (self.elapsed + delta) % self.period,
            finished: self.completes(delta),
        }
    }

    /// The timer at the start of a full period.
    pub open spec fn reset(self) -> TimerModel {
        TimerModel { period: self.period, elapsed: 0, finished: false }
    }
}

/// A repeating timer with a fixed period, counted in nanoseconds.
#[derive(Clone, Copy, Debug, PartialEq, Eq)]
pub struct ProductionTimer {
    period: u64,
    elapsed: u64,
    finished: bool,
}

impl View for ProductionTimer {
    type V = TimerModel;

    closed spec fn view(&self) -> TimerModel {
        TimerModel {
            period: self.period as nat,
            elapsed: self.elapsed as nat,
            finished: self.finished,
        }
    }
}

impl ProductionTimer {
    /// A timer has a positive period and has not yet run through it.
    #[verifier::type_invariant]
    closed spec fn within_period(self) -> bool {
        self.period > 0 && self.elapsed < self.period
    }

    /// A timer that has not run yet, or nothing for a period of zero.
    pub fn new(period: u64) -> (r: Option<ProductionTimer>)
        ensures
            period == 0 ==> r is None,
            period > 0 ==> r is Some && r->0@ == TimerModel::fresh(period as nat),
    {
        if period == 0 {
            None
        } else {
            Some(ProductionTimer { period, elapsed: 0, finished: false })
        }
    }

    /// The length of one period, which is not zero.
    pub fn period(&self) -> (r: u64)
        ensures
            r == self@.period,
            r > 0,
    {
        proof {
            use_type_invariant(self);
        }
        self.period
    }

    /// What has run of the current period, which is less than the period.
    pub fn elapsed(&self) -> (r: u64)
        ensures
            r == self@.elapsed,
            r < self@.period,
    {
        proof {
            use_type_invariant(self);
        }
        self.elapsed
    }

    /// Whether the last tick completed a period.
    pub fn finished(&self) -> (r: bool)
        ensures
            r == self@.finished,
    {
        self.finished
    }

    /// Whether `delta` more nanoseconds complete a period.
    pub fn completes(&self, delta: u64) -> (r: bool)
        ensures
            r == self@.completes(delta as nat),
    {
        self.elapsed as u128 + delta as u128 >= self.period as u128
    }

    /// Lets `delta` nanoseconds pass.
    pub fn tick(&mut self, delta: u64)
        ensures
            final(self)@ == old(self)@.tick(delta as nat),
            final(self)@.valid(),
    {
        proof {
            use_type_invariant(&*self);
        }
        let total: u128 = self.elapsed as u128 + delta as u128;
        let period: u128 = self.period as u128;
        let rest: u128 = total % period;
        self.finished = total >= period;
        self.elapsed = rest as u64;
    }

    /// Starts a full period anew.
    pub fn reset(&mut self)
        ensures
            final(self)@ == old(self)@.reset(),
            final(self)@.valid(),
    {
        proof {
            use_type_invariant(&*self);
        }
        self.elapsed = 0;
        self.finished = false;
    }
}

} // verus!
