//! The currency counter.

use vstd::prelude::*;

verus! {

/// The single currency counter of a session.
#[derive(Debug)]
pub struct TotalPower(i64);

impl View for TotalPower {
    type V = int;

    open spec fn view(&self) -> int {
        self.spec_power() as int
    }
}

impl Default for TotalPower {
    /// An empty ledger.
    fn default() -> (r: TotalPower)
        ensures
            r@ == 0,
    {
        TotalPower(0)
    }
}

impl TotalPower {
    /// The amount held, as a machine integer.
    pub closed spec fn spec_power(&self) -> i64 {
        self.0
    }

    /// A counter that holds `amount`.
    pub fn new(amount: i64) -> (r: TotalPower)
        ensures
            r@ == amount,
    {
        TotalPower(amount)
    }

    /// The amount held.
    #[verifier::when_used_as_spec(spec_power)]
    pub fn power(&self) -> (r: i64)
        ensures
            r == self.spec_power(),
    {
        self.0
    }

    /// Adds `i`, which may be negative, without any validation.
    pub fn add_power(&mut self, i: i64)
        requires
            i64::MIN <= old(self)@ + i <= i64::MAX,
        ensures
            final(self)@ == old(self)@ + i,
    {
        self.0 = self.0 + i;
    }
}

} // verus!
