//! One purchasable production unit, as the catalog and the save file hold it.

use vstd::prelude::*;

verus! {

/// What a power is, mathematically: its identity, its configuration and how
/// many units of it are owned.
pub struct PowerModel {
    pub title: Seq<char>,
    pub id: usize,
    pub cost: int,
    pub production_amount: int,
    pub production_rate: nat,
    pub max_owned: int,
    pub current_owned: int,
    pub unlock_bound: int,
}

impl PowerModel {
    /// The data invariant of a power: amounts are non-negative, the period
    /// is positive and the owned count lies between zero and its limit.
    pub open spec fn valid(self) -> bool {
        &&& self.cost >= 0
        &&& self.production_amount >= 0
        &&& self.unlock_bound >= 0
        &&& self.production_rate > 0
        &&& 0 <= self.current_owned <= self.max_owned
    }

    /// The same power with `owned` units owned.
    pub open spec fn with_owned(self, owned: int) -> PowerModel {
        PowerModel { current_owned: owned, ..self }
    }
}

/// One catalog entry. `production_rate` is the production period in
/// nanoseconds.
#[derive(Debug, PartialEq, Eq)]
pub struct PowerBundle {
    pub title: String,
    pub id: usize,
    pub cost: i64,
    pub production_amount: i64,
    pub production_rate: u64,
    pub max_owned: i64,
    pub current_owned: i64,
    pub unlock_bound: i64,
}

impl View for PowerBundle {
    type V = PowerModel;

    open spec fn view(&self) -> PowerModel {
        PowerModel {
            title: self.title@,
            id: self.id,
            cost: self.cost as int,
            production_amount: self.production_amount as int,
            production_rate: self.production_rate as nat,
            max_owned: self.max_owned as int,
            current_owned: self.current_owned as int,
            unlock_bound: self.unlock_bound as int,
        }
    }
}

impl Clone for PowerBundle {
    fn clone(&self) -> (r: PowerBundle)
        ensures
            r == *self,
    {
        PowerBundle {
            title: self.title.clone(),
            id: self.id,
            cost: self.cost,
            production_amount: self.production_amount,
            production_rate: self.production_rate,
            max_owned: self.max_owned,
            current_owned: self.current_owned,
            unlock_bound: self.unlock_bound,
        }
    }
}

impl PowerBundle {
    /// Whether the entry meets the data invariant of a power.
    pub fn is_valid(&self) -> (r: bool)
        ensures
            r == self@.valid(),
    {
        self.cost >= 0 && self.production_amount >= 0 && self.unlock_bound >= 0
            && self.production_rate > 0 && 0 <= self.current_owned
            && self.current_owned <= self.max_owned
    }
}

} // verus!
