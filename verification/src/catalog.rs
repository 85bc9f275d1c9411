//! The catalog of powers.

use crate::power::{PowerBundle, PowerModel};
use vstd::prelude::*;

verus! {

/// A catalog is in order when every entry is a valid power and stands at the
/// position that its id names.
pub open spec fn catalog_valid(c: Seq<PowerModel>) -> bool {
    forall|i: int| 0 <= i < c.len() ==> (#[trigger] c[i]).valid() && c[i].id == i
}

/// The powers that a sequence of entries stands for.
pub open spec fn models(entries: Seq<PowerBundle>) -> Seq<PowerModel> {
    Seq::new(entries.len(), |i: int| entries[i]@)
}

/// A power of the built-in catalog: nothing owned yet.
pub open spec fn stock_power(
    title: Seq<char>,
    id: usize,
    cost: int,
    production_amount: int,
    production_rate: nat,
    max_owned: int,
    unlock_bound: int,
) -> PowerModel {
    PowerModel {
        title,
        id,
        cost,
        production_amount,
        production_rate,
        max_owned,
        current_owned: 0,
        unlock_bound,
    }
}

/// The built-in catalog of a first run.
pub open spec fn default_powers() -> Seq<PowerModel> {
    seq![
        stock_power(
            "Default Power"@,
            0,
            0,
            1,
            1_000_000_000_000_000,
            1,
            9_223_372_036_854_775_807,
        ),
        stock_power(
            "Middle School Science Project"@,
            1,
            50,
            5,
            5_000_000_000,
            9_223_372_036_854_775_807,
            50,
        ),
        stock_power("Hamster on a Wheel"@, 2, 1000, 25, 1_000_000_000, 30_000_000, 1000),
        stock_power("'Gas' Engine"@, 3, 33_333, 100_000, 240_000_000_000, 1, 10_000),
        stock_power(
            "Portable Generator"@,
            4,
            242_424,
            800,
            8_000_000_000,
            9_223_372_036_854_775_807,
            100_000,
        ),
        stock_power(
            "Hotwire the Neighbors"@,
            5,
            999_999,
            222,
            500_000_000,
            128_000_000,
            1_000_000,
        ),
        stock_power(
            "Electric Eel Farm"@,
            6,
            2_500_000,
            45_000,
            30_000_000_000,
            10_000_000,
            10_000_000,
        ),
        stock_power(
            "Miniscule Hadron Collider"@,
            7,
            111_111_111,
            123_456,
            33_000_000_000,
            123_456_789,
            100_000_000,
        ),
        stock_power(
            "Luke-warm Fusion Reactor"@,
            8,
            987_654_321,
            9_999,
            100_000_000,
            1,
            1_000_000_000,
        ),
        stock_power("Buttered Cat Paradox"@, 9, 1, 1, 10_000, 999, 10_000_000_000),
    ]
}

/// The catalog after the owned count of the power `id` was set to `owned`:
/// unchanged where it has no such power or the count is outside the power's
/// limits.
pub open spec fn synced(c: Seq<PowerModel>, id: usize, owned: int) -> Seq<PowerModel> {
    if id < c.len() && 0 <= owned <= c[id as int].max_owned {
        c.update(id as int, c[id as int].with_owned(owned))
    } else {
        c
    }
}

/// Why a sequence of entries is no catalog.
#[derive(Clone, Copy, Debug, PartialEq, Eq)]
pub enum CatalogError {
    /// The entry at this position breaks the data invariant of a power.
    InvalidPower(usize),
    /// The entry at this position carries another id than its position.
    IdMismatch(usize),
}

impl CatalogError {
    /// The position of the entry at fault.
    pub open spec fn index(self) -> int {
        match self {
            CatalogError::InvalidPower(i) => i as int,
            CatalogError::IdMismatch(i) => i as int,
        }
    }
}

/// The ordered catalog of powers, indexed by id.
#[derive(Debug)]
pub struct Powers(Vec<PowerBundle>);

impl View for Powers {
    type V = Seq<PowerModel>;

    closed spec fn view(&self) -> Seq<PowerModel> {
        models(self.0@)
    }
}

/// An entry of the built-in catalog.
fn stock(
    title: &str,
    id: usize,
    cost: i64,
    production_amount: i64,
    production_rate: u64,
    max_owned: i64,
    unlock_bound: i64,
) -> (r: PowerBundle)
    ensures
        r@ == stock_power(
            title@,
            id,
            cost as int,
            production_amount as int,
            production_rate as nat,
            max_owned as int,
            unlock_bound as int,
        ),
{
    PowerBundle {
        title: title.to_owned(),
        id,
        cost,
        production_amount,
        production_rate,
        max_owned,
        current_owned: 0,
        unlock_bound,
    }
}

impl Default for Powers {
    /// The built-in catalog.
    fn default() -> (r: Powers)
        ensures
            r@ == default_powers(),
            r.wf(),
    {
        let mut v: Vec<PowerBundle> = Vec::new();
        v.push(stock("Default Power", 0, 0, 1, 1_000_000_000_000_000, 1, i64::MAX));
        v.push(stock("Middle School Science Project", 1, 50, 5, 5_000_000_000, i64::MAX, 50));
        v.push(stock("Hamster on a Wheel", 2, 1000, 25, 1_000_000_000, 30_000_000, 1000));
        v.push(stock("'Gas' Engine", 3, 33_333, 100_000, 240_000_000_000, 1, 10_000));
        v.push(stock("Portable Generator", 4, 242_424, 800, 8_000_000_000, i64::MAX, 100_000));
        v.push(
            stock("Hotwire the Neighbors", 5, 999_999, 222, 500_000_000, 128_000_000, 1_000_000),
        );
        v.push(
            stock(
                "Electric Eel Farm",
                6,
                2_500_000,
                45_000,
                30_000_000_000,
                10_000_000,
                10_000_000,
            ),
        );
        v.push(
            stock(
                "Miniscule Hadron Collider",
                7,
                111_111_111,
                123_456,
                33_000_000_000,
                123_456_789,
                100_000_000,
            ),
        );
        v.push(
            stock("Luke-warm Fusion Reactor", 8, 987_654_321, 9_999, 100_000_000, 1, 1_000_000_000),
        );
        v.push(stock("Buttered Cat Paradox", 9, 1, 1, 10_000, 999, 10_000_000_000));
        Powers(v)
    }
}

impl Powers {
    /// Every entry is a valid power and stands at the position of its id.
    pub open spec fn wf(&self) -> bool {
        catalog_valid(self@)
    }

    /// The catalog made of `entries`, if they are in order; else the first
    /// entry at fault, and whether it is invalid or misplaced.
    pub fn new(entries: Vec<PowerBundle>) -> (r: Result<Powers, CatalogError>)
        ensures
            r is Ok <==> catalog_valid(models(entries@)),
            match r {
                Ok(p) => p@ == models(entries@) && p.wf(),
                Err(e) => {
                    &&& 0 <= e.index() < entries.len()
                    &&& catalog_valid(models(entries@).take(e.index()))
                    &&& e is InvalidPower <==> !models(entries@)[e.index()].valid()
                    &&& e is IdMismatch ==> models(entries@)[e.index()].id != e.index()
                },
            },
    {
        let mut i: usize = 0;
        while i < entries.len()
            invariant
                0 <= i <= entries.len(),
                catalog_valid(models(entries@).take(i as int)),
            decreases entries.len() - i,
        {
            assert(models(entries@)[i as int] == entries@[i as int]@);
            if !entries[i].is_valid() {
                return Err(CatalogError::InvalidPower(i));
            }
            if entries[i].id != i {
                return Err(CatalogError::IdMismatch(i));
            }
            assert forall|k: int| 0 <= k < i + 1 implies (#[trigger] models(entries@).take(
                i + 1,
            )[k]).valid() && models(entries@).take(i + 1)[k].id == k by {
                if k < i {
                    assert(models(entries@).take(i + 1)[k] == models(entries@).take(i as int)[k]);
                }
            }
            i = i + 1;
        }
        assert(models(entries@).take(i as int) =~= models(entries@));
        Ok(Powers(entries))
    }

    /// The number of powers.
    pub fn len(&self) -> (n: usize)
        ensures
            n == self@.len(),
    {
        self.0.len()
    }

    /// The power with the given id, if the catalog has one: the entry at
    /// the position that the id names.
    pub fn find(&self, id: usize) -> (r: Option<&PowerBundle>)
        ensures
            id < self@.len() ==> r is Some && r->0@ == self@[id as int],
            id >= self@.len() ==> r is None,
            self.wf() && r is Some ==> r->0@.id == id,
    {
        if id < self.0.len() {
            Some(&self.0[id])
        } else {
            None
        }
    }

    /// Copies the owned count that a live power has reached into the
    /// catalog. An id that the catalog lacks, or a count outside the
    /// entry's limits, changes nothing.
    pub fn sync_from_runtime(&mut self, id: usize, current_owned: i64)
        requires
            old(self).wf(),
        ensures
            final(self).wf(),
            final(self)@ == synced(old(self)@, id, current_owned as int),
    {
        if id < self.0.len() {
            if 0 <= current_owned && current_owned <= self.0[id].max_owned {
                self.0[id].current_owned = current_owned;
                assert(self@ =~= synced(old(self)@, id, current_owned as int));
            }
        }
    }

    /// The entries of the catalog, in order.
    pub fn bundles(&self) -> (r: Vec<PowerBundle>)
        ensures
            models(r@) == self@,
    {
        let mut r: Vec<PowerBundle> = Vec::new();
        let mut i: usize = 0;
        while i < self.0.len()
            invariant
                0 <= i <= self.0.len(),
                r@.len() == i,
                forall|k: int| 0 <= k < i ==> r@[k] == self.0@[k],
            decreases self.0.len() - i,
        {
            r.push(self.0[i].clone());
            i = i + 1;
        }
        r
    }
}

} // verus!
