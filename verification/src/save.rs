//! What of a session is saved, and how a saved session is taken up again.

use crate::catalog::{catalog_valid, default_powers, models, Powers};
use crate::ledger::TotalPower;
use crate::model::SimState;
use crate::power::{PowerBundle, PowerModel};
use crate::simulation::Simulation;
use crate::unlock::{all_locked, entries_map, lists, PowerUnlockFlags};
use vstd::prelude::*;

verus! {

/// The files of a saved session, one for each aggregate.
#[derive(Clone, Copy, Debug, PartialEq, Eq)]
pub enum SaveFile {
    /// The user's settings.
    Settings,
    /// The unlock flags.
    PowerUnlocks,
    /// The ledger.
    TotalPower,
    /// The catalog.
    Powers,
}

impl SaveFile {
    /// The well-known name of the file.
    pub open spec fn spec_name(self) -> Seq<char> {
        match self {
            SaveFile::Settings => "settings.ron"@,
            SaveFile::PowerUnlocks => "power_unlocks.ron"@,
            SaveFile::TotalPower => "total_power.ron"@,
            SaveFile::Powers => "powers.ron"@,
        }
    }

    /// The well-known name of the file.
    pub fn name(&self) -> (r: &'static str)
        ensures
            r@ == self.spec_name(),
    {
        match self {
            SaveFile::Settings => "settings.ron",
            SaveFile::PowerUnlocks => "power_unlocks.ron",
            SaveFile::TotalPower => "total_power.ron",
            SaveFile::Powers => "powers.ron",
        }
    }

    /// The files in the order in which a session is written out. Each is
    /// written whether or not the one before it could be.
    pub fn sequence() -> (r: [SaveFile; 4])
        ensures
            r@ == seq![
                SaveFile::Settings,
                SaveFile::PowerUnlocks,
                SaveFile::TotalPower,
                SaveFile::Powers,
            ],
    {
        [SaveFile::Settings, SaveFile::PowerUnlocks, SaveFile::TotalPower, SaveFile::Powers]
    }
}

/// The qualifier, the organization and the application by which the
/// platform finds the data directory of the game.
pub fn project_id() -> (r: (&'static str, &'static str, &'static str))
    ensures
        r.0@ == "me"@,
        r.1@ == "awfullymatt"@,
        r.2@ == "flightthepower"@,
{
    ("me", "awfullymatt", "flightthepower")
}

/// The folder, inside the data directory, that holds the files.
pub fn save_folder() -> (r: &'static str)
    ensures
        r@ == "ron"@,
{
    "ron"
}

/// The ledger that a session starts with: the amount that was loaded, or
/// nothing.
pub open spec fn restored_ledger(loaded: Option<i64>) -> int {
    match loaded {
        Some(amount) => amount as int,
        None => 0,
    }
}

/// The catalog that a session starts with: the entries that were loaded if
/// they are a catalog in order, else the built-in catalog.
pub open spec fn restored_powers(loaded: Option<Seq<PowerBundle>>) -> Seq<PowerModel> {
    match loaded {
        Some(entries) => if catalog_valid(models(entries)) {
            models(entries)
        } else {
            default_powers()
        },
        None => default_powers(),
    }
}

/// The unlock flags that a session starts with: those that were loaded, or
/// the ten powers of the built-in catalog, all locked.
pub open spec fn restored_flags(loaded: Option<Seq<(usize, bool)>>) -> Map<usize, bool> {
    match loaded {
        Some(entries) => entries_map(entries),
        None => all_locked(10),
    }
}

/// The three aggregates of a session as they are written out.
#[derive(Debug, PartialEq, Eq)]
pub struct SaveData {
    /// The amount on the ledger.
    pub total_power: i64,
    /// The entries of the catalog, in order.
    pub powers: Vec<PowerBundle>,
    /// The unlock flags, in no particular order.
    pub power_unlocks: Vec<(usize, bool)>,
}

impl TotalPower {
    /// The ledger that was loaded, or an empty one where nothing could be
    /// loaded.
    pub fn restored(loaded: Option<i64>) -> (r: TotalPower)
        ensures
            r@ == restored_ledger(loaded),
    {
        match loaded {
            Some(amount) => TotalPower::new(amount),
            None => TotalPower::default(),
        }
    }
}

impl Powers {
    /// The catalog that was loaded, or the built-in one where nothing could
    /// be loaded or what was loaded is not a catalog in order.
    pub fn restored(loaded: Option<Vec<PowerBundle>>) -> (r: Powers)
        ensures
            r.wf(),
            r@ == restored_powers(
                match loaded {
                    Some(entries) => Some(entries@),
                    None => None,
                },
            ),
    {
        match loaded {
            Some(entries) => match Powers::new(entries) {
                Ok(powers) => powers,
                Err(_) => Powers::default(),
            },
            None => Powers::default(),
        }
    }
}

impl PowerUnlockFlags {
    /// The flags that were loaded, or those of a first run where nothing
    /// could be loaded.
    pub fn restored(loaded: Option<Vec<(usize, bool)>>) -> (r: PowerUnlockFlags)
        ensures
            r@ == restored_flags(
                match loaded {
                    Some(entries) => Some(entries@),
                    None => None,
                },
            ),
    {
        match loaded {
            Some(entries) => PowerUnlockFlags::from_entries(&entries),
            None => PowerUnlockFlags::default(),
        }
    }
}

impl Simulation {
    /// The session that starts from what could be loaded: each aggregate
    /// that could not be loaded is replaced by its built-in default.
    pub fn restore(
        total_power: Option<i64>,
        powers: Option<Vec<PowerBundle>>,
        power_unlocks: Option<Vec<(usize, bool)>>,
        auto_click: bool,
    ) -> (r: Simulation)
        ensures
            r.wf(),
            r@ == SimState::initial(
                restored_ledger(total_power),
                restored_powers(
                    match powers {
                        Some(entries) => Some(entries@),
                        None => None,
                    },
                ),
                restored_flags(
                    match power_unlocks {
                        Some(entries) => Some(entries@),
                        None => None,
                    },
                ),
                auto_click,
            ),
    {
        Simulation::new(
            TotalPower::restored(total_power),
            Powers::restored(powers),
            PowerUnlockFlags::restored(power_unlocks),
            auto_click,
        )
    }

    /// The aggregates of the session as they are to be written out. The
    /// catalog holds the owned counts of the last request to save.
    pub fn save_data(&self) -> (r: SaveData)
        ensures
            r.total_power == self@.ledger,
            models(r.powers@) == self@.catalog,
            lists(r.power_unlocks@, self@.flags),
    {
        SaveData {
            total_power: self.ledger(),
            powers: self.powers().bundles(),
            power_unlocks: self.flags().entries(),
        }
    }
}

} // verus!
