use flightthepower::catalog::Powers;
use flightthepower::ledger::TotalPower;
use flightthepower::model::Command;
use flightthepower::power::PowerBundle;
use flightthepower::save::{project_id, save_folder, SaveFile};
use flightthepower::simulation::Simulation;
use flightthepower::unlock::PowerUnlockFlags;

const SECOND: u64 = 1_000_000_000;

fn power(id: usize, cost: i64, current_owned: i64, unlock_bound: i64) -> PowerBundle {
    PowerBundle {
        title: format!("Power {}", id),
        id,
        cost,
        production_amount: 3,
        production_rate: SECOND,
        max_owned: 10,
        current_owned,
        unlock_bound,
    }
}

fn sorted(mut entries: Vec<(usize, bool)>) -> Vec<(usize, bool)> {
    entries.sort();
    entries
}

#[test]
fn the_files_have_their_well_known_names() {
    assert_eq!(SaveFile::Settings.name(), "settings.ron");
    assert_eq!(SaveFile::PowerUnlocks.name(), "power_unlocks.ron");
    assert_eq!(SaveFile::TotalPower.name(), "total_power.ron");
    assert_eq!(SaveFile::Powers.name(), "powers.ron");
}

#[test]
fn the_files_have_their_place() {
    assert_eq!(project_id(), ("me", "awfullymatt", "flightthepower"));
    assert_eq!(save_folder(), "ron");
}

#[test]
fn the_files_are_written_in_a_fixed_order() {
    assert_eq!(
        SaveFile::sequence(),
        [SaveFile::Settings, SaveFile::PowerUnlocks, SaveFile::TotalPower, SaveFile::Powers]
    );
}

#[test]
fn load_with_missing_file_scenario() {
    let simulation = Simulation::restore(None, None, None, false);
    assert_eq!(simulation.ledger(), 0);
    assert_eq!(simulation.powers().bundles(), Powers::default().bundles());
    assert_eq!(
        sorted(simulation.flags().entries()),
        (0..10).map(|id| (id, false)).collect::<Vec<_>>()
    );
    for id in 0..10 {
        assert!(simulation.live(id).is_none());
    }
    assert!(!simulation.auto_click_enabled());
}

#[test]
fn each_missing_aggregate_is_replaced_by_its_default() {
    let simulation = Simulation::restore(Some(77), None, Some(vec![(1, true), (0, false)]), true);
    assert_eq!(simulation.ledger(), 77);
    assert_eq!(simulation.powers().bundles(), Powers::default().bundles());
    assert_eq!(sorted(simulation.flags().entries()), vec![(0, false), (1, true)]);
    assert_eq!(simulation.live(1).unwrap().current_owned(), 0);
    assert_eq!(simulation.live(1).unwrap().timer().period(), 5 * SECOND);
    assert!(simulation.live(0).is_none());
    assert!(simulation.auto_click_enabled());
}

#[test]
fn a_catalog_out_of_order_is_replaced_by_the_default() {
    let simulation = Simulation::restore(Some(1), Some(vec![power(4, 1, 0, 0)]), None, false);
    assert_eq!(simulation.powers().bundles(), Powers::default().bundles());
}

#[test]
fn save_data_holds_the_three_aggregates() {
    let mut simulation = Simulation::new(
        TotalPower::new(100),
        Powers::new(vec![power(0, 10, 1, 0), power(1, 10, 0, 500)]).unwrap(),
        PowerUnlockFlags::from_entries(&vec![(0, true), (1, false)]),
        false,
    );
    assert_eq!(simulation.purchase(0), Ok(()));
    let _ = simulation.apply(Command::RequestSave);
    let data = simulation.save_data();
    assert_eq!(data.total_power, 90);
    assert_eq!(data.powers, vec![power(0, 10, 2, 0), power(1, 10, 0, 500)]);
    assert_eq!(sorted(data.power_unlocks), vec![(0, true), (1, false)]);
}

#[test]
fn a_saved_session_is_read_back_as_it_was() {
    let mut simulation =
        Simulation::restore(Some(1_000), None, Some(vec![(1, false), (2, true)]), false);
    assert_eq!(simulation.purchase(2), Ok(()));
    assert_eq!(simulation.tick(SECOND), Ok(vec![]));
    assert_eq!(simulation.tick(SECOND), Ok(vec![1]));
    assert_eq!(simulation.tick(SECOND), Ok(vec![]));
    assert_eq!(simulation.ledger(), 75);
    let _ = simulation.apply(Command::RequestExit);
    let data = simulation.save_data();
    let back = Simulation::restore(
        Some(data.total_power),
        Some(data.powers.clone()),
        Some(data.power_unlocks.clone()),
        false,
    );
    assert_eq!(back.ledger(), simulation.ledger());
    assert_eq!(back.powers().bundles(), simulation.powers().bundles());
    assert_eq!(sorted(back.flags().entries()), sorted(simulation.flags().entries()));
    assert_eq!(back.live(2).unwrap().current_owned(), 1);
    assert_eq!(back.live(1).unwrap().current_owned(), 0);
    assert!(back.flags().is_unlocked(1));
    assert!(back.flags().is_unlocked(2));
    let again = back.save_data();
    assert_eq!(again.total_power, data.total_power);
    assert_eq!(again.powers, data.powers);
    assert_eq!(sorted(again.power_unlocks), sorted(data.power_unlocks));
}
