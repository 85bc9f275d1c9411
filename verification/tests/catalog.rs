use flightthepower::catalog::{CatalogError, Powers};
use flightthepower::power::PowerBundle;

fn power(id: usize, cost: i64, max_owned: i64, current_owned: i64) -> PowerBundle {
    PowerBundle {
        title: format!("Power {}", id),
        id,
        cost,
        production_amount: 1,
        production_rate: 1_000_000_000,
        max_owned,
        current_owned,
        unlock_bound: 0,
    }
}

#[test]
fn the_built_in_catalog_has_ten_powers() {
    let powers = Powers::default();
    assert_eq!(powers.len(), 10);
    for id in 0..10 {
        let bundle = powers.find(id).unwrap();
        assert_eq!(bundle.id, id);
        assert_eq!(bundle.current_owned, 0);
        assert!(bundle.is_valid());
    }
    assert!(powers.find(10).is_none());
}

#[test]
fn the_built_in_catalog_holds_the_game_balance() {
    let expected: Vec<(&str, i64, i64, u64, i64, i64)> = vec![
        ("Default Power", 0, 1, 1_000_000_000_000_000, 1, i64::MAX),
        ("Middle School Science Project", 50, 5, 5_000_000_000, i64::MAX, 50),
        ("Hamster on a Wheel", 1000, 25, 1_000_000_000, 30_000_000, 1000),
        ("'Gas' Engine", 33_333, 100_000, 240_000_000_000, 1, 10_000),
        ("Portable Generator", 242_424, 800, 8_000_000_000, i64::MAX, 100_000),
        ("Hotwire the Neighbors", 999_999, 222, 500_000_000, 128_000_000, 1_000_000),
        ("Electric Eel Farm", 2_500_000, 45_000, 30_000_000_000, 10_000_000, 10_000_000),
        (
            "Miniscule Hadron Collider",
            111_111_111,
            123_456,
            33_000_000_000,
            123_456_789,
            100_000_000,
        ),
        ("Luke-warm Fusion Reactor", 987_654_321, 9_999, 100_000_000, 1, 1_000_000_000),
        ("Buttered Cat Paradox", 1, 1, 10_000, 999, 10_000_000_000),
    ];
    let bundles = Powers::default().bundles();
    assert_eq!(bundles.len(), expected.len());
    for (id, (title, cost, amount, rate, max_owned, unlock_bound)) in
        expected.into_iter().enumerate()
    {
        assert_eq!(
            bundles[id],
            PowerBundle {
                title: title.to_string(),
                id,
                cost,
                production_amount: amount,
                production_rate: rate,
                max_owned,
                current_owned: 0,
                unlock_bound,
            }
        );
    }
}

#[test]
fn a_catalog_is_made_of_entries_in_order() {
    let entries = vec![power(0, 10, 5, 0), power(1, 20, 5, 5)];
    let powers = Powers::new(entries.clone()).unwrap();
    assert_eq!(powers.len(), 2);
    assert_eq!(powers.bundles(), entries);
    assert_eq!(powers.find(1), Some(&entries[1]));
    assert_eq!(powers.find(2), None);
}

#[test]
fn an_empty_catalog_is_in_order() {
    let powers = Powers::new(Vec::new()).unwrap();
    assert_eq!(powers.len(), 0);
    assert!(powers.find(0).is_none());
}

#[test]
fn a_catalog_refuses_an_invalid_power() {
    let mut negative_cost = power(1, 10, 5, 0);
    negative_cost.cost = -1;
    assert_eq!(
        Powers::new(vec![power(0, 10, 5, 0), negative_cost]).err(),
        Some(CatalogError::InvalidPower(1))
    );
    assert_eq!(Powers::new(vec![power(0, 10, 5, 6)]).err(), Some(CatalogError::InvalidPower(0)));
    assert_eq!(Powers::new(vec![power(0, 10, 5, -1)]).err(), Some(CatalogError::InvalidPower(0)));
    let mut no_period = power(0, 10, 5, 0);
    no_period.production_rate = 0;
    assert_eq!(Powers::new(vec![no_period]).err(), Some(CatalogError::InvalidPower(0)));
    let mut negative_amount = power(0, 10, 5, 0);
    negative_amount.production_amount = -3;
    assert_eq!(Powers::new(vec![negative_amount]).err(), Some(CatalogError::InvalidPower(0)));
    let mut negative_bound = power(0, 10, 5, 0);
    negative_bound.unlock_bound = -3;
    assert_eq!(Powers::new(vec![negative_bound]).err(), Some(CatalogError::InvalidPower(0)));
}

#[test]
fn a_catalog_refuses_a_misplaced_id() {
    assert_eq!(
        Powers::new(vec![power(0, 10, 5, 0), power(2, 10, 5, 0)]).err(),
        Some(CatalogError::IdMismatch(1))
    );
    assert_eq!(
        Powers::new(vec![power(1, 10, 5, 0), power(0, 10, 5, 0)]).err(),
        Some(CatalogError::IdMismatch(0))
    );
}

#[test]
fn the_first_fault_is_reported() {
    let mut invalid = power(7, 10, 5, 0);
    invalid.cost = -1;
    assert_eq!(
        Powers::new(vec![power(3, 10, 5, 0), invalid]).err(),
        Some(CatalogError::IdMismatch(0))
    );
    let mut invalid_and_misplaced = power(7, 10, 5, 0);
    invalid_and_misplaced.cost = -1;
    assert_eq!(
        Powers::new(vec![invalid_and_misplaced]).err(),
        Some(CatalogError::InvalidPower(0))
    );
}

#[test]
fn sync_copies_the_owned_count() {
    let mut powers = Powers::new(vec![power(0, 10, 5, 0), power(1, 20, 5, 1)]).unwrap();
    powers.sync_from_runtime(1, 4);
    assert_eq!(powers.bundles(), vec![power(0, 10, 5, 0), power(1, 20, 5, 4)]);
    powers.sync_from_runtime(0, 5);
    assert_eq!(powers.bundles(), vec![power(0, 10, 5, 5), power(1, 20, 5, 4)]);
}

#[test]
fn sync_of_an_unknown_id_changes_nothing() {
    let mut powers = Powers::new(vec![power(0, 10, 5, 2)]).unwrap();
    powers.sync_from_runtime(1, 3);
    powers.sync_from_runtime(usize::MAX, 3);
    assert_eq!(powers.bundles(), vec![power(0, 10, 5, 2)]);
}

#[test]
fn sync_of_a_count_outside_the_limits_changes_nothing() {
    let mut powers = Powers::new(vec![power(0, 10, 5, 2)]).unwrap();
    powers.sync_from_runtime(0, 6);
    assert_eq!(powers.bundles(), vec![power(0, 10, 5, 2)]);
    powers.sync_from_runtime(0, -1);
    assert_eq!(powers.bundles(), vec![power(0, 10, 5, 2)]);
}

#[test]
fn a_restored_catalog_falls_back_to_the_built_in_one() {
    let defaults = Powers::default().bundles();
    assert_eq!(Powers::restored(None).bundles(), defaults);
    assert_eq!(Powers::restored(Some(vec![power(1, 10, 5, 0)])).bundles(), defaults);
    let entries = vec![power(0, 10, 5, 3)];
    assert_eq!(Powers::restored(Some(entries.clone())).bundles(), entries);
}

#[test]
fn a_copy_of_a_power_is_the_power() {
    let bundle = power(3, 10, 5, 2);
    assert_eq!(bundle.clone(), bundle);
}
