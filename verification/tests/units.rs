use rust_rts::scenario::Scenario;
use rust_rts::units::archetype::{kind_for_index, UnitKind};
use rust_rts::units::{player_team, unit_id, Team};

#[test]
fn composition_is_deterministic_and_heavy_front() {
    let kinds: Vec<_> = (0..100).map(kind_for_index).collect();
    assert_eq!(kinds, (0..100).map(kind_for_index).collect::<Vec<_>>());
    assert_eq!(
        kinds.iter().filter(|kind| **kind == UnitKind::HeavyTank).count(),
        50
    );
    assert_eq!(
        kinds.iter().filter(|kind| **kind == UnitKind::LightTank).count(),
        30
    );
    assert_eq!(
        kinds.iter().filter(|kind| **kind == UnitKind::Scout).count(),
        10
    );
    assert_eq!(
        kinds.iter().filter(|kind| **kind == UnitKind::Artillery).count(),
        10
    );
}

#[test]
fn composition_pattern_per_block() {
    assert_eq!(kind_for_index(0), UnitKind::HeavyTank);
    assert_eq!(kind_for_index(4), UnitKind::HeavyTank);
    assert_eq!(kind_for_index(5), UnitKind::LightTank);
    assert_eq!(kind_for_index(7), UnitKind::LightTank);
    assert_eq!(kind_for_index(8), UnitKind::Scout);
    assert_eq!(kind_for_index(9), UnitKind::Artillery);
    assert_eq!(kind_for_index(19), UnitKind::Artillery);
}

#[test]
fn kind_tables_are_consistent() {
    assert!(UnitKind::all().iter().enumerate().all(|(i, k)| k.index() == i));
    assert!(!UnitKind::producible().contains(&UnitKind::Commander));
    assert_eq!(UnitKind::producible().len(), 7);
    assert!(UnitKind::Commander.is_commander());
    assert!(UnitKind::Engineer.is_builder());
    assert_eq!(UnitKind::HeavyTank2.tier(), 2);
    assert_eq!(UnitKind::Scout.tier(), 1);
}

#[test]
fn teams_and_ids() {
    assert_eq!(player_team(), Team(0));
    assert!(Team(0).is_enemy(Team(1)));
    assert!(!Team(1).is_enemy(Team(1)));
    assert_eq!(unit_id(0, 10, 3), 3);
    assert_eq!(unit_id(1, 10, 3), 13);
}

#[test]
fn scenarios_field_two_teams() {
    assert_eq!(Scenario::default(), Scenario::Playground);
    assert_eq!(Scenario::Playground.per_team(), 1);
    assert_eq!(Scenario::Skirmish { per_team: 40 }.per_team(), 40);
    assert_eq!(Scenario::Benchmark { per_team: 7 }.teams(), 2);
    assert_eq!(Scenario::opponent(0), 1);
    assert_eq!(Scenario::opponent(1), 0);
}
