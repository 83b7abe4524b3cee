use rust_rts::economy::balance::BuildingKind;
use rust_rts::structures::deposits::{nearest_deposit, nearest_free, DepositKey, metal_spot_ok, spacing_keep, DEPOSIT_COUNT};
use rust_rts::structures::{factory_spawn_ok, placement_rule, valid_ground, Occupancy};

const SPOT_SNAP: f32 = 4.0;
const SPOT_CAPTURE: f32 = 8.0;

fn rule(deposits: &[(f32, f32)], kind: BuildingKind, x: f32, metals: &[f32]) -> Result<(), &'static str> {
    // Nearest deposit along the x axis of the test layout.
    let nearest = deposits
        .iter()
        .copied()
        .min_by(|a, b| (a.0 - x).abs().total_cmp(&(b.0 - x).abs()));
    let within = nearest.map(|d| (d.0 - x).abs() <= SPOT_SNAP);
    let free = nearest.is_some_and(|d| metals.iter().all(|m| (m - d.0).abs() > SPOT_CAPTURE));
    metal_spot_ok(kind, within, free)
}

#[test]
fn rule_accepts_only_free_spots_for_metal() {
    let deps = [(10.0, 1.0), (0.0, 2.0)];
    assert!(rule(&deps, BuildingKind::Solar, 99.0, &[]).is_ok());
    assert!(rule(&deps, BuildingKind::Metal, 99.0, &[]).is_err());
    assert!(rule(&deps, BuildingKind::Metal, 11.0, &[]).is_ok());
    assert!(rule(&deps, BuildingKind::Metal, 10.0, &[10.5]).is_err());
    assert!(rule(&deps, BuildingKind::Metal, 0.5, &[]).is_ok());
}

#[test]
fn metal_rule_messages() {
    assert_eq!(
        metal_spot_ok(BuildingKind::Metal, None, true),
        Err("Metal needs a deposit — build on highlighted spots")
    );
    assert_eq!(
        metal_spot_ok(BuildingKind::Metal, Some(false), true),
        Err("Metal needs a deposit — build on highlighted spots")
    );
    assert_eq!(
        metal_spot_ok(BuildingKind::Metal, Some(true), false),
        Err("Deposit occupied")
    );
    assert_eq!(metal_spot_ok(BuildingKind::Metal, Some(true), true), Ok(()));
    assert_eq!(metal_spot_ok(BuildingKind::Wall, None, false), Ok(()));
}

#[test]
fn spacing_drops_mirror_twins_together() {
    let mut crowded = vec![false; DEPOSIT_COUNT];
    assert_eq!(spacing_keep(&crowded), vec![true; DEPOSIT_COUNT]);
    crowded[4] = true;
    crowded[7] = true;
    let keep = spacing_keep(&crowded);
    assert_eq!(
        keep,
        vec![true, false, true, true, false, true, false, false, true]
    );
    crowded[8] = true;
    assert!(!spacing_keep(&crowded)[8]);
}

#[test]
fn placement_needs_a_builder_and_one_site_at_a_time() {
    assert_eq!(
        placement_rule(0, &vec![], &vec![]),
        Err("No builders alive: build an Engineer first")
    );
    let builders = vec![0];
    assert!(placement_rule(0, &vec![], &builders).is_ok());
    assert!(placement_rule(1, &vec![], &builders).is_err());
    assert_eq!(
        placement_rule(0, &vec![(0, true)], &builders),
        Err("Active site already exists: finish it first")
    );
    assert!(placement_rule(0, &vec![(1, true), (0, false)], &builders).is_ok());
    assert!(placement_rule(0, &vec![(0, false)], &vec![]).is_err());
}

#[test]
fn occupancy_tracks_footprints_by_id() {
    let mut occupancy: Occupancy<u32> = Occupancy::new();
    assert_eq!(occupancy.upsert(30, 3), None);
    assert_eq!(occupancy.upsert(10, 1), None);
    assert_eq!(occupancy.upsert(20, 2), None);
    assert_eq!(occupancy.footprints(), vec![1, 2, 3]);
    assert_eq!(occupancy.upsert(20, 5), Some(2));
    assert_eq!(occupancy.footprints(), vec![1, 5, 3]);
    assert_eq!(occupancy.remove(10), Some(1));
    assert_eq!(occupancy.remove(10), None);
    assert_eq!(occupancy.len(), 2);
    assert_eq!(occupancy.footprints(), vec![5, 3]);
}

fn key(distance: f32, mult: f32, x: f32, z: f32) -> DepositKey {
    DepositKey { distance: distance.to_bits(), mult: mult.to_bits(), x: x.to_bits(), z: z.to_bits() }
}

#[test]
fn nearest_deposit_prefers_distance_then_yield_then_coordinates() {
    let keys = vec![key(9.0, 1.0, 5.0, 5.0), key(4.0, 1.0, 7.0, 1.0), key(4.0, 1.5, 9.0, 9.0), key(1.0, 1.0, 0.0, 0.0)];
    assert_eq!(nearest_deposit(&keys), Some(3));
    assert_eq!(nearest_free(&keys, &vec![true, true, true, false]), Some(2));
    assert_eq!(nearest_free(&keys, &vec![true, true, false, false]), Some(1));
    assert_eq!(nearest_free(&keys, &vec![false; 4]), None);
    assert_eq!(nearest_deposit(&vec![]), None);
    // Equal distance and yield: lower coordinate bits first, then the first listed.
    let tied = vec![key(4.0, 1.0, 7.0, 2.0), key(4.0, 1.0, 7.0, 1.0), key(4.0, 1.0, 7.0, 1.0)];
    assert_eq!(nearest_deposit(&tied), Some(1));
}

#[test]
fn ground_checks_report_the_first_failure() {
    assert_eq!(valid_ground(false, true, true), Err("Outside map"));
    assert_eq!(valid_ground(true, true, true), Err("Overlaps obstacle / building"));
    assert_eq!(valid_ground(true, false, true), Err("Unit inside footprint / clearance"));
    assert_eq!(valid_ground(true, false, false), Ok(()));
}

#[test]
fn only_factories_need_a_free_door() {
    let blocked = Err("Factory exits blocked — pick a spot with a free door");
    assert_eq!(factory_spawn_ok(BuildingKind::Factory, false), blocked);
    assert_eq!(factory_spawn_ok(BuildingKind::LabT2, false), blocked);
    assert_eq!(factory_spawn_ok(BuildingKind::Factory, true), Ok(()));
    assert_eq!(factory_spawn_ok(BuildingKind::Turret, false), Ok(()));
}
