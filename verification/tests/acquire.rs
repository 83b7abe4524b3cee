use rust_rts::combat::acquire::{
    check_lock, nearest_enemy, ordered_target_valid, scan_plan, ward_valid, Candidate, Leash,
    LockCheck, LockProbe, Scan, ACQUIRE_STRIDE,
};
use rust_rts::combat::fire::{shot_plan, Delivery, Gun, ShotPlan, WeaponTech};
use rust_rts::orders::UnitOrder;

type P = (i32, i32);

fn enemy_seen() -> LockProbe {
    LockProbe { seen: true, own_team: Some(0), target_team: Some(1), leash: None, in_hold_reach: None }
}

#[test]
fn marching_locks_hold_inside_the_leash_only() {
    let order = UnitOrder::<P>::AttackMove { destination: (5, 5) };
    assert_eq!(check_lock(&order, 9, enemy_seen()), LockCheck::Keep);
    let far = LockProbe { leash: Some(Leash { target_near: false, ward_near: true }), ..enemy_seen() };
    assert_eq!(check_lock(&order, 9, far), LockCheck::Drop);
    let near = LockProbe { leash: Some(Leash { target_near: true, ward_near: false }), ..enemy_seen() };
    assert_eq!(check_lock(&order, 9, near), LockCheck::Keep);
    // A guard also needs the target within the leash of its ward.
    let guard = UnitOrder::<P>::Guard { target: 4 };
    assert_eq!(check_lock(&guard, 9, near), LockCheck::Drop);
    let both = LockProbe { leash: Some(Leash { target_near: true, ward_near: true }), ..enemy_seen() };
    assert_eq!(check_lock(&guard, 9, both), LockCheck::Keep);
}

#[test]
fn unseen_friendly_or_dead_targets_lose_the_lock() {
    let order = UnitOrder::<P>::Move { destination: (0, 0) };
    let unseen = LockProbe { seen: false, ..enemy_seen() };
    assert_eq!(check_lock(&order, 9, unseen), LockCheck::Drop);
    let friendly = LockProbe { target_team: Some(0), ..enemy_seen() };
    assert_eq!(check_lock(&order, 9, friendly), LockCheck::Drop);
    let gone = LockProbe { target_team: None, ..enemy_seen() };
    assert_eq!(check_lock(&order, 9, gone), LockCheck::Drop);
    let teamless = LockProbe { own_team: None, ..enemy_seen() };
    assert_eq!(check_lock(&order, 9, teamless), LockCheck::Drop);
}

#[test]
fn explicit_attacks_keep_only_their_target_and_complete_when_it_is_lost() {
    let order = UnitOrder::<P>::Attack { target: 9 };
    assert_eq!(check_lock(&order, 9, enemy_seen()), LockCheck::Keep);
    assert_eq!(check_lock(&order, 8, enemy_seen()), LockCheck::DropAndComplete);
    let unseen = LockProbe { seen: false, ..enemy_seen() };
    assert_eq!(check_lock(&order, 9, unseen), LockCheck::DropAndComplete);
}

#[test]
fn holders_keep_locks_while_a_gun_reaches() {
    for order in [UnitOrder::<P>::HoldPosition, UnitOrder::<P>::Idle] {
        assert_eq!(check_lock(&order, 9, enemy_seen()), LockCheck::Keep);
        let out = LockProbe { in_hold_reach: Some(false), ..enemy_seen() };
        assert_eq!(check_lock(&order, 9, out), LockCheck::Drop);
        let inside = LockProbe { in_hold_reach: Some(true), leash: Some(Leash { target_near: false, ward_near: false }), ..enemy_seen() };
        assert_eq!(check_lock(&order, 9, inside), LockCheck::Keep);
    }
}

#[test]
fn scans_are_staggered_by_id() {
    let order = UnitOrder::<P>::Move { destination: (1, 1) };
    let scanning: Vec<u64> = (0..10).filter(|tick| scan_plan(&order, *tick, 3, false, true, true) == Scan::Acquire).collect();
    assert_eq!(scanning, vec![2, 7]);
    assert_eq!(ACQUIRE_STRIDE, 5);
    // An explicit attack checks its own target on every tick.
    assert_eq!(scan_plan(&UnitOrder::<P>::Attack { target: 4 }, 1, 3, false, false, false), Scan::Ordered(4));
}

#[test]
fn scan_plan_follows_lock_and_order_state() {
    let march = UnitOrder::<P>::AttackMove { destination: (1, 1) };
    assert_eq!(scan_plan(&march, 5, 0, true, true, true), Scan::Retarget);
    assert_eq!(scan_plan(&march, 5, 0, true, true, false), Scan::Skip);
    assert_eq!(scan_plan(&UnitOrder::<P>::Idle, 5, 0, true, true, true), Scan::Skip);
    assert_eq!(scan_plan(&UnitOrder::<P>::Idle, 5, 0, false, true, true), Scan::Acquire);
    assert_eq!(scan_plan(&UnitOrder::<P>::HoldPosition, 5, 0, true, true, true), Scan::Retarget);
    let guard = UnitOrder::<P>::Guard { target: 2 };
    assert_eq!(scan_plan(&guard, 5, 0, false, false, true), Scan::Skip);
    assert_eq!(scan_plan(&guard, 5, 0, false, true, true), Scan::Acquire);
}

#[test]
fn ordered_targets_must_be_seen_live_enemies() {
    assert!(ordered_target_valid(0, Some(1), true, true));
    assert!(!ordered_target_valid(0, Some(0), true, true));
    assert!(!ordered_target_valid(0, Some(1), false, true));
    assert!(!ordered_target_valid(0, Some(1), true, false));
    assert!(!ordered_target_valid(0, None, true, true));
}

fn cand(id: u64, team: u8, distance: f32) -> Candidate {
    Candidate { id, team, alive: true, eligible: true, distance: distance.to_bits() }
}

#[test]
fn nearest_enemy_prefers_distance_then_lower_id() {
    let cands = vec![cand(7, 1, 4.0), cand(3, 1, 4.0), cand(5, 1, 9.0), cand(1, 0, 0.5)];
    assert_eq!(nearest_enemy(&cands, 0, 99), Some((3, 4.0f32.to_bits())));
    let mut reversed = cands.clone();
    reversed.reverse();
    assert_eq!(nearest_enemy(&reversed, 0, 99), Some((3, 4.0f32.to_bits())));
    // The ignored entity, dead or ineligible candidates never win.
    assert_eq!(nearest_enemy(&cands, 0, 3), Some((7, 4.0f32.to_bits())));
    let mut dead = cands.clone();
    dead[0].alive = false;
    dead[1].eligible = false;
    assert_eq!(nearest_enemy(&dead, 0, 99), Some((5, 9.0f32.to_bits())));
    assert_eq!(nearest_enemy(&cands, 1, 99), Some((1, 0.5f32.to_bits())));
    assert_eq!(nearest_enemy(&vec![cand(1, 0, 1.0)], 0, 99), None);
    assert_eq!(nearest_enemy(&vec![], 0, 99), None);
}

#[test]
fn distance_bit_patterns_order_like_distances() {
    let mut last = 0u32;
    for d in [0.0f32, 1e-9, 0.25, 1.0, 1.5, 100.0, 1e12] {
        assert!(d.to_bits() >= last);
        last = d.to_bits();
    }
}

#[test]
fn guards_drop_dead_vanished_or_hostile_wards() {
    assert!(ward_valid(Some(0), Some(0), true));
    assert!(!ward_valid(Some(0), Some(0), false));
    assert!(!ward_valid(Some(0), Some(1), true));
    assert!(!ward_valid(None, Some(0), true));
    assert!(!ward_valid(Some(0), None, true));
}

#[test]
fn shot_plans_follow_technology_and_gun() {
    let lob = shot_plan(Gun::Primary, WeaponTech::TopAttack);
    assert_eq!(lob, ShotPlan { delivery: Delivery::Plunge, traverse_gated: false, spread: false, arc: false, splash: true });
    let pod_lob = shot_plan(Gun::Secondary, WeaponTech::TopAttack);
    assert_eq!(pod_lob, ShotPlan { delivery: Delivery::Plunge, traverse_gated: true, spread: true, arc: false, splash: true });
    assert!(shot_plan(Gun::Primary, WeaponTech::Laser).traverse_gated);
    assert!(!shot_plan(Gun::Secondary, WeaponTech::Laser).traverse_gated);
    assert_eq!(shot_plan(Gun::Secondary, WeaponTech::Laser).delivery, Delivery::Beam);
    assert_eq!(shot_plan(Gun::Primary, WeaponTech::Homing), ShotPlan { delivery: Delivery::Guided, traverse_gated: true, spread: false, arc: false, splash: false });
    assert_eq!(shot_plan(Gun::Primary, WeaponTech::Mortar), ShotPlan { delivery: Delivery::Shot, traverse_gated: true, spread: true, arc: true, splash: true });
    for tech in [WeaponTech::Gun, WeaponTech::Dumbfire] {
        for gun in [Gun::Primary, Gun::Secondary] {
            assert_eq!(shot_plan(gun, tech), ShotPlan { delivery: Delivery::Shot, traverse_gated: true, spread: true, arc: false, splash: true });
        }
    }
}
