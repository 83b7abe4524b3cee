use rust_rts::combat::behaviour::{
    behaviour_focus, chase_anchor, resolve, Anchor, Focus, Locomotion, Probe, Reaction,
};
use rust_rts::combat::may_fire;
use rust_rts::orders::{MoveEffect, UnitOrder};

type P = (f32, f32, f32);
const A: P = (1.0, 0.0, 0.0);
const B: P = (2.0, 0.0, 0.0);
const C: P = (3.0, 0.0, 0.0);

fn loco(has_move_target: bool, has_route: bool, chasing: bool, holding: bool) -> Locomotion {
    Locomotion {
        has_move_target,
        has_route,
        chasing,
        holding,
    }
}

fn probe() -> Probe<P> {
    Probe {
        arrived: false,
        target_current: false,
        ward: None,
        site: None,
        in_weapon_range: false,
        anchor: None,
    }
}

fn run(order: UnitOrder<P>, locked: bool, l: Locomotion, p: Probe<P>) -> Reaction<P> {
    resolve(order, locked, l, p)
}

#[test]
fn focus_follows_order_and_lock() {
    assert_eq!(behaviour_focus(&UnitOrder::Move { destination: A }, false), Focus::Point(A));
    assert_eq!(
        behaviour_focus(&UnitOrder::Patrol { points: vec![A, B, C], next: 4 }, false),
        Focus::Point(B)
    );
    assert_eq!(behaviour_focus(&UnitOrder::<P>::Guard { target: 5 }, false), Focus::Ward(5));
    assert_eq!(behaviour_focus(&UnitOrder::<P>::Build { site: 6 }, false), Focus::Site(6));
    assert_eq!(behaviour_focus(&UnitOrder::<P>::Attack { target: 5 }, true), Focus::Lock);
    assert_eq!(behaviour_focus(&UnitOrder::<P>::HoldPosition, true), Focus::Nothing);
}

#[test]
fn march_completes_on_arrival() {
    let mut p = probe();
    p.arrived = true;
    let r = run(UnitOrder::Move { destination: A }, false, loco(false, false, false, false), p);
    assert!(r.complete);
    let r = run(UnitOrder::Move { destination: A }, false, loco(false, false, false, false), probe());
    assert!(!r.complete);
    assert_eq!(r.move_target, MoveEffect::Go(A));
    assert!(!r.drop_route);
}

#[test]
fn stale_move_target_is_replaced() {
    let r = run(UnitOrder::Move { destination: A }, false, loco(true, true, false, false), probe());
    assert_eq!(r.move_target, MoveEffect::Go(A));
    assert!(r.drop_route);
    let mut p = probe();
    p.target_current = true;
    let r = run(UnitOrder::Move { destination: A }, false, loco(true, true, false, false), p);
    assert_eq!(r.move_target, MoveEffect::Keep);
    assert!(!r.drop_route);
}

#[test]
fn patrol_advances_waypoints_and_loops_forever() {
    let mut p = probe();
    p.arrived = true;
    let r = run(
        UnitOrder::Patrol { points: vec![A, B, C], next: 2 },
        false,
        loco(false, false, false, false),
        p,
    );
    assert!(!r.complete);
    assert_eq!(r.order, Some(UnitOrder::Patrol { points: vec![A, B, C], next: 0 }));
    assert_eq!(r.move_target, MoveEffect::Go(A));
    assert!(r.drop_route);
    let r = run(UnitOrder::Patrol { points: vec![], next: 0 }, false, loco(false, false, false, false), probe());
    assert_eq!(r.order, Some(UnitOrder::Idle));
}

#[test]
fn attack_move_stops_to_fight_and_resumes() {
    let order = || UnitOrder::AttackMove { destination: A };
    let mut p = probe();
    p.in_weapon_range = true;
    let r = run(order(), true, loco(true, true, true, false), p);
    assert_eq!(r.chasing, Some(false));
    assert_eq!(r.holding, Some(true));
    assert!(!r.drop_markers);
    let r = run(order(), true, loco(true, true, false, true), probe());
    assert_eq!(r.chasing, Some(true));
    assert_eq!(r.holding, Some(false));
    let r = run(order(), false, loco(false, false, false, false), probe());
    assert!(r.complete);
}

#[test]
fn lost_lock_drops_markers() {
    let r = run(UnitOrder::Move { destination: A }, false, loco(true, false, true, true), probe());
    assert!(r.drop_markers);
    let r = run(UnitOrder::<P>::HoldPosition, true, loco(false, false, true, false), probe());
    assert!(r.drop_markers);
    assert_eq!(r.chasing, None);
}

#[test]
fn guard_follows_ward_and_holds_near_it() {
    let mut p = probe();
    p.ward = Some((false, B));
    let r = run(UnitOrder::Guard { target: 5 }, false, loco(false, false, false, false), p);
    assert_eq!(r.move_target, MoveEffect::Go(B));
    let mut p = probe();
    p.ward = Some((true, B));
    let r = run(UnitOrder::Guard { target: 5 }, false, loco(true, true, false, false), p);
    assert_eq!(r.move_target, MoveEffect::Clear);
    assert!(r.drop_route);
    let r = run(UnitOrder::Guard { target: 5 }, false, loco(true, true, false, false), probe());
    assert_eq!(r.move_target, MoveEffect::Keep);
}

#[test]
fn builder_marches_then_builds_and_completes_when_site_is_gone() {
    let mut p = probe();
    p.site = Some((false, C));
    let r = run(UnitOrder::Build { site: 9 }, false, loco(false, false, false, false), p);
    assert_eq!(r.move_target, MoveEffect::Go(C));
    let mut p = probe();
    p.site = Some((true, C));
    let r = run(UnitOrder::Build { site: 9 }, false, loco(true, false, false, false), p);
    assert_eq!(r.move_target, MoveEffect::Clear);
    let r = run(UnitOrder::Build { site: 9 }, false, loco(false, false, false, false), probe());
    assert!(r.complete);
}

#[test]
fn explicit_attack_completes_without_lock() {
    let r = run(UnitOrder::<P>::Attack { target: 3 }, false, loco(false, false, false, false), probe());
    assert!(r.complete);
}

#[test]
fn chase_anchor_rule() {
    assert_eq!(chase_anchor(&UnitOrder::<P>::Attack { target: 3 }, true, false), Anchor::RepairedTarget);
    assert_eq!(chase_anchor(&UnitOrder::<P>::Attack { target: 3 }, false, false), Anchor::Target);
    assert_eq!(chase_anchor(&UnitOrder::<P>::Guard { target: 4 }, true, true), Anchor::Ward(4));
    assert_eq!(chase_anchor(&UnitOrder::Patrol { points: vec![A], next: 0 }, false, true), Anchor::Keep);
    let mut p = probe();
    p.anchor = Some(C);
    let r = run(UnitOrder::<P>::Attack { target: 3 }, true, loco(false, false, false, false), p);
    assert_eq!(r.move_target, MoveEffect::Go(C));
    assert!(r.drop_route);
}

#[test]
fn fire_gate() {
    assert!(may_fire(true, true, true, true, false, true));
    assert!(may_fire(true, true, true, true, true, false));
    assert!(!may_fire(false, true, true, true, true, true));
    assert!(!may_fire(true, true, false, true, true, true));
    assert!(!may_fire(true, true, true, true, false, false));
}
