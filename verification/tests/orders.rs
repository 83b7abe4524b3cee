use rust_rts::orders::lines::{
    kind_tag, order_goal, order_slot, reconcile_visuals, Drawn, Missing, VizFate, VizKind,
};
use rust_rts::orders::{
    allows_auto_targeting, allows_chase, complete_order, enqueue_order, extend_patrol, is_busy,
    issue, queue_attack, queue_attack_move, queue_move, queue_patrol, queue_stop, Completion,
    MoveEffect, PendingOrder, UnitOrder, UnitOrderQueue, MAX_PATROL_POINTS,
};
use rust_rts::ui::shell::order_name;

type P = (f32, f32, f32);
const ZERO: P = (0.0, 0.0, 0.0);
const X: P = (1.0, 0.0, 0.0);

#[test]
fn pending_order_starts_disarmed() {
    assert_eq!(PendingOrder::default(), PendingOrder::Unarmed);
}

#[test]
fn auto_targeting_matrix() {
    assert!(!allows_auto_targeting(&UnitOrder::<P>::Attack { target: 9 }));
    for order in [
        UnitOrder::AttackMove { destination: ZERO },
        UnitOrder::Move { destination: ZERO },
        UnitOrder::HoldPosition,
        UnitOrder::Idle,
        UnitOrder::Patrol {
            points: vec![ZERO],
            next: 0,
        },
        UnitOrder::Guard { target: 9 },
        UnitOrder::Build { site: 9 },
    ] {
        assert!(allows_auto_targeting(&order), "{order:?} must acquire");
    }
}

#[test]
fn only_chase_orders_close_distance() {
    assert!(allows_chase(&UnitOrder::<P>::Attack { target: 9 }));
    assert!(allows_chase(&UnitOrder::AttackMove { destination: ZERO }));
    assert!(allows_chase(&UnitOrder::Patrol {
        points: vec![ZERO],
        next: 0,
    }));
    assert!(allows_chase(&UnitOrder::<P>::Guard { target: 9 }));
    assert!(!allows_chase(&UnitOrder::<P>::HoldPosition));
    assert!(!allows_chase(&UnitOrder::<P>::Build { site: 9 }));
    assert!(!allows_chase(&UnitOrder::Move { destination: ZERO }));
    assert!(!allows_chase(&UnitOrder::<P>::Idle));
}

#[test]
fn patrol_cap_bounds_loop_memory() {
    assert!(MAX_PATROL_POINTS >= 2);
}

#[test]
fn orders_form_a_single_contradiction_free_intent() {
    let order = UnitOrder::Move { destination: X };
    assert_ne!(order, UnitOrder::AttackMove { destination: X });
    assert!(allows_auto_targeting(&order));
    assert!(!allows_chase(&order));
}

#[test]
fn orders_map_to_stable_colour_slots() {
    assert_eq!(order_slot(&UnitOrder::Move { destination: ZERO }), 0);
    assert_eq!(order_slot(&UnitOrder::AttackMove { destination: ZERO }), 1);
    assert_eq!(order_slot(&UnitOrder::<P>::HoldPosition), 2);
    assert_eq!(order_slot(&UnitOrder::<P>::Idle), 3);
    assert_eq!(
        order_slot(&UnitOrder::<P>::Patrol {
            points: Vec::new(),
            next: 0
        }),
        4
    );
    assert_eq!(order_slot(&UnitOrder::<P>::Guard { target: 9 }), 5);
    assert_eq!(order_slot(&UnitOrder::<P>::Build { site: 9 }), 6);
}

#[test]
fn viz_kinds_have_distinct_tags() {
    assert_eq!(kind_tag(VizKind::Line), 0);
    assert_eq!(kind_tag(VizKind::Marker), 1);
    assert_eq!(kind_tag(VizKind::Flash), 2);
}

#[test]
fn issued_orders_set_move_target_and_drop_queue() {
    let intent = queue_move(X);
    assert_eq!(intent.order, UnitOrder::Move { destination: X });
    assert_eq!(intent.move_target, MoveEffect::Go(X));
    assert!(intent.clear_combat && intent.clear_queue);
    let attack = queue_attack::<P>(4);
    assert_eq!(attack.move_target, MoveEffect::Clear);
    let am = queue_attack_move(ZERO);
    assert_eq!(am.order, UnitOrder::AttackMove { destination: ZERO });
    let stop = queue_stop::<P>();
    assert_eq!(stop.order, UnitOrder::Idle);
}

#[test]
fn empty_patrol_stops_the_unit() {
    let intent = queue_patrol::<P>(Vec::new());
    assert_eq!(intent.order, UnitOrder::Idle);
    assert_eq!(intent.move_target, MoveEffect::Clear);
    let looped = issue(UnitOrder::Patrol {
        points: vec![ZERO, X],
        next: 3,
    });
    assert_eq!(looped.move_target, MoveEffect::Go(X));
}

#[test]
fn patrol_extension_is_capped() {
    let points: Vec<P> = (0..MAX_PATROL_POINTS).map(|i| (i as f32, 0.0, 0.0)).collect();
    let full = UnitOrder::Patrol { points, next: 2 };
    let intent = extend_patrol(full, (99.0, 0.0, 0.0));
    // Editing the live loop keeps locks and markers; a fresh loop drops them.
    assert!(!intent.clear_combat);
    assert!(intent.clear_queue);
    match intent.order {
        UnitOrder::Patrol { points, next } => {
            assert_eq!(points.len(), MAX_PATROL_POINTS);
            assert_eq!(next, 2);
        }
        other => panic!("unexpected {other:?}"),
    }
    let fresh = extend_patrol(UnitOrder::Move { destination: ZERO }, X);
    assert_eq!(
        fresh.order,
        UnitOrder::Patrol {
            points: vec![X],
            next: 0
        }
    );
    assert_eq!(fresh.move_target, MoveEffect::Go(X));
    assert!(fresh.clear_combat);
}

#[test]
fn queued_orders_pop_in_order() {
    let mut queue: Option<UnitOrderQueue<P>> = None;
    assert!(!is_busy(&UnitOrder::<P>::Idle, queue.as_ref()));
    enqueue_order(&mut queue, UnitOrder::Move { destination: X });
    enqueue_order(&mut queue, UnitOrder::HoldPosition);
    assert!(is_busy(&UnitOrder::<P>::Idle, queue.as_ref()));
    match complete_order(&mut queue) {
        Completion::Next(intent) => {
            assert_eq!(intent.order, UnitOrder::Move { destination: X });
            assert!(!intent.clear_queue);
        }
        Completion::Idle => panic!("queue had orders"),
    }
    match complete_order(&mut queue) {
        Completion::Next(intent) => assert_eq!(intent.order, UnitOrder::HoldPosition),
        Completion::Idle => panic!("queue had orders"),
    }
    assert!(matches!(complete_order(&mut queue), Completion::Idle));
}

#[test]
fn order_names_for_the_inspector() {
    assert_eq!(order_name(&UnitOrder::<P>::Idle), "Idle");
}

#[test]
fn order_lines_point_at_the_move_target_else_the_ward_or_site() {
    let guard = UnitOrder::<(i32, i32)>::Guard { target: 4 };
    assert_eq!(order_goal(&guard, Some((1, 1)), Some((2, 2)), None), Some((1, 1)));
    assert_eq!(order_goal(&guard, None, Some((2, 2)), Some((3, 3))), Some((2, 2)));
    let build = UnitOrder::<(i32, i32)>::Build { site: 5 };
    assert_eq!(order_goal(&build, None, Some((2, 2)), Some((3, 3))), Some((3, 3)));
    assert_eq!(order_goal(&UnitOrder::<(i32, i32)>::HoldPosition, None, Some((2, 2)), Some((3, 3))), None);
}

#[test]
fn order_visuals_follow_live_units_and_leave_flashes_alone() {
    let drawn = vec![
        Drawn { unit: 1, kind: VizKind::Line },
        Drawn { unit: 2, kind: VizKind::Marker },
        Drawn { unit: 2, kind: VizKind::Flash },
        Drawn { unit: 3, kind: VizKind::Line },
    ];
    let (fates, missing) = reconcile_visuals(&drawn, &vec![1, 4]);
    assert_eq!(fates, vec![VizFate::Keep, VizFate::Despawn, VizFate::Fade, VizFate::Despawn]);
    assert_eq!(
        missing,
        vec![
            Missing { unit: 1, line: false, marker: true },
            Missing { unit: 4, line: true, marker: true },
        ]
    );
}
