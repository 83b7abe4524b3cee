use rust_rts::economy::balance::{BuildingKind, MAX_QUEUE};
use rust_rts::production::{ExitStep, Factory, BLOCKED_RETRY_TICKS};
use rust_rts::units::archetype::UnitKind;

type F = Factory<(), u8>;

#[test]
fn tier_gate_blocks_t2_in_t1_factory() {
    let mut t1 = F::default();
    assert_eq!(t1.tier, 1);
    assert!(!t1.enqueue(UnitKind::HeavyTank2, ()));
    assert!(!t1.enqueue(UnitKind::Artillery2, ()));
    assert!(t1.enqueue(UnitKind::HeavyTank, ()));
    let mut t2 = F {
        tier: 2,
        ..Default::default()
    };
    assert!(t2.enqueue(UnitKind::HeavyTank2, ()));
    assert!(t2.enqueue(UnitKind::Artillery2, ()));
    assert!(!t2.enqueue(UnitKind::Commander, ()));
}

#[test]
fn queue_is_capped() {
    let mut f = F::default();
    for _ in 0..MAX_QUEUE {
        assert!(f.enqueue(UnitKind::Scout, ()));
    }
    assert!(!f.enqueue(UnitKind::Scout, ()));
    assert_eq!(f.queue.len(), MAX_QUEUE);
}

#[test]
fn cancel_removes_one_job_and_unblocks_front() {
    let mut f = F::default();
    f.enqueue(UnitKind::HeavyTank, ());
    f.enqueue(UnitKind::Scout, ());
    f.enqueue(UnitKind::HeavyTank, ());
    f.blocked = true;
    f.cancel(1);
    assert_eq!(f.queue.len(), 2);
    assert!(f.blocked);
    f.cancel(7);
    assert_eq!(f.queue.len(), 2);
    f.cancel(0);
    assert_eq!(f.queue.len(), 1);
    assert!(!f.blocked);
}

#[test]
fn blocked_exit_waits_then_probes() {
    let mut f = F::default();
    f.enqueue(UnitKind::HeavyTank, ());
    f.rally = Some(3);
    assert_eq!(f.exit_tick(true), ExitStep::Probe);
    assert!(f.probe_result(false).is_none());
    assert!(f.blocked);
    assert_eq!(f.retry_in, BLOCKED_RETRY_TICKS);
    assert_eq!(f.retry_rally, Some(3));
    for _ in 0..BLOCKED_RETRY_TICKS {
        assert_eq!(f.exit_tick(true), ExitStep::Wait);
    }
    assert_eq!(f.exit_tick(true), ExitStep::Probe);
    // A moved rally skips the cooldown.
    f.probe_result(false);
    assert_eq!(f.exit_tick(false), ExitStep::Probe);
    let job = f.probe_result(true).unwrap();
    assert_eq!(job.kind, UnitKind::HeavyTank);
    assert!(!f.blocked && f.queue.is_empty() && f.retry_rally.is_none());
}

#[test]
fn building_table_flags() {
    assert!(BuildingKind::Factory.is_factory());
    assert!(BuildingKind::LabT2.is_factory());
    assert_eq!(BuildingKind::LabT2.factory_tier(), 2);
    assert_eq!(BuildingKind::Factory.factory_tier(), 1);
    assert!(BuildingKind::Turret.is_defense());
    assert!(!BuildingKind::Turret.is_factory());
    assert!(BuildingKind::all().iter().enumerate().all(|(i, k)| k.index() == i));
    assert_eq!(BuildingKind::Wall.name(), "Wall");
}

#[test]
fn probe_needed_unless_cooling_down() {
    let mut f = F::default();
    assert!(!f.needs_probe(false, true));
    assert!(f.needs_probe(true, true));
    f.blocked = true;
    f.retry_in = 3;
    assert!(!f.needs_probe(true, true));
    assert!(f.needs_probe(true, false));
    f.retry_in = 0;
    assert!(f.needs_probe(true, true));
}
