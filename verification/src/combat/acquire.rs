//! Target locks: whether a held lock survives, when a unit scans for a new
//! one, and which enemy a scan picks.
//!
//! Distances are the engine's work. It reports whether a lock is inside its
//! leash or its holder's reach, whether a candidate lies inside the scan and
//! may be seen, and the bit pattern of each candidate's squared distance:
//! for the non-negative finite distances of the game those patterns order as
//! the distances do.
use crate::orders::UnitOrder;
use vstd::prelude::*;

verus! {

/// Scans are staggered over this many ticks: a unit scans on the ticks
/// where tick plus its id is a multiple of the stride.
pub const ACQUIRE_STRIDE: u64 = 5;

/// Leash measurements of a lock held while marching, guarding or building.
#[derive(Clone, Copy, Debug, PartialEq, Eq, Structural)]
pub struct Leash {
    /// The target is within the leash of the unit.
    pub target_near: bool,
    /// The guarded unit is known and the target is within the leash of it.
    pub ward_near: bool,
}

/// What the engine knows of a held lock.
#[derive(Clone, Copy, Debug, PartialEq, Eq, Structural)]
pub struct LockProbe {
    /// The target's position is known and the unit's team sees it.
    pub seen: bool,
    /// The unit's team, if it has one.
    pub own_team: Option<u8>,
    /// The target's team, when the target is known, alive and has one.
    pub target_team: Option<u8>,
    /// Leash measurements; `None` when the unit has no acquisition range.
    pub leash: Option<Leash>,
    /// Whether any of the unit's guns reaches the target, with the holding
    /// margin; `None` when the unit has no weapon.
    pub in_hold_reach: Option<bool>,
}

/// Fate of a held lock.
#[derive(Clone, Copy, Debug, PartialEq, Eq, Structural)]
pub enum LockCheck {
    Keep,
    Drop,
    /// Drop the lock and complete the explicit attack order that made it.
    DropAndComplete,
}

/// A lock stays valid while its target is a seen, live enemy that the
/// unit's order still justifies: marching orders within the leash (a guard
/// also within the leash of its ward), an explicit attack on its own
/// target, holders and idle units while a gun reaches.
pub open spec fn spec_lock_valid<P>(order: UnitOrder<P>, lock: u64, p: LockProbe) -> bool {
    &&& p.seen
    &&& p.own_team is Some
    &&& p.target_team is Some
    &&& p.own_team->0 != p.target_team->0
    &&& match order {
        UnitOrder::Attack { target } => lock == target,
        UnitOrder::HoldPosition | UnitOrder::Idle => p.in_hold_reach != Some(false),
        _ => match p.leash {
            None => true,
            Some(l) => l.target_near && (order is Guard ==> l.ward_near),
        },
    }
}

pub open spec fn spec_lock_check<P>(order: UnitOrder<P>, lock: u64, p: LockProbe) -> LockCheck {
    if spec_lock_valid(order, lock, p) {
        LockCheck::Keep
    } else if order is Attack {
        LockCheck::DropAndComplete
    } else {
        LockCheck::Drop
    }
}

/// Whether the lock on `lock` survives this pass. A failed lock of an
/// explicit attack completes the order instead of letting the unit roam.
pub fn check_lock<P>(order: &UnitOrder<P>, lock: u64, probe: LockProbe) -> (r: LockCheck)
    ensures
        r == spec_lock_check(*order, lock, probe),
{
    let valid = probe.seen && match (probe.own_team, probe.target_team) {
        (Some(own), Some(target_team)) => {
            own != target_team && match order {
                UnitOrder::Attack { target } => lock == *target,
                UnitOrder::HoldPosition | UnitOrder::Idle => match probe.in_hold_reach {
                    Some(reach) => reach,
                    None => true,
                },
                UnitOrder::Guard { .. } => match probe.leash {
                    Some(l) => l.target_near && l.ward_near,
                    None => true,
                },
                _ => match probe.leash {
                    Some(l) => l.target_near,
                    None => true,
                },
            }
        },
        _ => false,
    };
    if valid {
        LockCheck::Keep
    } else {
        match order {
            UnitOrder::Attack { .. } => LockCheck::DropAndComplete,
            _ => LockCheck::Drop,
        }
    }
}

/// What a unit does in this pass of the targeting service.
#[derive(Clone, Copy, Debug, PartialEq, Eq, Structural)]
pub enum Scan {
    /// Explicit attack: lock the ordered target if it is a seen, live
    /// enemy, else complete the order.
    Ordered(u64),
    /// Nothing this pass.
    Skip,
    /// Lock the nearest eligible enemy, if any.
    Acquire,
    /// Look for an enemy nearer than the current lock, which is excluded.
    Retarget,
}

/// The unit scans on this tick.
pub open spec fn scan_tick(tick: u64, id: u64) -> bool {
    (tick + id) % (ACQUIRE_STRIDE as int) == 0
}

pub open spec fn spec_scan_plan<P>(
    order: UnitOrder<P>,
    tick: u64,
    id: u64,
    locked: bool,
    ward_known: bool,
    lock_known: bool,
) -> Scan {
    match order {
        UnitOrder::Attack { target } => Scan::Ordered(target),
        _ => if !scan_tick(tick, id) || (order is Guard && !ward_known) {
            Scan::Skip
        } else if !locked {
            Scan::Acquire
        } else if order is Idle || !lock_known {
            Scan::Skip
        } else {
            Scan::Retarget
        },
    }
}

/// The targeting pass of one unit: an explicit attack checks its own
/// target; other orders scan on their staggered tick (a guard only while
/// its ward is known), for a first lock when they hold none, and, except
/// idle units, for a nearer enemy when their lock's position is known.
pub fn scan_plan<P>(
    order: &UnitOrder<P>,
    tick: u64,
    id: u64,
    locked: bool,
    ward_known: bool,
    lock_known: bool,
) -> (r: Scan)
    requires
        tick + id <= u64::MAX,
    ensures
        r == spec_scan_plan(*order, tick, id, locked, ward_known, lock_known),
{
    if let UnitOrder::Attack { target } = order {
        return Scan::Ordered(*target);
    }
    if (tick + id) % ACQUIRE_STRIDE != 0 {
        return Scan::Skip;
    }
    let guard = match order {
        UnitOrder::Guard { .. } => true,
        _ => false,
    };
    if guard && !ward_known {
        return Scan::Skip;
    }
    if !locked {
        return Scan::Acquire;
    }
    let idle = match order {
        UnitOrder::Idle => true,
        _ => false,
    };
    if idle || !lock_known {
        Scan::Skip
    } else {
        Scan::Retarget
    }
}

/// Whether an explicitly ordered target may be locked: it is known, alive,
/// an enemy of `own_team`, and seen by that team.
pub fn ordered_target_valid(own_team: u8, target_team: Option<u8>, alive: bool, seen: bool) -> (r:
    bool)
    ensures
        r == (target_team is Some && target_team->0 != own_team && alive && seen),
{
    match target_team {
        Some(t) => t != own_team && alive && seen,
        None => false,
    }
}

/// Locks never survive on what the unit's team cannot see, on a friendly
/// or dead target, or on an explicit attack's stale target.
pub proof fn locks_need_a_seen_live_enemy<P>(order: UnitOrder<P>, lock: u64, p: LockProbe)
    ensures
        spec_lock_check(order, lock, p) == LockCheck::Keep ==> {
            &&& p.seen
            &&& p.target_team is Some
            &&& p.own_team is Some
            &&& p.own_team->0 != p.target_team->0
            &&& (order matches UnitOrder::Attack { target } ==> lock == target)
        },
{
}

/// Only an explicit attack completes when its lock is lost; every other
/// order just drops the lock and carries on.
pub proof fn lost_attack_locks_complete_the_order<P>(order: UnitOrder<P>, lock: u64, p: LockProbe)
    ensures
        (spec_lock_check(order, lock, p) == LockCheck::DropAndComplete) <==> (order is Attack
            && !spec_lock_valid(order, lock, p)),
        spec_lock_check(order, lock, p) == LockCheck::Drop ==> !(order is Attack),
{
}

/// A guard keeps guarding while its ward is alive and on the guard's own
/// team; a dead, vanished or hostile ward ends the order and drops any
/// lock. `ward_alive` is false when the ward has no health any more.
pub fn ward_valid(own_team: Option<u8>, ward_team: Option<u8>, ward_alive: bool) -> (r: bool)
    ensures
        r == (ward_alive && own_team is Some && ward_team is Some && own_team->0 == ward_team->0),
{
    match (own_team, ward_team) {
        (Some(own), Some(ward)) => ward_alive && own == ward,
        _ => false,
    }
}

/// Every unit scans exactly once in any `ACQUIRE_STRIDE` consecutive ticks.
pub proof fn scans_once_per_stride(tick: u64, id: u64, k: int)
    requires
        0 <= k < ACQUIRE_STRIDE,
        tick + id + ACQUIRE_STRIDE <= u64::MAX,
        scan_tick((tick + k) as u64, id),
    ensures
        forall|j: int|
            0 <= j < ACQUIRE_STRIDE && j != k ==> !#[trigger] scan_tick((tick + j) as u64, id),
{
}

/// A scan candidate: an entity the spatial grid found near the unit.
#[derive(Clone, Copy, Debug, PartialEq, Eq, Structural)]
pub struct Candidate {
    pub id: u64,
    pub team: u8,
    pub alive: bool,
    /// Inside the scan radius and passing the scan's own filter (sight,
    /// the ward's radius, not the current lock).
    pub eligible: bool,
    /// Bit pattern of the squared distance to the unit.
    pub distance: u32,
}

/// A candidate the scan may lock: an eligible, live enemy other than the
/// ignored entity.
pub open spec fn qualifies(c: Candidate, team: u8, ignore: u64) -> bool {
    c.id != ignore && c.eligible && c.team != team && c.alive
}

/// (`id`, `distance`) is the nearest qualifying candidate, ties going to the
/// lower id.
pub open spec fn is_nearest(cands: Seq<Candidate>, team: u8, ignore: u64, pick: (u64, u32)) -> bool {
    &&& exists|i: int|
        0 <= i < cands.len() && qualifies(#[trigger] cands[i], team, ignore) && cands[i].id == pick.0
            && cands[i].distance == pick.1
    &&& forall|j: int|
        0 <= j < cands.len() && qualifies(#[trigger] cands[j], team, ignore) ==> pick.1
            < cands[j].distance || (pick.1 == cands[j].distance && pick.0 <= cands[j].id)
}

pub open spec fn spec_nearest_enemy(cands: Seq<Candidate>, team: u8, ignore: u64) -> Option<(u64, u32)> {
    if exists|pick: (u64, u32)| is_nearest(cands, team, ignore, pick) {
        Some(choose|pick: (u64, u32)| is_nearest(cands, team, ignore, pick))
    } else {
        None
    }
}

proof fn lemma_nearest_unique(cands: Seq<Candidate>, team: u8, ignore: u64, a: (u64, u32), b: (u64, u32))
    requires
        is_nearest(cands, team, ignore, a),
        is_nearest(cands, team, ignore, b),
    ensures
        a == b,
{
    let i = choose|i: int|
        0 <= i < cands.len() && qualifies(#[trigger] cands[i], team, ignore) && cands[i].id == a.0
            && cands[i].distance == a.1;
    let j = choose|j: int|
        0 <= j < cands.len() && qualifies(#[trigger] cands[j], team, ignore) && cands[j].id == b.0
            && cands[j].distance == b.1;
    assert(qualifies(cands[i], team, ignore) && qualifies(cands[j], team, ignore));
}

/// The nearest live, eligible enemy of `team` among `cands`, leaving out
/// `ignore`, with its distance pattern; equally near enemies go to the
/// lower id, so the pick does not depend on the order of `cands`.
pub fn nearest_enemy(cands: &Vec<Candidate>, team: u8, ignore: u64) -> (r: Option<(u64, u32)>)
    ensures
        r == spec_nearest_enemy(cands@, team, ignore),
        r is None <==> forall|i: int| 0 <= i < cands@.len() ==> !qualifies(#[trigger] cands@[i], team, ignore),
{
    let mut best: Option<(u64, u32)> = None;
    let mut i: usize = 0;
    while i < cands.len()
        invariant
            i <= cands@.len(),
            match best {
                None => forall|j: int| 0 <= j < i ==> !qualifies(#[trigger] cands@[j], team, ignore),
                Some(pick) => is_nearest(cands@.take(i as int), team, ignore, pick),
            },
        decreases cands@.len() - i,
    {
        let c = cands[i];
        let ghost prefix = cands@.take(i as int);
        let ghost next = cands@.take(i + 1);
        assert(next == prefix.push(c));
        if c.id != ignore && c.eligible && c.team != team && c.alive {
            let replace = match best {
                None => true,
                Some((best_id, best_distance)) => c.distance < best_distance || (c.distance
                    == best_distance && c.id < best_id),
            };
            if replace {
                proof {
                    assert(next[i as int] == c);
                    assert forall|j: int|
                        0 <= j < next.len() && qualifies(#[trigger] next[j], team, ignore) implies c.distance
                        < next[j].distance || (c.distance == next[j].distance && c.id <= next[j].id) by {
                        if j < i {
                            assert(next[j] == prefix[j]);
                            assert(cands@[j] == prefix[j]);
                        }
                    }
                }
                best = Some((c.id, c.distance));
            } else {
                proof {
                    let pick = best->0;
                    let w = choose|w: int|
                        0 <= w < prefix.len() && qualifies(#[trigger] prefix[w], team, ignore)
                            && prefix[w].id == pick.0 && prefix[w].distance == pick.1;
                    assert(next[w] == prefix[w]);
                    assert forall|j: int|
                        0 <= j < next.len() && qualifies(#[trigger] next[j], team, ignore) implies pick.1
                        < next[j].distance || (pick.1 == next[j].distance && pick.0 <= next[j].id) by {
                        if j < i {
                            assert(next[j] == prefix[j]);
                        }
                    }
                }
            }
        } else {
            proof {
                match best {
                    None => {
                        assert forall|j: int|
                            0 <= j < i + 1 implies !qualifies(#[trigger] cands@[j], team, ignore) by {
                            if j < i {
                            }
                        }
                    },
                    Some(pick) => {
                        let w = choose|w: int|
                            0 <= w < prefix.len() && qualifies(#[trigger] prefix[w], team, ignore)
                                && prefix[w].id == pick.0 && prefix[w].distance == pick.1;
                        assert(next[w] == prefix[w]);
                        assert forall|j: int|
                            0 <= j < next.len() && qualifies(#[trigger] next[j], team, ignore) implies pick.1
                            < next[j].distance || (pick.1 == next[j].distance && pick.0 <= next[j].id) by {
                            if j < i {
                                assert(next[j] == prefix[j]);
                            }
                        }
                    },
                }
            }
        }
        i = i + 1;
    }
    proof {
        assert(cands@.take(cands@.len() as int) == cands@);
        match best {
            Some(pick) => {
                let other = choose|p: (u64, u32)| is_nearest(cands@, team, ignore, p);
                lemma_nearest_unique(cands@, team, ignore, pick, other);
                let w = choose|w: int|
                    0 <= w < cands@.len() && qualifies(#[trigger] cands@[w], team, ignore)
                        && cands@[w].id == pick.0 && cands@[w].distance == pick.1;
            },
            None => {
                if exists|p: (u64, u32)| is_nearest(cands@, team, ignore, p) {
                    let p = choose|p: (u64, u32)| is_nearest(cands@, team, ignore, p);
                    let w = choose|w: int|
                        0 <= w < cands@.len() && qualifies(#[trigger] cands@[w], team, ignore)
                            && cands@[w].id == p.0 && cands@[w].distance == p.1;
                }
            },
        }
    }
    best
}

/// A scan's pick depends only on which candidates it saw, not on the order
/// the spatial grid listed them in.
pub proof fn nearest_pick_ignores_listing_order(a: Seq<Candidate>, b: Seq<Candidate>, team: u8, ignore: u64)
    requires
        a.to_set() == b.to_set(),
    ensures
        spec_nearest_enemy(a, team, ignore) == spec_nearest_enemy(b, team, ignore),
{
    assert forall|pick: (u64, u32)| is_nearest(a, team, ignore, pick) implies is_nearest(b, team, ignore, pick) by {
        lemma_nearest_transfers(a, b, team, ignore, pick);
    }
    assert forall|pick: (u64, u32)| is_nearest(b, team, ignore, pick) implies is_nearest(a, team, ignore, pick) by {
        lemma_nearest_transfers(b, a, team, ignore, pick);
    }
    if exists|p: (u64, u32)| is_nearest(a, team, ignore, p) {
        let pa = choose|p: (u64, u32)| is_nearest(a, team, ignore, p);
        let pb = choose|p: (u64, u32)| is_nearest(b, team, ignore, p);
        lemma_nearest_unique(a, team, ignore, pa, pb);
    }
}

proof fn lemma_nearest_transfers(a: Seq<Candidate>, b: Seq<Candidate>, team: u8, ignore: u64, pick: (u64, u32))
    requires
        a.to_set() == b.to_set(),
        is_nearest(a, team, ignore, pick),
    ensures
        is_nearest(b, team, ignore, pick),
{
    let i = choose|i: int|
        0 <= i < a.len() && qualifies(#[trigger] a[i], team, ignore) && a[i].id == pick.0
            && a[i].distance == pick.1;
    assert(a.to_set().contains(a[i]));
    assert(b.contains(a[i]));
    let k = choose|k: int| 0 <= k < b.len() && b[k] == a[i];
    assert(qualifies(b[k], team, ignore));
    assert forall|j: int|
        0 <= j < b.len() && qualifies(#[trigger] b[j], team, ignore) implies pick.1 < b[j].distance || (
        pick.1 == b[j].distance && pick.0 <= b[j].id) by {
        assert(b.to_set().contains(b[j]));
        assert(a.contains(b[j]));
        let m = choose|m: int| 0 <= m < a.len() && a[m] == b[j];
        assert(qualifies(a[m], team, ignore));
    }
}

/// An explicit attack checks its own target on every pass, whatever the
/// tick or lock.
pub proof fn explicit_attacks_check_their_target<P>(
    target: u64,
    tick: u64,
    id: u64,
    locked: bool,
    ward_known: bool,
    lock_known: bool,
)
    ensures
        spec_scan_plan(UnitOrder::<P>::Attack { target }, tick, id, locked, ward_known, lock_known) == Scan::Ordered(target),
{
}

/// Off its staggered tick a unit that is not attacking does nothing, and a
/// guard whose ward is unknown does nothing on any tick.
pub proof fn scans_wait_for_their_tick_and_ward<P>(
    order: UnitOrder<P>,
    tick: u64,
    id: u64,
    locked: bool,
    ward_known: bool,
    lock_known: bool,
)
    requires
        !(order is Attack),
        (tick + id) % (ACQUIRE_STRIDE as int) != 0 || (order is Guard && !ward_known),
    ensures
        spec_scan_plan(order, tick, id, locked, ward_known, lock_known) == Scan::Skip,
{
}

/// On its tick a unit that is not attacking and holds no lock looks for a
/// first enemy (a guard only once its ward is known).
pub proof fn unlocked_units_acquire_on_their_tick<P>(
    order: UnitOrder<P>,
    tick: u64,
    id: u64,
    ward_known: bool,
    lock_known: bool,
)
    requires
        !(order is Attack),
        (tick + id) % (ACQUIRE_STRIDE as int) == 0,
        order is Guard ==> ward_known,
    ensures
        spec_scan_plan(order, tick, id, false, ward_known, lock_known) == Scan::Acquire,
{
}

/// On its tick every locked unit whose order acquires on its own, idle
/// units aside, looks for an enemy nearer than its lock once the lock's
/// position is known: guards (with a known ward), marchers, patrols,
/// holders and builders alike.
pub proof fn locked_units_retarget_on_their_tick<P>(
    order: UnitOrder<P>,
    tick: u64,
    id: u64,
    ward_known: bool,
)
    requires
        !(order is Attack),
        !(order is Idle),
        (tick + id) % (ACQUIRE_STRIDE as int) == 0,
        order is Guard ==> ward_known,
    ensures
        spec_scan_plan(order, tick, id, true, ward_known, true) == Scan::Retarget,
{
}

/// A locked idle unit never retargets, and no locked unit retargets while
/// its lock's position is unknown.
pub proof fn idle_or_unplaced_locks_are_kept<P>(
    order: UnitOrder<P>,
    tick: u64,
    id: u64,
    ward_known: bool,
    lock_known: bool,
)
    requires
        !(order is Attack),
        order is Idle || !lock_known,
    ensures
        spec_scan_plan(order, tick, id, true, ward_known, lock_known) == Scan::Skip,
{
}

} // verus!
