//! Unit orders: one live intent per unit plus a queue behind it.
//!
//! Positions (`P`) are carried through untouched; entities are identified by
//! their 64-bit ids. Every issuing rule returns an [`Intent`]: the live order
//! to install, what happens to the unit's move target, and which transient
//! state is dropped.
pub mod click;
pub mod lines;

use vstd::prelude::*;

verus! {

/// Cap on waypoints per patrol loop.
pub const MAX_PATROL_POINTS: usize = 16;

/// Order armed by a key and waiting for a ground point to be picked.
#[derive(Clone, Copy, Debug, PartialEq, Eq, Structural)]
pub enum PendingOrder {
    Unarmed,
    AttackMove,
    Patrol,
    Guard,
}

impl Default for PendingOrder {
    fn default() -> (r: Self)
        ensures
            r == PendingOrder::Unarmed,
    {
        PendingOrder::Unarmed
    }
}

/// Current unit intent. A single enum rules out contradictory flag sets.
#[derive(Debug, PartialEq)]
pub enum UnitOrder<P> {
    Idle,
    Move { destination: P },
    Attack { target: u64 },
    AttackMove { destination: P },
    HoldPosition,
    Patrol { points: Vec<P>, next: usize },
    Guard { target: u64 },
    /// March to a construction site's edge and work on it.
    Build { site: u64 },
}

/// What happens to the unit's move target when an intent is applied.
#[derive(Debug, PartialEq)]
pub enum MoveEffect<P> {
    /// Head for this point.
    Go(P),
    /// Drop any move target.
    Clear,
    /// Leave the move target as it is.
    Keep,
}

/// Full state change of issuing or popping an order.
#[derive(Debug)]
pub struct Intent<P> {
    pub order: UnitOrder<P>,
    pub move_target: MoveEffect<P>,
    /// Drop the planned route, the temporary attack target and the chase /
    /// hold-fire locomotion markers.
    pub clear_combat: bool,
    /// Drop the queued orders.
    pub clear_queue: bool,
}

/// Per-unit order queue; the live order is not part of it.
#[derive(Debug)]
pub struct UnitOrderQueue<P>(pub Vec<UnitOrder<P>>);

impl<P> Default for UnitOrderQueue<P> {
    fn default() -> (r: Self)
        ensures
            r.0@.len() == 0,
    {
        UnitOrderQueue(Vec::new())
    }
}

pub open spec fn spec_allows_auto_targeting<P>(o: UnitOrder<P>) -> bool {
    !(o is Attack)
}

pub open spec fn spec_allows_chase<P>(o: UnitOrder<P>) -> bool {
    o is Attack || o is AttackMove || o is Patrol || o is Guard
}

/// Which orders may acquire enemies on their own: every order but an
/// explicit attack, which keeps its chosen target.
pub fn allows_auto_targeting<P>(order: &UnitOrder<P>) -> (r: bool)
    ensures
        r == spec_allows_auto_targeting(*order),
{
    match order {
        UnitOrder::Attack { .. } => false,
        _ => true,
    }
}

/// Only orders that close distance may steer toward their target: attack,
/// attack-move, patrol and guard. Holders, builders, movers and idle units
/// fire from where they are.
pub fn allows_chase<P>(order: &UnitOrder<P>) -> (r: bool)
    ensures
        r == spec_allows_chase(*order),
{
    match order {
        UnitOrder::Attack { .. } | UnitOrder::AttackMove { .. } | UnitOrder::Patrol { .. }
        | UnitOrder::Guard { .. } => true,
        _ => false,
    }
}

/// The live intent a popped or freshly issued order establishes.
pub open spec fn spec_apply<P>(o: UnitOrder<P>) -> (UnitOrder<P>, MoveEffect<P>) {
    match o {
        UnitOrder::Move { destination } => (o, MoveEffect::Go(destination)),
        UnitOrder::AttackMove { destination } => (o, MoveEffect::Go(destination)),
        UnitOrder::Patrol { points, next } => if points@.len() > 0 {
            (o, MoveEffect::Go(points@[(next as int % points@.len() as int) as int]))
        } else {
            (UnitOrder::Idle, MoveEffect::Clear)
        },
        _ => (o, MoveEffect::Clear),
    }
}

/// Full state setup of an order, shared by fresh issues and queue pops:
/// the order becomes live, its destination (if any) becomes the move
/// target, and route, locks and locomotion markers are dropped. A patrol
/// heads for its current leg; an empty patrol stops the unit.
pub fn apply_order<P: Copy>(order: UnitOrder<P>) -> (r: Intent<P>)
    ensures
        (r.order, r.move_target) == spec_apply(order),
        r.clear_combat,
        !r.clear_queue,
{
    match order {
        UnitOrder::Move { destination } => Intent {
            order: UnitOrder::Move { destination },
            move_target: MoveEffect::Go(destination),
            clear_combat: true,
            clear_queue: false,
        },
        UnitOrder::AttackMove { destination } => Intent {
            order: UnitOrder::AttackMove { destination },
            move_target: MoveEffect::Go(destination),
            clear_combat: true,
            clear_queue: false,
        },
        UnitOrder::Patrol { points, next } => {
            if points.len() > 0 {
                let leg = points[next % points.len()];
                Intent {
                    order: UnitOrder::Patrol { points, next },
                    move_target: MoveEffect::Go(leg),
                    clear_combat: true,
                    clear_queue: false,
                }
            } else {
                Intent {
                    order: UnitOrder::Idle,
                    move_target: MoveEffect::Clear,
                    clear_combat: true,
                    clear_queue: false,
                }
            }
        },
        other => Intent { order: other, move_target: MoveEffect::Clear, clear_combat: true, clear_queue: false },
    }
}

/// Issues `order` as the unit's new intent, replacing the live order and
/// dropping the queue (a plain, non-additive issue).
pub fn issue<P: Copy>(order: UnitOrder<P>) -> (r: Intent<P>)
    ensures
        (r.order, r.move_target) == spec_apply(order),
        r.clear_combat,
        r.clear_queue,
{
    let mut intent = apply_order(order);
    intent.clear_queue = true;
    intent
}

/// Attack a target until it dies (or can no longer be seen).
pub fn queue_attack<P: Copy>(target: u64) -> (r: Intent<P>)
    ensures
        r.order == (UnitOrder::<P>::Attack { target }),
        r.move_target is Clear,
        r.clear_combat,
        r.clear_queue,
{
    issue(UnitOrder::Attack { target })
}

/// Attack-move: the destination lives in the order, so temporary
/// engagements never lose it.
pub fn queue_attack_move<P: Copy>(destination: P) -> (r: Intent<P>)
    ensures
        r.order == (UnitOrder::AttackMove { destination }),
        r.move_target == MoveEffect::Go(destination),
        r.clear_combat,
        r.clear_queue,
{
    issue(UnitOrder::AttackMove { destination })
}

/// Plain move; the unit fires on the march but never chases.
pub fn queue_move<P: Copy>(destination: P) -> (r: Intent<P>)
    ensures
        r.order == (UnitOrder::Move { destination }),
        r.move_target == MoveEffect::Go(destination),
        r.clear_combat,
        r.clear_queue,
{
    issue(UnitOrder::Move { destination })
}

/// Guard a friendly unit; the follow target is refreshed from the ward.
pub fn queue_guard<P: Copy>(target: u64) -> (r: Intent<P>)
    ensures
        r.order == (UnitOrder::<P>::Guard { target }),
        r.move_target is Clear,
        r.clear_combat,
        r.clear_queue,
{
    issue(UnitOrder::Guard { target })
}

/// Build a construction site; any later order pauses the site.
pub fn queue_build<P: Copy>(site: u64) -> (r: Intent<P>)
    ensures
        r.order == (UnitOrder::<P>::Build { site }),
        r.move_target is Clear,
        r.clear_combat,
        r.clear_queue,
{
    issue(UnitOrder::Build { site })
}

/// Hold in place: fire from here, never take a route.
pub fn queue_hold<P: Copy>() -> (r: Intent<P>)
    ensures
        r.order == UnitOrder::<P>::HoldPosition,
        r.move_target is Clear,
        r.clear_combat,
        r.clear_queue,
{
    issue(UnitOrder::HoldPosition)
}

/// Stop: clear intent and any temporary combat state.
pub fn queue_stop<P: Copy>() -> (r: Intent<P>)
    ensures
        r.order == UnitOrder::<P>::Idle,
        r.move_target is Clear,
        r.clear_combat,
        r.clear_queue,
{
    issue(UnitOrder::Idle)
}

/// Fresh patrol loop through `points`, heading for the first leg; an empty
/// list stops the unit.
pub fn queue_patrol<P: Copy>(points: Vec<P>) -> (r: Intent<P>)
    ensures
        points@.len() > 0 ==> r.order == (UnitOrder::Patrol { points, next: 0 }) && r.move_target
            == MoveEffect::Go(points@[0]),
        points@.len() == 0 ==> r.order == UnitOrder::<P>::Idle && r.move_target is Clear,
        r.clear_combat,
        r.clear_queue,
{
    proof {
        if points@.len() > 0 {
            assert((0int) % (points@.len() as int) == 0) by (nonlinear_arith)
                requires points@.len() > 0;
        }
    }
    issue(UnitOrder::Patrol { points, next: 0 })
}

/// Adds `point` to the live patrol (up to [`MAX_PATROL_POINTS`]) and keeps
/// heading for the current leg, leaving locks and locomotion markers alone;
/// any other live order is replaced by a fresh patrol through `point`,
/// which drops them. Either way the queue is dropped.
pub fn extend_patrol<P: Copy>(live: UnitOrder<P>, point: P) -> (r: Intent<P>)
    ensures
        match live {
            UnitOrder::Patrol { points, next } => {
                let extended = if points@.len() < MAX_PATROL_POINTS {
                    points@.push(point)
                } else {
                    points@
                };
                &&& r.order matches UnitOrder::Patrol { points: p2, next: n2 }
                &&& p2@ == extended
                &&& n2 == next
                &&& r.move_target == MoveEffect::Go(extended[next as int % extended.len() as int])
                &&& !r.clear_combat
            },
            _ => {
                &&& r.order matches UnitOrder::Patrol { points: p2, next: n2 }
                &&& p2@ == seq![point]
                &&& n2 == 0
                &&& r.move_target == MoveEffect::Go(point)
                &&& r.clear_combat
            },
        },
        r.clear_queue,
{
    match live {
        UnitOrder::Patrol { points, next } => {
            let mut points = points;
            if points.len() < MAX_PATROL_POINTS {
                points.push(point);
            }
            let leg = points[next % points.len()];
            Intent {
                order: UnitOrder::Patrol { points, next },
                move_target: MoveEffect::Go(leg),
                clear_combat: false,
                clear_queue: true,
            }
        },
        _ => {
            let mut points = Vec::new();
            points.push(point);
            let r = queue_patrol(points);
            r
        },
    }
}

/// Busy means a live order other than idle, or a non-empty queue.
pub fn is_busy<P>(order: &UnitOrder<P>, queue: Option<&UnitOrderQueue<P>>) -> (r: bool)
    ensures
        r == (!(*order is Idle) || (queue matches Some(q) && q.0@.len() > 0)),
{
    let idle = match order {
        UnitOrder::Idle => true,
        _ => false,
    };
    !idle || match queue {
        Some(q) => q.0.len() > 0,
        None => false,
    }
}

/// Appends `order` behind the live one, creating the queue on demand.
pub fn enqueue_order<P>(queue: &mut Option<UnitOrderQueue<P>>, order: UnitOrder<P>)
    ensures
        match *old(queue) {
            Some(q) => (*final(queue)) matches Some(q2) && q2.0@ == q.0@.push(order),
            None => (*final(queue)) matches Some(q2) && q2.0@ == seq![order],
        },
{
    match queue {
        Some(q) => {
            q.0.push(order);
        },
        None => {
            let mut v = Vec::new();
            v.push(order);
            *queue = Some(UnitOrderQueue(v));
        },
    }
}

/// What completing the live order does.
#[derive(Debug)]
pub enum Completion<P> {
    /// Apply the next queued order as a fresh intent.
    Next(Intent<P>),
    /// Nothing queued: become idle, keeping any lock so the unit defends itself.
    Idle,
}

/// Pops the next queued order on completion; idle when nothing is queued.
pub fn complete_order<P: Copy>(queue: &mut Option<UnitOrderQueue<P>>) -> (r: Completion<P>)
    ensures
        match *old(queue) {
            Some(q) => if q.0@.len() > 0 {
                &&& (*final(queue)) matches Some(q2) && q2.0@ == q.0@.drop_first()
                &&& r matches Completion::Next(intent) && (intent.order, intent.move_target)
                    == spec_apply(q.0@[0]) && intent.clear_combat && !intent.clear_queue
            } else {
                *final(queue) == *old(queue) && r is Idle
            },
            None => (*final(queue)) is None && r is Idle,
        },
{
    match queue {
        Some(q) => {
            if q.0.len() > 0 {
                let next = q.0.remove(0);
                Completion::Next(apply_order(next))
            } else {
                Completion::Idle
            }
        },
        None => Completion::Idle,
    }
}

/// The queue is first in, first out: enqueuing `order` and then completing
/// orders as many times as there were queued before it brings `order` to
/// the front.
pub proof fn queue_is_fifo<P>(queued: Seq<UnitOrder<P>>, order: UnitOrder<P>)
    ensures
        queued.push(order).skip(queued.len() as int) == seq![order],
        queued.push(order).drop_first().len() == queued.len(),
{
    assert(queued.push(order).skip(queued.len() as int) =~= seq![order]);
}

/// A marching unit acquires targets but never chases them.
pub proof fn move_fires_but_never_chases<P>(destination: P)
    ensures
        spec_allows_auto_targeting(UnitOrder::Move { destination }),
        !spec_allows_chase(UnitOrder::Move { destination }),
{
}

/// Extending a patrol never takes it past the waypoint cap.
pub proof fn patrol_stays_capped<P>(points: Seq<P>, point: P)
    requires
        points.len() <= MAX_PATROL_POINTS,
    ensures
        (if points.len() < MAX_PATROL_POINTS { points.push(point) } else { points }).len()
            <= MAX_PATROL_POINTS,
{
}

/// A patrol always heads for one of its own waypoints.
pub proof fn patrol_leg_is_a_waypoint<P>(points: Seq<P>, next: usize)
    requires
        points.len() > 0,
    ensures
        0 <= (next as int) % (points.len() as int) < points.len(),
{
}

} // verus!
