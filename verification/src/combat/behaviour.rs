//! Per-unit behaviour resolution: how an order, a possible enemy lock and
//! the unit's locomotion state turn into marker, move-target, route and
//! order changes each frame.
//!
//! The engine measures distances: it asks [`behaviour_focus`] what to
//! measure the unit against, takes the measurements into a [`Probe`], and
//! applies the [`Reaction`] that [`resolve`] returns.
use crate::orders::{spec_allows_chase, MoveEffect, UnitOrder};
use vstd::prelude::*;

verus! {

/// Locomotion state of a unit at the start of the pass.
#[derive(Clone, Copy, Debug, PartialEq, Eq, Structural)]
pub struct Locomotion {
    pub has_move_target: bool,
    pub has_route: bool,
    /// Chasing marker: steering toward the locked target.
    pub chasing: bool,
    /// Hold-fire marker: stopped inside weapon range to shoot.
    pub holding: bool,
}

/// What a unit is measured against this pass.
#[derive(Debug, PartialEq)]
pub enum Focus<P> {
    /// Nothing to measure.
    Nothing,
    /// The order's destination or the patrol's current leg.
    Point(P),
    /// The guarded unit.
    Ward(u64),
    /// The construction site.
    Site(u64),
    /// The locked enemy.
    Lock,
}

/// The patrol leg a loop heads for.
pub open spec fn leg_of<P>(points: Seq<P>, next: usize) -> P {
    points[(next as int) % (points.len() as int)]
}

pub open spec fn spec_focus<P>(order: UnitOrder<P>, locked: bool) -> Focus<P> {
    if locked {
        if spec_allows_chase(order) {
            Focus::Lock
        } else {
            Focus::Nothing
        }
    } else {
        match order {
            UnitOrder::Move { destination } => Focus::Point(destination),
            UnitOrder::AttackMove { destination } => Focus::Point(destination),
            UnitOrder::Patrol { points, next } => if points@.len() > 0 {
                Focus::Point(leg_of(points@, next))
            } else {
                Focus::Nothing
            },
            UnitOrder::Guard { target } => Focus::Ward(target),
            UnitOrder::Build { site } => Focus::Site(site),
            _ => Focus::Nothing,
        }
    }
}

/// What the engine must measure the unit against.
pub fn behaviour_focus<P: Copy>(order: &UnitOrder<P>, locked: bool) -> (r: Focus<P>)
    ensures
        r == spec_focus(*order, locked),
{
    if locked {
        match order {
            UnitOrder::Attack { .. } | UnitOrder::AttackMove { .. } | UnitOrder::Patrol { .. }
            | UnitOrder::Guard { .. } => Focus::Lock,
            _ => Focus::Nothing,
        }
    } else {
        match order {
            UnitOrder::Move { destination } => Focus::Point(*destination),
            UnitOrder::AttackMove { destination } => Focus::Point(*destination),
            UnitOrder::Patrol { points, next } => {
                if points.len() > 0 {
                    Focus::Point(points[*next % points.len()])
                } else {
                    Focus::Nothing
                }
            },
            UnitOrder::Guard { target } => Focus::Ward(*target),
            UnitOrder::Build { site } => Focus::Site(*site),
            _ => Focus::Nothing,
        }
    }
}

/// Where a locked chase keeps its move target.
#[derive(Clone, Copy, Debug, PartialEq, Eq, Structural)]
pub enum Anchor {
    /// The target's position, repaired into ground the unit's hull fits.
    RepairedTarget,
    /// The target's position.
    Target,
    /// The guarded unit's position.
    Ward(u64),
    /// No anchor: the move target is left alone.
    Keep,
}

pub open spec fn spec_anchor<P>(order: UnitOrder<P>, gameplay: bool, in_range: bool) -> Anchor {
    if gameplay && !in_range {
        Anchor::RepairedTarget
    } else {
        match order {
            UnitOrder::Attack { .. } => Anchor::Target,
            UnitOrder::Guard { target } => Anchor::Ward(target),
            _ => Anchor::Keep,
        }
    }
}

/// Chase anchor of a locked unit. Out of range in a live match the chase
/// heads for the target's position (repaired for the hull); otherwise an
/// explicit attack keeps tracking its target and a guard stays pointed at
/// its ward, so the follow resumes when the fight ends.
pub fn chase_anchor<P>(order: &UnitOrder<P>, gameplay: bool, in_range: bool) -> (r: Anchor)
    ensures
        r == spec_anchor(*order, gameplay, in_range),
{
    if gameplay && !in_range {
        Anchor::RepairedTarget
    } else {
        match order {
            UnitOrder::Attack { .. } => Anchor::Target,
            UnitOrder::Guard { target } => Anchor::Ward(*target),
            _ => Anchor::Keep,
        }
    }
}

/// Measurements of a unit against its focus.
pub struct Probe<P> {
    /// Point focus: the unit is within the arrival radius of the point.
    pub arrived: bool,
    /// The unit has a move target and it already points at the focus:
    /// exactly for a point, within the replan distance for a ward, a site
    /// approach or a chase anchor.
    pub target_current: bool,
    /// Ward focus: `None` when the ward is not indexed, else whether the
    /// unit is within the guard radius, and the ward's position.
    pub ward: Option<(bool, P)>,
    /// Site focus: `None` when the site is gone or finished, else whether
    /// the unit is within its build radius, and the stand-off point to
    /// march to.
    pub site: Option<(bool, P)>,
    /// Lock focus: the target is within weapon range.
    pub in_weapon_range: bool,
    /// Lock focus: the chase anchor's position, if it has one.
    pub anchor: Option<P>,
}

/// Changes to apply to the unit.
#[derive(Debug)]
pub struct Reaction<P> {
    /// Remove both the chasing and the hold-fire markers.
    pub drop_markers: bool,
    /// Set (`Some(true)`) or remove (`Some(false)`) the chasing marker.
    pub chasing: Option<bool>,
    /// Set or remove the hold-fire marker.
    pub holding: Option<bool>,
    /// The live order is done: pop the next queued one.
    pub complete: bool,
    /// Replace the live order.
    pub order: Option<UnitOrder<P>>,
    /// What happens to the move target.
    pub move_target: MoveEffect<P>,
    /// Drop the planned route.
    pub drop_route: bool,
}

/// Markers are stale and dropped when the lock is gone, and for orders
/// that never chase.
pub open spec fn spec_drop_markers<P>(order: UnitOrder<P>, locked: bool, loco: Locomotion) -> bool {
    (loco.chasing || loco.holding) && (!locked || !spec_allows_chase(order))
}

/// Head for `p`, or leave the move target alone when it is current.
pub open spec fn refresh<P>(target_current: bool, p: P) -> (MoveEffect<P>, bool) {
    if target_current {
        (MoveEffect::Keep, false)
    } else {
        (MoveEffect::Go(p), true)
    }
}

/// Stop where the unit stands: drop any move target and route.
pub open spec fn halt<P>(loco: Locomotion) -> (MoveEffect<P>, bool) {
    if loco.has_move_target || loco.has_route {
        (MoveEffect::Clear, true)
    } else {
        (MoveEffect::Keep, false)
    }
}

pub open spec fn reaction<P>(
    drop_markers: bool,
    chasing: Option<bool>,
    holding: Option<bool>,
    complete: bool,
    order: Option<UnitOrder<P>>,
    movement: (MoveEffect<P>, bool),
) -> Reaction<P> {
    Reaction { drop_markers, chasing, holding, complete, order, move_target: movement.0, drop_route: movement.1 }
}

/// The full behaviour rule.
pub open spec fn spec_resolve<P>(order: UnitOrder<P>, locked: bool, loco: Locomotion, probe: Probe<P>) -> Reaction<P> {
    let drop = spec_drop_markers(order, locked, loco);
    let idle = !loco.has_move_target && !loco.has_route;
    if locked {
        if spec_allows_chase(order) {
            let chasing = if probe.in_weapon_range {
                if loco.chasing { Some(false) } else { None }
            } else {
                if loco.chasing { None } else { Some(true) }
            };
            let holding = if probe.in_weapon_range {
                if loco.holding { None } else { Some(true) }
            } else {
                if loco.holding { Some(false) } else { None }
            };
            let movement = match probe.anchor {
                Some(a) => refresh(probe.target_current, a),
                None => (MoveEffect::Keep, false),
            };
            reaction(drop, chasing, holding, false, None, movement)
        } else {
            reaction(drop, None, None, false, None, (MoveEffect::Keep, false))
        }
    } else {
        match order {
            UnitOrder::Idle => reaction(drop, None, None, false, None, (MoveEffect::Keep, false)),
            UnitOrder::Move { destination } => if idle {
                if probe.arrived {
                    reaction(drop, None, None, true, None, (MoveEffect::Keep, false))
                } else {
                    reaction(drop, None, None, false, None, (MoveEffect::Go(destination), false))
                }
            } else {
                reaction(drop, None, None, false, None, refresh(probe.target_current, destination))
            },
            UnitOrder::AttackMove { destination } => if idle {
                reaction(drop, None, None, true, None, (MoveEffect::Keep, false))
            } else {
                reaction(drop, None, None, false, None, refresh(probe.target_current, destination))
            },
            UnitOrder::Patrol { points, next } => if points@.len() == 0 {
                reaction(drop, None, None, false, Some(UnitOrder::Idle), (MoveEffect::Keep, false))
            } else if idle {
                if probe.arrived {
                    let advanced = ((next as int + 1) % (points@.len() as int)) as usize;
                    reaction(
                        drop,
                        None,
                        None,
                        false,
                        Some(UnitOrder::Patrol { points, next: advanced }),
                        (MoveEffect::Go(points@[advanced as int]), true),
                    )
                } else {
                    reaction(drop, None, None, false, None, (MoveEffect::Go(leg_of(points@, next)), false))
                }
            } else {
                reaction(drop, None, None, false, None, refresh(probe.target_current, leg_of(points@, next)))
            },
            UnitOrder::Guard { .. } => match probe.ward {
                None => reaction(drop, None, None, false, None, (MoveEffect::Keep, false)),
                Some((near, at)) => if near {
                    reaction(drop, None, None, false, None, halt(loco))
                } else {
                    reaction(drop, None, None, false, None, refresh(probe.target_current, at))
                },
            },
            UnitOrder::Build { .. } => match probe.site {
                None => reaction(drop, None, None, true, None, (MoveEffect::Keep, false)),
                Some((in_range, approach)) => if in_range {
                    reaction(drop, None, None, false, None, halt(loco))
                } else {
                    reaction(drop, None, None, false, None, refresh(probe.target_current, approach))
                },
            },
            UnitOrder::HoldPosition => reaction(drop, None, None, false, None, halt(loco)),
            UnitOrder::Attack { .. } => reaction(drop, None, None, true, None, (MoveEffect::Keep, false)),
        }
    }
}

fn refreshed<P>(target_current: bool, p: P) -> (r: (MoveEffect<P>, bool))
    ensures
        r == refresh(target_current, p),
{
    if target_current {
        (MoveEffect::Keep, false)
    } else {
        (MoveEffect::Go(p), true)
    }
}

fn halted<P>(loco: Locomotion) -> (r: (MoveEffect<P>, bool))
    ensures
        r == halt::<P>(loco),
{
    if loco.has_move_target || loco.has_route {
        (MoveEffect::Clear, true)
    } else {
        (MoveEffect::Keep, false)
    }
}

fn react<P>(
    drop_markers: bool,
    chasing: Option<bool>,
    holding: Option<bool>,
    complete: bool,
    order: Option<UnitOrder<P>>,
    movement: (MoveEffect<P>, bool),
) -> (r: Reaction<P>)
    ensures
        r == reaction(drop_markers, chasing, holding, complete, order, movement),
{
    let (move_target, drop_route) = movement;
    Reaction { drop_markers, chasing, holding, complete, order, move_target, drop_route }
}

/// One behaviour step of a unit (see [`spec_resolve`]): stale markers go
/// when the lock is gone; a locked chase order holds and fires inside
/// weapon range and chases outside it, never both; a march completes on
/// arrival; a patrol advances its loop and never completes; a guard follows
/// its ward; a builder walks into range of its site and completes when the
/// site is done.
pub fn resolve<P: Copy>(order: UnitOrder<P>, locked: bool, loco: Locomotion, probe: Probe<P>) -> (r: Reaction<P>)
    ensures
        r == spec_resolve(order, locked, loco, probe),
{
    let chase_order = match &order {
        UnitOrder::Attack { .. } | UnitOrder::AttackMove { .. } | UnitOrder::Patrol { .. }
        | UnitOrder::Guard { .. } => true,
        _ => false,
    };
    let drop = (loco.chasing || loco.holding) && (!locked || !chase_order);
    let idle = !loco.has_move_target && !loco.has_route;
    if locked {
        if chase_order {
            let chasing = if probe.in_weapon_range {
                if loco.chasing { Some(false) } else { None }
            } else {
                if loco.chasing { None } else { Some(true) }
            };
            let holding = if probe.in_weapon_range {
                if loco.holding { None } else { Some(true) }
            } else {
                if loco.holding { Some(false) } else { None }
            };
            let movement = match probe.anchor {
                Some(a) => refreshed(probe.target_current, a),
                None => (MoveEffect::Keep, false),
            };
            return react(drop, chasing, holding, false, None, movement);
        }
        return react(drop, None, None, false, None, (MoveEffect::Keep, false));
    }
    match order {
        UnitOrder::Idle => react(drop, None, None, false, None, (MoveEffect::Keep, false)),
        UnitOrder::Move { destination } => {
            if idle {
                if probe.arrived {
                    react(drop, None, None, true, None, (MoveEffect::Keep, false))
                } else {
                    react(drop, None, None, false, None, (MoveEffect::Go(destination), false))
                }
            } else {
                react(drop, None, None, false, None, refreshed(probe.target_current, destination))
            }
        },
        UnitOrder::AttackMove { destination } => {
            if idle {
                react(drop, None, None, true, None, (MoveEffect::Keep, false))
            } else {
                react(drop, None, None, false, None, refreshed(probe.target_current, destination))
            }
        },
        UnitOrder::Patrol { points, next } => {
            let n = points.len();
            if n == 0 {
                react(drop, None, None, false, Some(UnitOrder::Idle), (MoveEffect::Keep, false))
            } else {
                let leg = points[next % n];
                if idle {
                    if probe.arrived {
                        let advanced = if next % n + 1 == n { 0 } else { next % n + 1 };
                        proof {
                            assert((next as int + 1) % (n as int) == advanced as int) by (nonlinear_arith)
                                requires
                                    n > 0,
                                    advanced as int == if (next as int) % (n as int) + 1 == n as int { 0 } else { (next as int) % (n as int) + 1 },
                            {
                                assert(next as int == (n as int) * ((next as int) / (n as int)) + (next as int) % (n as int));
                            }
                        }
                        let target = points[advanced];
                        react(
                            drop,
                            None,
                            None,
                            false,
                            Some(UnitOrder::Patrol { points, next: advanced }),
                            (MoveEffect::Go(target), true),
                        )
                    } else {
                        react(drop, None, None, false, None, (MoveEffect::Go(leg), false))
                    }
                } else {
                    react(drop, None, None, false, None, refreshed(probe.target_current, leg))
                }
            }
        },
        UnitOrder::Guard { .. } => match probe.ward {
            None => react(drop, None, None, false, None, (MoveEffect::Keep, false)),
            Some((near, at)) => {
                if near {
                    react(drop, None, None, false, None, halted(loco))
                } else {
                    react(drop, None, None, false, None, refreshed(probe.target_current, at))
                }
            },
        },
        UnitOrder::Build { .. } => match probe.site {
            None => react(drop, None, None, true, None, (MoveEffect::Keep, false)),
            Some((in_range, approach)) => {
                if in_range {
                    react(drop, None, None, false, None, halted(loco))
                } else {
                    react(drop, None, None, false, None, refreshed(probe.target_current, approach))
                }
            },
        },
        UnitOrder::HoldPosition => react(drop, None, None, false, None, halted(loco)),
        UnitOrder::Attack { .. } => react(drop, None, None, true, None, (MoveEffect::Keep, false)),
    }
}

/// Chasing and holding never coexist: after a locked chase order's step
/// exactly one of the two markers is on.
pub proof fn markers_are_exclusive<P>(order: UnitOrder<P>, loco: Locomotion, probe: Probe<P>)
    requires
        spec_allows_chase(order),
    ensures
        ({
            let r = spec_resolve(order, true, loco, probe);
            let chasing = match r.chasing { Some(b) => b, None => loco.chasing };
            let holding = match r.holding { Some(b) => b, None => loco.holding };
            &&& !r.drop_markers
            &&& chasing != holding
            &&& holding == probe.in_weapon_range
        }),
{
}

/// Without a lock no marker survives the step.
pub proof fn stale_markers_are_dropped<P>(order: UnitOrder<P>, loco: Locomotion, probe: Probe<P>)
    requires
        loco.chasing || loco.holding,
    ensures
        spec_resolve(order, false, loco, probe).drop_markers,
        spec_resolve(order, false, loco, probe).chasing is None,
        spec_resolve(order, false, loco, probe).holding is None,
{
}

/// A patrol never completes: it advances its loop forever.
pub proof fn patrols_never_complete<P>(points: Vec<P>, next: usize, locked: bool, loco: Locomotion, probe: Probe<P>)
    ensures
        !spec_resolve(UnitOrder::Patrol { points, next }, locked, loco, probe).complete,
{
}

/// Builders, holders and marchers never chase.
pub proof fn non_chase_orders_never_chase<P>(order: UnitOrder<P>, locked: bool, loco: Locomotion, probe: Probe<P>)
    requires
        !spec_allows_chase(order),
    ensures
        spec_resolve(order, locked, loco, probe).chasing != Some(true),
{
}

/// A unit that holds its position, a guard beside its ward and a builder
/// inside its site's build radius stop where they stand: a move target or
/// route they have is dropped, and nothing else happens to their movement
/// or order.
pub proof fn stopping_units_stand_still<P>(order: UnitOrder<P>, loco: Locomotion, probe: Probe<P>)
    requires
        order is HoldPosition || (order is Guard && probe.ward is Some && probe.ward.unwrap().0) || (order is Build
            && probe.site is Some && probe.site.unwrap().0),
    ensures
        ({
            let r = spec_resolve(order, false, loco, probe);
            &&& (loco.has_move_target || loco.has_route) ==> r.move_target == MoveEffect::<P>::Clear && r.drop_route
            &&& !(loco.has_move_target || loco.has_route) ==> r.move_target == MoveEffect::<P>::Keep && !r.drop_route
            &&& !r.complete
            &&& r.order is None
        }),
{
}

/// Without a lock, the live order is done exactly when a march stands at
/// rest on its destination, an attack-move has come to rest, an explicit
/// attack has lost its target, or the build site is gone; a completed
/// order leaves the movement to the next one.
pub proof fn unlocked_orders_complete_when_done<P>(order: UnitOrder<P>, loco: Locomotion, probe: Probe<P>)
    ensures
        spec_resolve(order, false, loco, probe).complete <==> (
        (order is Move && !loco.has_move_target && !loco.has_route && probe.arrived)
        || (order is AttackMove && !loco.has_move_target && !loco.has_route)
        || order is Attack
        || (order is Build && probe.site is None)),
        spec_resolve(order, false, loco, probe).complete ==> spec_resolve(order, false, loco, probe).move_target
            == MoveEffect::<P>::Keep && !spec_resolve(order, false, loco, probe).drop_route,
{
}

/// Only a patrol rewrites its own order: an empty loop turns idle, and an
/// arrived patrol heads for the next point of its loop.
pub proof fn only_patrols_rewrite_their_order<P>(order: UnitOrder<P>, locked: bool, loco: Locomotion, probe: Probe<P>)
    ensures
        spec_resolve(order, locked, loco, probe).order is Some ==> !locked && order is Patrol,
{
}

/// A locked unit never completes its order; one whose order does not chase
/// leaves its movement and markers as they are, apart from dropping stale
/// markers.
pub proof fn locked_units_keep_their_order<P>(order: UnitOrder<P>, loco: Locomotion, probe: Probe<P>)
    ensures
        !spec_resolve(order, true, loco, probe).complete,
        spec_resolve(order, true, loco, probe).order is None,
        !(order is Attack || order is AttackMove || order is Patrol || order is Guard) ==> ({
            let r = spec_resolve(order, true, loco, probe);
            &&& r.move_target == MoveEffect::<P>::Keep
            &&& !r.drop_route
            &&& r.chasing is None
            &&& r.holding is None
            &&& r.drop_markers == (loco.chasing || loco.holding)
        }),
{
}

/// A locked chase heads for its anchor unless its move target already
/// points there (then nothing moves); without an anchor the move target is
/// left alone. A new heading always drops the old route.
pub proof fn locked_chases_follow_their_anchor<P>(order: UnitOrder<P>, loco: Locomotion, probe: Probe<P>)
    requires
        order is Attack || order is AttackMove || order is Patrol || order is Guard,
    ensures
        ({
            let r = spec_resolve(order, true, loco, probe);
            &&& probe.anchor is None ==> r.move_target == MoveEffect::<P>::Keep && !r.drop_route
            &&& (probe.anchor is Some && probe.target_current) ==> r.move_target == MoveEffect::<P>::Keep
                && !r.drop_route
            &&& (probe.anchor is Some && !probe.target_current) ==> r.move_target == MoveEffect::Go(
                probe.anchor.unwrap(),
            ) && r.drop_route
        }),
{
}

/// A unit under way (with a move target or a route) toward the point `f`
/// its unlocked order aims at (a march's destination, a patrol's current
/// leg), and any guard or builder heading for a far ward or a far site's
/// approach `f`, keeps going when its move target is current and is
/// re-aimed at `f`, dropping the old route, when it is not. It does not complete and keeps its order.
pub proof fn moving_units_steer_for_their_goal<P>(order: UnitOrder<P>, loco: Locomotion, probe: Probe<P>, f: P)
    requires
        loco.has_move_target || loco.has_route || order is Guard || order is Build,
        order == (UnitOrder::<P>::Move { destination: f }) || order == (UnitOrder::<P>::AttackMove { destination: f })
            || (order matches UnitOrder::Patrol { points, next } && points@.len() > 0 && points@[(next as int)
            % (points@.len() as int)] == f) || (order is Guard && probe.ward == Some((false, f))) || (order is Build
            && probe.site == Some((false, f))),
    ensures
        ({
            let r = spec_resolve(order, false, loco, probe);
            &&& probe.target_current ==> r.move_target == MoveEffect::<P>::Keep && !r.drop_route
            &&& !probe.target_current ==> r.move_target == MoveEffect::Go(f) && r.drop_route
            &&& !r.complete
            &&& r.order is None
        }),
{
}

/// A march at rest that is not yet at its destination sets out for it.
pub proof fn resting_marches_set_out<P>(destination: P, loco: Locomotion, probe: Probe<P>)
    requires
        !loco.has_move_target,
        !loco.has_route,
        !probe.arrived,
    ensures
        ({
            let r = spec_resolve(UnitOrder::Move { destination }, false, loco, probe);
            &&& r.move_target == MoveEffect::Go(destination)
            &&& !r.drop_route
            &&& !r.complete
            &&& r.order is None
        }),
{
}

/// A patrol at rest heads for its current leg; once there it advances to
/// the next point of its loop, wrapping after the last, and heads for that
/// one. An empty patrol becomes idle.
pub proof fn resting_patrols_walk_their_loop<P>(points: Vec<P>, next: usize, loco: Locomotion, probe: Probe<P>)
    requires
        !loco.has_move_target,
        !loco.has_route,
    ensures
        ({
            let r = spec_resolve(UnitOrder::Patrol { points, next }, false, loco, probe);
            let n = points@.len() as int;
            let k = (next as int + 1) % n;
            &&& n == 0 ==> r.order == Some(UnitOrder::<P>::Idle) && r.move_target == MoveEffect::<P>::Keep
            &&& (n > 0 && !probe.arrived) ==> r.move_target == MoveEffect::Go(points@[(next as int) % n])
                && !r.drop_route && r.order is None
            &&& (n > 0 && probe.arrived) ==> r.order == Some(UnitOrder::Patrol { points, next: k as usize })
                && r.move_target == MoveEffect::Go(points@[k]) && r.drop_route
            &&& !r.complete
        }),
{
    let n = points@.len() as int;
    if n > 0 {
        let k = (next as int + 1) % n;
        assert(0 <= k < n);
        assert(n <= usize::MAX) by {
            assert(points@.len() == points.len());
        }
        assert((k as usize) as int == k);
    }
}

/// Without a lock an idle unit, and a guard whose ward is not indexed,
/// leave their movement alone.
pub proof fn idle_and_lost_guards_stay_put<P>(order: UnitOrder<P>, loco: Locomotion, probe: Probe<P>)
    requires
        order is Idle || (order is Guard && probe.ward is None),
    ensures
        spec_resolve(order, false, loco, probe).move_target == MoveEffect::<P>::Keep,
        !spec_resolve(order, false, loco, probe).drop_route,
        !spec_resolve(order, false, loco, probe).complete,
        spec_resolve(order, false, loco, probe).order is None,
{
}

/// Without a lock no marker is set, and the markers are dropped exactly
/// when one is on.
pub proof fn unlocked_units_set_no_marker<P>(order: UnitOrder<P>, loco: Locomotion, probe: Probe<P>)
    ensures
        spec_resolve(order, false, loco, probe).chasing is None,
        spec_resolve(order, false, loco, probe).holding is None,
        spec_resolve(order, false, loco, probe).drop_markers == (loco.chasing || loco.holding),
{
}

/// An unlocked patrol with no points turns idle and leaves its movement
/// alone, whether or not it is under way.
pub proof fn empty_patrols_turn_idle<P>(points: Vec<P>, next: usize, loco: Locomotion, probe: Probe<P>)
    requires
        points@.len() == 0,
    ensures
        spec_resolve(UnitOrder::Patrol { points, next }, false, loco, probe).order == Some(UnitOrder::<P>::Idle),
        spec_resolve(UnitOrder::Patrol { points, next }, false, loco, probe).move_target == MoveEffect::<P>::Keep,
        !spec_resolve(UnitOrder::Patrol { points, next }, false, loco, probe).drop_route,
        !spec_resolve(UnitOrder::Patrol { points, next }, false, loco, probe).complete,
{
}

} // verus!
