//! Order graphics: colour slots, where a selected unit's order line
//! points, and which lines and markers a frame keeps, drops or adds.
//!
//! Route flashes fade on the engine's clock and are never touched here.
use super::UnitOrder;
use vstd::prelude::*;

verus! {

pub open spec fn spec_order_slot<P>(o: UnitOrder<P>) -> usize {
    match o {
        UnitOrder::Move { .. } => 0,
        UnitOrder::AttackMove { .. } => 1,
        UnitOrder::Attack { .. } => 1,
        UnitOrder::HoldPosition => 2,
        UnitOrder::Idle => 3,
        UnitOrder::Patrol { .. } => 4,
        UnitOrder::Guard { .. } => 5,
        UnitOrder::Build { .. } => 6,
    }
}

/// Colour slot of an order: Move, Attack (and attack-move), Hold, Idle,
/// Patrol, Guard, Build.
pub fn order_slot<P>(order: &UnitOrder<P>) -> (r: usize)
    ensures
        r == spec_order_slot(*order),
        r < 7,
{
    match order {
        UnitOrder::Move { .. } => 0,
        UnitOrder::AttackMove { .. } | UnitOrder::Attack { .. } => 1,
        UnitOrder::HoldPosition => 2,
        UnitOrder::Idle => 3,
        UnitOrder::Patrol { .. } => 4,
        UnitOrder::Guard { .. } => 5,
        UnitOrder::Build { .. } => 6,
    }
}

/// Kind tag of an order visual: line, destination marker, route flash.
#[derive(Clone, Copy, Debug, PartialEq, Eq, Structural)]
pub enum VizKind {
    Line,
    Marker,
    Flash,
}

pub fn kind_tag(kind: VizKind) -> (r: u8)
    ensures
        kind == VizKind::Line ==> r == 0,
        kind == VizKind::Marker ==> r == 1,
        kind == VizKind::Flash ==> r == 2,
{
    match kind {
        VizKind::Line => 0,
        VizKind::Marker => 1,
        VizKind::Flash => 2,
    }
}

pub open spec fn spec_order_goal<P>(order: UnitOrder<P>, move_target: Option<P>, ward: Option<P>, site: Option<P>) -> Option<P> {
    if move_target is Some {
        move_target
    } else {
        match order {
            UnitOrder::Guard { .. } => ward,
            UnitOrder::Build { .. } => site,
            _ => None,
        }
    }
}

/// Where a selected unit's order line points: its move target; a guard or
/// builder holding without one points at its ward's (`ward`) or site's
/// (`site`) position. `None`: nothing to draw.
pub fn order_goal<P: Copy>(order: &UnitOrder<P>, move_target: Option<P>, ward: Option<P>, site: Option<P>) -> (r:
    Option<P>)
    ensures
        r == spec_order_goal(*order, move_target, ward, site),
{
    match move_target {
        Some(p) => Some(p),
        None => match order {
            UnitOrder::Guard { .. } => ward,
            UnitOrder::Build { .. } => site,
            _ => None,
        },
    }
}

/// An order visual on screen.
#[derive(Clone, Copy, Debug, PartialEq, Eq, Structural)]
pub struct Drawn {
    pub unit: u64,
    pub kind: VizKind,
}

/// What a frame does with a visual already on screen.
#[derive(Clone, Copy, Debug, PartialEq, Eq, Structural)]
pub enum VizFate {
    /// A line or marker of a unit that still has an order to show.
    Keep,
    /// A line or marker whose unit is gone, deselected or done.
    Despawn,
    /// A route flash, left to fade.
    Fade,
}

/// What a frame adds for a unit with an order to show.
#[derive(Clone, Copy, Debug, PartialEq, Eq, Structural)]
pub struct Missing {
    pub unit: u64,
    pub line: bool,
    pub marker: bool,
}

pub open spec fn spec_fate(d: Drawn, live: Seq<u64>) -> VizFate {
    if d.kind == VizKind::Flash {
        VizFate::Fade
    } else if live.contains(d.unit) {
        VizFate::Keep
    } else {
        VizFate::Despawn
    }
}

pub open spec fn has_drawn(drawn: Seq<Drawn>, unit: u64, kind: VizKind) -> bool {
    exists|j: int| 0 <= j < drawn.len() && #[trigger] drawn[j] == Drawn { unit, kind }
}

fn find_drawn(drawn: &Vec<Drawn>, unit: u64, kind: VizKind) -> (r: bool)
    ensures
        r == has_drawn(drawn@, unit, kind),
{
    let mut j: usize = 0;
    while j < drawn.len()
        invariant
            j <= drawn@.len(),
            forall|k: int| 0 <= k < j ==> drawn@[k] != (Drawn { unit, kind }),
        decreases drawn@.len() - j,
    {
        if drawn[j].unit == unit && drawn[j].kind == kind {
            assert(drawn@[j as int] == Drawn { unit, kind });
            return true;
        }
        j = j + 1;
    }
    false
}

fn contains_unit(live: &Vec<u64>, unit: u64) -> (r: bool)
    ensures
        r == live@.contains(unit),
{
    let mut j: usize = 0;
    while j < live.len()
        invariant
            j <= live@.len(),
            forall|k: int| 0 <= k < j ==> live@[k] != unit,
        decreases live@.len() - j,
    {
        if live[j] == unit {
            assert(live@[j as int] == unit);
            return true;
        }
        j = j + 1;
    }
    false
}

/// One frame of the order graphics: the fate of each visual on screen, and
/// for each unit with an order to show (`live`, in order) whether its line
/// and its destination marker must be added.
pub fn reconcile_visuals(drawn: &Vec<Drawn>, live: &Vec<u64>) -> (r: (Vec<VizFate>, Vec<Missing>))
    ensures
        r.0@.len() == drawn@.len(),
        forall|i: int| 0 <= i < drawn@.len() ==> r.0@[i] == spec_fate(#[trigger] drawn@[i], live@),
        r.1@.len() == live@.len(),
        forall|i: int|
            0 <= i < live@.len() ==> #[trigger] r.1@[i] == (Missing {
                unit: live@[i],
                line: !has_drawn(drawn@, live@[i], VizKind::Line),
                marker: !has_drawn(drawn@, live@[i], VizKind::Marker),
            }),
{
    let mut fates: Vec<VizFate> = Vec::new();
    let mut i: usize = 0;
    while i < drawn.len()
        invariant
            i <= drawn@.len(),
            fates@.len() == i,
            forall|k: int| 0 <= k < i ==> fates@[k] == spec_fate(#[trigger] drawn@[k], live@),
        decreases drawn@.len() - i,
    {
        let d = drawn[i];
        let fate = match d.kind {
            VizKind::Flash => VizFate::Fade,
            _ => if contains_unit(live, d.unit) {
                VizFate::Keep
            } else {
                VizFate::Despawn
            },
        };
        fates.push(fate);
        i = i + 1;
    }
    let mut missing: Vec<Missing> = Vec::new();
    let mut k: usize = 0;
    while k < live.len()
        invariant
            k <= live@.len(),
            missing@.len() == k,
            forall|m: int|
                0 <= m < k ==> #[trigger] missing@[m] == (Missing {
                    unit: live@[m],
                    line: !has_drawn(drawn@, live@[m], VizKind::Line),
                    marker: !has_drawn(drawn@, live@[m], VizKind::Marker),
                }),
        decreases live@.len() - k,
    {
        let unit = live[k];
        let line = !find_drawn(drawn, unit, VizKind::Line);
        let marker = !find_drawn(drawn, unit, VizKind::Marker);
        missing.push(Missing { unit, line, marker });
        k = k + 1;
    }
    (fates, missing)
}

/// A line or marker of `unit` is on screen after a frame: one on screen
/// before is kept, or the unit is live and the frame adds one.
pub open spec fn shown_after(drawn: Seq<Drawn>, live: Seq<u64>, unit: u64, kind: VizKind) -> bool {
    (exists|j: int|
        0 <= j < drawn.len() && #[trigger] drawn[j] == (Drawn { unit, kind }) && spec_fate(drawn[j], live)
            == VizFate::Keep) || (live.contains(unit) && !has_drawn(drawn, unit, kind))
}

/// After a frame a unit shows its order line and its marker exactly when
/// it has an order to show.
pub proof fn visuals_follow_live_units(drawn: Seq<Drawn>, live: Seq<u64>, unit: u64, kind: VizKind)
    requires
        kind != VizKind::Flash,
    ensures
        shown_after(drawn, live, unit, kind) == live.contains(unit),
{
    if live.contains(unit) && has_drawn(drawn, unit, kind) {
        let j = choose|j: int| 0 <= j < drawn.len() && #[trigger] drawn[j] == Drawn { unit, kind };
        assert(spec_fate(drawn[j], live) == VizFate::Keep);
    }
}

} // verus!
