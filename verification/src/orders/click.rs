//! Order issuing from the pointer and keys: what a right click over the map
//! orders the selection to do, and how order keys arm targeting.
//!
//! The engine resolves what lies under the cursor (the nearest visible
//! enemy, a friendly unit, a friendly building) and hands the ids in.
use super::PendingOrder;
use vstd::prelude::*;

verus! {

/// Pressing the key of `mode` toggles it off when it is armed, arms it when
/// some unit is selected, and changes nothing otherwise.
pub fn toggle_targeting(current: PendingOrder, mode: PendingOrder, any_selected: bool) -> (r:
    PendingOrder)
    ensures
        current == mode ==> r == PendingOrder::Unarmed,
        current != mode && any_selected ==> r == mode,
        current != mode && !any_selected ==> r == current,
{
    if current == mode {
        PendingOrder::Unarmed
    } else if any_selected {
        mode
    } else {
        current
    }
}

/// HUD line announcing the armed order; empty when nothing is armed.
pub fn targeting_hint(pending: PendingOrder) -> (r: &'static str)
    ensures
        pending == PendingOrder::Unarmed ==> r@ == ""@,
        pending == PendingOrder::AttackMove ==> r@
            == "\nAWAITING ATTACK-MOVE: left-click destination (ESC/right-click cancels)"@,
        pending == PendingOrder::Patrol ==> r@
            == "\nAWAITING PATROL: left-click adds a loop waypoint (ESC/right-click done)"@,
        pending == PendingOrder::Guard ==> r@
            == "\nAWAITING GUARD: left-click a friendly unit (ESC/right-click cancels)"@,
{
    match pending {
        PendingOrder::Unarmed => "",
        PendingOrder::AttackMove => "\nAWAITING ATTACK-MOVE: left-click destination (ESC/right-click cancels)",
        PendingOrder::Patrol => "\nAWAITING PATROL: left-click adds a loop waypoint (ESC/right-click done)",
        PendingOrder::Guard => "\nAWAITING GUARD: left-click a friendly unit (ESC/right-click cancels)",
    }
}

/// What a handler of an armed order does with this frame's input.
#[derive(Clone, Copy, Debug, PartialEq, Eq, Structural)]
pub enum PendingStep {
    /// Nothing armed for this handler.
    Ignore,
    /// Focus lost or Escape: the armed order is dropped.
    Disarm,
    /// Armed, waiting for a left-button release with units selected.
    Wait,
    /// Issue the armed order at the released point.
    Issue,
}

/// The armed orders the handler of `mode` serves: the attack-move handler
/// serves whatever is armed, the others only their own order.
pub open spec fn serves(pending: PendingOrder, mode: PendingOrder) -> bool {
    if mode == PendingOrder::AttackMove {
        pending != PendingOrder::Unarmed
    } else {
        pending == mode
    }
}

pub open spec fn spec_pending_step(
    pending: PendingOrder,
    mode: PendingOrder,
    focused: bool,
    escape: bool,
    released: bool,
    any_selected: bool,
) -> PendingStep {
    if !serves(pending, mode) {
        PendingStep::Ignore
    } else if !focused || escape {
        PendingStep::Disarm
    } else if !released || !any_selected {
        PendingStep::Wait
    } else {
        PendingStep::Issue
    }
}

/// One frame of the handler of armed order `mode`: drop the order when the
/// window loses focus or Escape is pressed; issue it when the left button
/// is released with units selected.
pub fn pending_step(
    pending: PendingOrder,
    mode: PendingOrder,
    focused: bool,
    escape: bool,
    released: bool,
    any_selected: bool,
) -> (r: PendingStep)
    ensures
        r == spec_pending_step(pending, mode, focused, escape, released, any_selected),
{
    let serves = if mode == PendingOrder::AttackMove {
        pending != PendingOrder::Unarmed
    } else {
        pending == mode
    };
    if !serves {
        PendingStep::Ignore
    } else if !focused || escape {
        PendingStep::Disarm
    } else if !released || !any_selected {
        PendingStep::Wait
    } else {
        PendingStep::Issue
    }
}

/// Hold (H) or stop (S) for the whole selection.
#[derive(Clone, Copy, Debug, PartialEq, Eq, Structural)]
pub enum HoldStop {
    Hold,
    Stop,
}

/// The hold or stop key pressed this frame, H first, when the window has
/// focus and units are selected; either one also disarms a pending order.
pub fn hold_stop_key(focused: bool, any_selected: bool, hold: bool, stop: bool) -> (r: Option<HoldStop>)
    ensures
        !(focused && any_selected) ==> r is None,
        focused && any_selected ==> r == (if hold {
            Some(HoldStop::Hold)
        } else if stop {
            Some(HoldStop::Stop)
        } else {
            None
        }),
{
    if !focused || !any_selected {
        None
    } else if hold {
        Some(HoldStop::Hold)
    } else if stop {
        Some(HoldStop::Stop)
    } else {
        None
    }
}

/// A targeted order.
#[derive(Clone, Copy, Debug, PartialEq, Eq, Structural)]
pub enum Command {
    Attack(u64),
    Guard(u64),
    Build(u64),
}

/// What the issuing rules read of one selected unit.
#[derive(Clone, Copy, Debug, PartialEq, Eq, Structural)]
pub struct SelectedUnit {
    pub entity: u64,
    /// A live order other than idle, or orders queued.
    pub busy: bool,
    /// Commander or engineer.
    pub builder: bool,
}

/// One unit's new order: queued behind its live order, or issued fresh.
#[derive(Clone, Copy, Debug, PartialEq, Eq, Structural)]
pub struct Assignment {
    pub entity: u64,
    pub command: Command,
    pub queued: bool,
}

/// Shift queues behind a busy unit's live order; otherwise the order
/// replaces everything.
pub open spec fn spec_queued(additive: bool, busy: bool) -> bool {
    additive && busy
}

/// Whether the order goes behind the unit's live order.
pub fn queues_behind(additive: bool, busy: bool) -> (r: bool)
    ensures
        r == spec_queued(additive, busy),
{
    additive && busy
}

/// Which selected units take a command: every unit attacks, no unit guards
/// itself, only builders build.
pub open spec fn takes(u: SelectedUnit, command: Command) -> bool {
    match command {
        Command::Attack(_) => true,
        Command::Guard(ward) => u.entity != ward,
        Command::Build(_) => u.builder,
    }
}

/// The assignments of `command` to the selection, in selection order.
pub open spec fn spec_assign(selected: Seq<SelectedUnit>, command: Command, additive: bool) -> Seq<
    Assignment,
>
    decreases selected.len(),
{
    if selected.len() == 0 {
        Seq::empty()
    } else {
        let rest = spec_assign(selected.drop_last(), command, additive);
        let u = selected.last();
        if takes(u, command) {
            rest.push(
                Assignment { entity: u.entity, command, queued: spec_queued(additive, u.busy) },
            )
        } else {
            rest
        }
    }
}

fn assign(selected: &Vec<SelectedUnit>, command: Command, additive: bool) -> (r: Vec<Assignment>)
    ensures
        r@ == spec_assign(selected@, command, additive),
{
    let mut out: Vec<Assignment> = Vec::new();
    let mut i: usize = 0;
    while i < selected.len()
        invariant
            i <= selected@.len(),
            out@ == spec_assign(selected@.take(i as int), command, additive),
        decreases selected@.len() - i,
    {
        let u = selected[i];
        let picked = match command {
            Command::Attack(_) => true,
            Command::Guard(ward) => u.entity != ward,
            Command::Build(_) => u.builder,
        };
        if picked {
            out.push(Assignment { entity: u.entity, command, queued: queues_behind(additive, u.busy) });
        }
        proof {
            assert(selected@.take(i + 1).drop_last() =~= selected@.take(i as int));
        }
        i = i + 1;
    }
    assert(selected@.take(i as int) =~= selected@);
    out
}

/// Outcome of a right click.
#[derive(Debug)]
pub enum ClickPlan {
    /// Nothing selected: the click does nothing.
    Nothing,
    /// A targeting mode was armed: the click only disarms it.
    Disarm,
    /// Targeted orders for the listed units.
    Assign(Vec<Assignment>),
    /// A ground move: the selection marches to formation slots around the
    /// clicked point.
    Formation,
}

/// The plan a right click makes, as a value.
pub enum SpecPlan {
    Nothing,
    Disarm,
    Assign(Seq<Assignment>),
    Formation,
}

pub open spec fn plan_view(p: ClickPlan) -> SpecPlan {
    match p {
        ClickPlan::Nothing => SpecPlan::Nothing,
        ClickPlan::Disarm => SpecPlan::Disarm,
        ClickPlan::Assign(v) => SpecPlan::Assign(v@),
        ClickPlan::Formation => SpecPlan::Formation,
    }
}

/// The right-click rule. An enemy under the cursor is attacked by the whole
/// selection; else a friendly unit under the cursor is guarded by every
/// other selected unit; else a friendly construction site under the cursor
/// is built by the selected builders; anything that assigns nobody falls
/// through to a ground move.
pub open spec fn spec_click_plan(
    pending: PendingOrder,
    enemy: Option<u64>,
    ward: Option<u64>,
    site: Option<(u64, bool)>,
    selected: Seq<SelectedUnit>,
    additive: bool,
) -> SpecPlan {
    if selected.len() == 0 {
        SpecPlan::Nothing
    } else if pending != PendingOrder::Unarmed {
        SpecPlan::Disarm
    } else if enemy is Some {
        SpecPlan::Assign(spec_assign(selected, Command::Attack(enemy->0), additive))
    } else if ward is Some && spec_assign(selected, Command::Guard(ward->0), additive).len() > 0 {
        SpecPlan::Assign(spec_assign(selected, Command::Guard(ward->0), additive))
    } else {
        match site {
            Some((s, true)) => if spec_assign(selected, Command::Build(s), additive).len() > 0 {
                SpecPlan::Assign(spec_assign(selected, Command::Build(s), additive))
            } else {
                SpecPlan::Formation
            },
            _ => SpecPlan::Formation,
        }
    }
}

/// Plans a right click. `enemy` is the nearest visible enemy under the
/// cursor, `ward` the friendly unit under it, `site` the nearest friendly
/// building under it and whether it is still a construction site;
/// `additive` is the queue modifier.
pub fn right_click_plan(
    pending: PendingOrder,
    enemy: Option<u64>,
    ward: Option<u64>,
    site: Option<(u64, bool)>,
    selected: &Vec<SelectedUnit>,
    additive: bool,
) -> (r: ClickPlan)
    ensures
        plan_view(r) == spec_click_plan(pending, enemy, ward, site, selected@, additive),
{
    if selected.len() == 0 {
        return ClickPlan::Nothing;
    }
    if pending != PendingOrder::Unarmed {
        return ClickPlan::Disarm;
    }
    if let Some(target) = enemy {
        return ClickPlan::Assign(assign(selected, Command::Attack(target), additive));
    }
    if let Some(w) = ward {
        let guards = assign(selected, Command::Guard(w), additive);
        if guards.len() > 0 {
            return ClickPlan::Assign(guards);
        }
    }
    if let Some((s, under_construction)) = site {
        if under_construction {
            let builders = assign(selected, Command::Build(s), additive);
            if builders.len() > 0 {
                return ClickPlan::Assign(builders);
            }
        }
    }
    ClickPlan::Formation
}

/// Every assignment names a selected unit that takes the command, and is
/// queued only under the queue modifier for a busy unit.
pub proof fn assignments_come_from_selection(
    selected: Seq<SelectedUnit>,
    command: Command,
    additive: bool,
    k: int,
)
    requires
        0 <= k < spec_assign(selected, command, additive).len(),
    ensures
        ({
            let a = spec_assign(selected, command, additive)[k];
            exists|i: int|
                0 <= i < selected.len() && #[trigger] selected[i].entity == a.entity && takes(
                    selected[i],
                    command,
                ) && a.queued == spec_queued(additive, selected[i].busy) && a.command == command
        }),
    decreases selected.len(),
{
    let rest = spec_assign(selected.drop_last(), command, additive);
    if k < rest.len() {
        assignments_come_from_selection(selected.drop_last(), command, additive, k);
        let a = rest[k];
        let i = choose|i: int|
            0 <= i < selected.drop_last().len() && #[trigger] selected.drop_last()[i].entity
                == a.entity && takes(selected.drop_last()[i], command) && a.queued == spec_queued(
                additive,
                selected.drop_last()[i].busy,
            ) && a.command == command;
        assert(selected[i] == selected.drop_last()[i]);
    } else {
        assert(selected[selected.len() - 1].entity == selected.last().entity);
    }
}

/// A unit never guards itself.
pub proof fn nobody_guards_itself(selected: Seq<SelectedUnit>, ward: u64, additive: bool, k: int)
    requires
        0 <= k < spec_assign(selected, Command::Guard(ward), additive).len(),
    ensures
        spec_assign(selected, Command::Guard(ward), additive)[k].entity != ward,
{
    assignments_come_from_selection(selected, Command::Guard(ward), additive, k);
}

} // verus!
