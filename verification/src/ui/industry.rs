//! Industry controls: the map-input gate shared with order issuing, what
//! the dock buttons do, and the verdict on a building placement.
use crate::economy::balance::BuildingKind;
use crate::orders::PendingOrder;
use crate::units::archetype::{spec_tier, UnitKind};
use vstd::prelude::*;

verus! {

/// Whether map clicks may issue commands. A pointer gesture captured by a
/// panel blocks the map until it ends; spectators never command.
#[derive(Clone, Copy, Debug)]
pub struct MapInput {
    pub blocked: bool,
    pub captured: bool,
    pub commands_allowed: bool,
}

impl Default for MapInput {
    fn default() -> (r: Self)
        ensures
            !r.blocked,
            !r.captured,
            r.commands_allowed,
    {
        MapInput { blocked: false, captured: false, commands_allowed: true }
    }
}

impl MapInput {
    /// Abandons the current pointer gesture and blocks the map for this frame.
    pub fn cancel_gesture(&mut self)
        ensures
            !final(self).captured,
            final(self).blocked,
            final(self).commands_allowed == old(self).commands_allowed,
    {
        self.captured = false;
        self.blocked = true;
    }
}

/// What the pointer and the match look like on one frame.
#[derive(Clone, Copy, Debug)]
pub struct PointerFrame {
    /// The match has ended.
    pub match_over: bool,
    /// A human controls some team (no session data counts as controlling).
    pub player_controls: bool,
    /// The pointer is over a panel that blocks the map.
    pub over_panel: bool,
    /// The left or right button went down this frame.
    pub pressed_now: bool,
    /// The left or right button is held.
    pub held: bool,
    /// A building placement is armed.
    pub placing: bool,
}

/// Gate state after one frame, starting from `input`.
pub open spec fn spec_capture(input: MapInput, f: PointerFrame) -> MapInput {
    let allowed = !f.match_over && f.player_controls;
    let captured = input.captured || (f.over_panel && f.pressed_now);
    MapInput {
        commands_allowed: allowed,
        blocked: f.over_panel || captured || (f.placing && allowed),
        captured: if f.held { captured } else { false },
    }
}

/// Runs once per frame. A click that begins over a panel holds the
/// pointer until the button is released; an armed placement keeps the map
/// blocked for selection. Returns whether an armed placement must be
/// dropped (commands are no longer allowed).
pub fn capture_pointer(input: &mut MapInput, frame: PointerFrame) -> (clear_placement: bool)
    ensures
        *final(input) == spec_capture(*old(input), frame),
        clear_placement == !(!frame.match_over && frame.player_controls),
{
    input.commands_allowed = !frame.match_over && frame.player_controls;
    let clear_placement = !input.commands_allowed;
    let placing = frame.placing && !clear_placement;
    if frame.over_panel && frame.pressed_now {
        input.captured = true;
    }
    input.blocked = frame.over_panel || input.captured || placing;
    if !frame.held {
        input.captured = false;
    }
    clear_placement
}

/// A right click sets the rally point of the selected factories when the
/// window has focus, the map takes commands (`input`), no order is armed,
/// no unit is selected (units take the click as an order) and the point is
/// open ground (`ground_ok`).
pub open spec fn spec_rally_gate(
    focused: bool,
    input: MapInput,
    pending: PendingOrder,
    units_selected: bool,
    right_click: bool,
    ground_ok: bool,
) -> bool {
    focused && input.commands_allowed && !input.blocked && pending == PendingOrder::Unarmed
        && !units_selected && right_click && ground_ok
}

/// Which of the selected factories (their teams in `factory_teams`) take
/// the clicked point as their rally: those of the viewed team, when the
/// click passes [`spec_rally_gate`].
pub fn rally_targets(
    focused: bool,
    input: &MapInput,
    pending: PendingOrder,
    units_selected: bool,
    right_click: bool,
    ground_ok: bool,
    viewed_team: u8,
    factory_teams: &Vec<u8>,
) -> (r: Vec<bool>)
    ensures
        r@.len() == factory_teams@.len(),
        forall|i: int|
            0 <= i < r@.len() ==> #[trigger] r@[i] == (spec_rally_gate(
                focused,
                *input,
                pending,
                units_selected,
                right_click,
                ground_ok,
            ) && factory_teams@[i] == viewed_team),
{
    let gate = focused && input.commands_allowed && !input.blocked && pending == PendingOrder::Unarmed
        && !units_selected && right_click && ground_ok;
    let mut out: Vec<bool> = Vec::new();
    let mut i: usize = 0;
    while i < factory_teams.len()
        invariant
            i <= factory_teams@.len(),
            out@.len() == i,
            gate == spec_rally_gate(focused, *input, pending, units_selected, right_click, ground_ok),
            forall|k: int| 0 <= k < i ==> #[trigger] out@[k] == (gate && factory_teams@[k] == viewed_team),
        decreases factory_teams@.len() - i,
    {
        out.push(gate && factory_teams[i] == viewed_team);
        i = i + 1;
    }
    out
}

/// A gesture that started on a panel keeps the map blocked for as long as
/// the button is held, even after the pointer leaves the panel.
pub proof fn capture_lasts_while_held(input: MapInput, f: PointerFrame)
    requires
        input.captured,
        f.held,
    ensures
        spec_capture(input, f).blocked,
        spec_capture(input, f).captured,
{
}

/// Once the button is up and the pointer is off every panel, no placement
/// armed, the next frame unblocks the map.
pub proof fn release_unblocks(input: MapInput, f: PointerFrame)
    requires
        !f.held,
        !f.over_panel,
        !f.placing,
    ensures
        !spec_capture(spec_capture(input, f), f).blocked,
{
}

/// Map orders run only when the map is not blocked and commands are allowed.
pub fn map_input_allowed(input: &MapInput) -> (r: bool)
    ensures
        r == (!input.blocked && input.commands_allowed),
{
    !input.blocked && input.commands_allowed
}

/// A dock button.
#[derive(Clone, Copy, Debug, PartialEq, Eq, Structural)]
pub enum DockAction {
    /// Order buttons: attack-move, patrol, guard, hold, stop.
    Command(u8),
    Build(BuildingKind),
    Produce(UnitKind),
    /// Cancel the factory job at this index.
    Cancel(usize),
    CancelSite,
}

/// What a dock button does.
#[derive(Clone, Copy, Debug, PartialEq, Eq, Structural)]
pub enum DockEffect {
    /// Nothing applies (no unit selected, no suitable building).
    Ignore,
    /// Arm a targeting mode.
    Arm(PendingOrder),
    /// Disarm targeting and order every selected unit to hold.
    HoldAll,
    /// Disarm targeting and stop every selected unit.
    StopAll,
    /// No builder was selected: clear the placement and ask for one.
    NeedBuilder,
    /// Start placing `kind` with the selected builders; disarm targeting.
    StartPlacement(BuildingKind),
    /// Queue a unit in the selected factory.
    Produce(u64, UnitKind),
    /// Cancel a job of the selected factory.
    CancelJob(u64, usize),
    /// Tear down the selected construction site (no refund).
    CancelSite(u64),
}

pub open spec fn spec_dock_effect(
    allowed: bool,
    action: DockAction,
    any_units: bool,
    building: Option<(u64, bool)>,
    builders: usize,
) -> DockEffect {
    if !allowed {
        DockEffect::Ignore
    } else {
    match action {
        DockAction::Command(c) => if !any_units {
            DockEffect::Ignore
        } else if c == 0 {
            DockEffect::Arm(PendingOrder::AttackMove)
        } else if c == 1 {
            DockEffect::Arm(PendingOrder::Patrol)
        } else if c == 2 {
            DockEffect::Arm(PendingOrder::Guard)
        } else if c == 3 {
            DockEffect::HoldAll
        } else {
            DockEffect::StopAll
        },
        DockAction::Build(kind) => if builders == 0 {
            DockEffect::NeedBuilder
        } else {
            DockEffect::StartPlacement(kind)
        },
        DockAction::Produce(kind) => match building {
            Some((e, false)) => DockEffect::Produce(e, kind),
            _ => DockEffect::Ignore,
        },
        DockAction::Cancel(index) => match building {
            Some((e, false)) => DockEffect::CancelJob(e, index),
            _ => DockEffect::Ignore,
        },
        DockAction::CancelSite => match building {
            Some((e, true)) => DockEffect::CancelSite(e),
            _ => DockEffect::Ignore,
        },
    }
    }
}

/// Decides a dock button. Nothing happens unless the viewer may command
/// (`allowed`); `any_units` says some unit is selected,
/// `building` is the viewed team's selected building (lowest id) and
/// whether it is still a site, `builders` the number of selected builders
/// of the viewed team.
pub fn dock_effect(allowed: bool, action: DockAction, any_units: bool, building: Option<(u64, bool)>, builders: usize) -> (r: DockEffect)
    ensures
        r == spec_dock_effect(allowed, action, any_units, building, builders),
{
    if !allowed {
        return DockEffect::Ignore;
    }
    match action {
        DockAction::Command(c) => {
            if !any_units {
                DockEffect::Ignore
            } else if c == 0 {
                DockEffect::Arm(PendingOrder::AttackMove)
            } else if c == 1 {
                DockEffect::Arm(PendingOrder::Patrol)
            } else if c == 2 {
                DockEffect::Arm(PendingOrder::Guard)
            } else if c == 3 {
                DockEffect::HoldAll
            } else {
                DockEffect::StopAll
            }
        },
        DockAction::Build(kind) => {
            if builders == 0 {
                DockEffect::NeedBuilder
            } else {
                DockEffect::StartPlacement(kind)
            }
        },
        DockAction::Produce(kind) => match building {
            Some((e, false)) => DockEffect::Produce(e, kind),
            _ => DockEffect::Ignore,
        },
        DockAction::Cancel(index) => match building {
            Some((e, false)) => DockEffect::CancelJob(e, index),
            _ => DockEffect::Ignore,
        },
        DockAction::CancelSite => match building {
            Some((e, true)) => DockEffect::CancelSite(e),
            _ => DockEffect::Ignore,
        },
    }
}

/// Refusal of a placement whose tasked builders all died.
pub open spec fn builders_lost_text() -> &'static str {
    "Tasked builders lost — pick builders and retry"
}

/// Verdict on a placement preview: the first refusal among the base rule,
/// the ground, the factory exits and the metal-deposit rule, in that order;
/// a placement that passes them all is still refused once no tasked builder
/// is alive.
pub open spec fn spec_placement_verdict(
    rule: Result<(), &'static str>,
    ground: Result<(), &'static str>,
    exits: Result<(), &'static str>,
    metal: Result<(), &'static str>,
    tasked: usize,
) -> Result<(), &'static str> {
    if rule is Err {
        rule
    } else if ground is Err {
        ground
    } else if exits is Err {
        exits
    } else if metal is Err {
        metal
    } else if tasked == 0 {
        Err(builders_lost_text())
    } else {
        Ok(())
    }
}

/// See [`spec_placement_verdict`].
pub fn placement_verdict(
    rule: Result<(), &'static str>,
    ground: Result<(), &'static str>,
    exits: Result<(), &'static str>,
    metal: Result<(), &'static str>,
    tasked: usize,
) -> (r: Result<(), &'static str>)
    ensures
        r == spec_placement_verdict(rule, ground, exits, metal, tasked),
{
    if rule.is_err() {
        rule
    } else if ground.is_err() {
        ground
    } else if exits.is_err() {
        exits
    } else if metal.is_err() {
        metal
    } else if tasked == 0 {
        Err("Tasked builders lost — pick builders and retry")
    } else {
        Ok(())
    }
}

/// Tier and queue length of the inspected factory.
#[derive(Clone, Copy, Debug, PartialEq, Eq, Structural)]
pub struct FactoryInfo {
    pub tier: u8,
    pub queue_len: usize,
}

/// What the dock shows depends on.
#[derive(Clone, Copy, Debug, PartialEq, Eq, Structural)]
pub struct DockState {
    /// The viewer may command (a human player, match running).
    pub allowed: bool,
    /// Selected builders of the viewed team.
    pub builders: usize,
    /// The inspected building is the viewer's own and selected.
    pub editable: bool,
    /// The inspected factory's tier and queue length, when its team's data
    /// may be shown.
    pub factory: Option<FactoryInfo>,
    /// The inspected entity is a construction site.
    pub site: bool,
    /// Selected units.
    pub selected_units: usize,
}

/// Whether the viewer may edit the inspected building.
pub fn editable(own: bool, allowed: bool, building_selected: bool) -> (r: bool)
    ensures
        r == (own && allowed && building_selected),
{
    own && allowed && building_selected
}

pub open spec fn spec_button_shown(action: DockAction, d: DockState) -> bool {
    match action {
        DockAction::Build(_) => d.allowed && d.builders > 0,
        DockAction::Produce(kind) => d.editable && (d.factory matches Some(f) && spec_tier(kind) <= f.tier),
        DockAction::Cancel(i) => d.factory matches Some(f) && i < f.queue_len,
        DockAction::CancelSite => d.editable && d.site,
        DockAction::Command(_) => d.allowed && d.selected_units > 0,
    }
}

/// Whether a dock button is displayed.
pub fn button_shown(action: DockAction, d: DockState) -> (r: bool)
    ensures
        r == spec_button_shown(action, d),
{
    match action {
        DockAction::Build(_) => d.allowed && d.builders > 0,
        DockAction::Produce(kind) => {
            d.editable && match d.factory {
                Some(f) => kind.tier() <= f.tier,
                None => false,
            }
        },
        DockAction::Cancel(i) => match d.factory {
            Some(f) => i < f.queue_len,
            None => false,
        },
        DockAction::CancelSite => d.editable && d.site,
        DockAction::Command(_) => d.allowed && d.selected_units > 0,
    }
}

/// Dock panels.
#[derive(Clone, Copy, Debug, PartialEq, Eq, Structural)]
pub enum DockPanel {
    Factory,
    SiteButton,
    Queue,
}

/// Whether a dock panel is displayed.
pub fn panel_shown(panel: DockPanel, d: DockState) -> (r: bool)
    ensures
        r == match panel {
            DockPanel::Factory => d.editable && d.factory is Some && !d.site,
            DockPanel::SiteButton => d.editable && d.site,
            DockPanel::Queue => d.factory is Some,
        },
{
    match panel {
        DockPanel::Factory => d.editable && d.factory.is_some() && !d.site,
        DockPanel::SiteButton => d.editable && d.site,
        DockPanel::Queue => d.factory.is_some(),
    }
}

/// Headline of the dock.
#[derive(Clone, Copy, Debug, PartialEq, Eq, Structural)]
pub enum DockHeader {
    /// "READ ONLY | inspect the match"
    ReadOnly,
    /// Construction controls for the selected builders; `busy` when the
    /// team already has a site.
    Construction { busy: bool },
    /// "PRODUCTION | choose a unit"
    Production,
    /// "ORDERS | right-click destination / target"
    Orders,
    /// "Select your Commander to start building."
    Start,
}

pub open spec fn spec_header(d: DockState, busy: bool) -> DockHeader {
    if !d.allowed {
        DockHeader::ReadOnly
    } else if d.builders > 0 {
        DockHeader::Construction { busy }
    } else if d.factory is Some {
        DockHeader::Production
    } else if d.selected_units > 0 {
        DockHeader::Orders
    } else {
        DockHeader::Start
    }
}

/// Headline of the dock; `busy` says the viewed team has a site.
pub fn dock_header(d: DockState, busy: bool) -> (r: DockHeader)
    ensures
        r == spec_header(d, busy),
{
    if !d.allowed {
        DockHeader::ReadOnly
    } else if d.builders > 0 {
        DockHeader::Construction { busy }
    } else if d.factory.is_some() {
        DockHeader::Production
    } else if d.selected_units > 0 {
        DockHeader::Orders
    } else {
        DockHeader::Start
    }
}

/// Hint line under the dock.
#[derive(Clone, Copy, Debug, PartialEq, Eq, Structural)]
pub enum DockContext {
    AttackMove,
    Patrol,
    Guard,
    /// The placement's own message.
    Placement,
    /// Rally and cancel hint of an editable factory.
    Rally,
    /// "F1 help | F3 debug"
    Help,
}

pub open spec fn spec_context(pending: PendingOrder, placement_message: bool, d: DockState) -> DockContext {
    match pending {
        PendingOrder::AttackMove => DockContext::AttackMove,
        PendingOrder::Patrol => DockContext::Patrol,
        PendingOrder::Guard => DockContext::Guard,
        PendingOrder::Unarmed => if placement_message && d.allowed {
            DockContext::Placement
        } else if d.factory is Some && d.editable {
            DockContext::Rally
        } else {
            DockContext::Help
        },
    }
}

/// Hint line: an armed targeting mode wins, then a placement message, then
/// the factory hint. `placement_message` says the placement has one.
pub fn dock_context(pending: PendingOrder, placement_message: bool, d: DockState) -> (r: DockContext)
    ensures
        r == spec_context(pending, placement_message, d),
{
    match pending {
        PendingOrder::AttackMove => DockContext::AttackMove,
        PendingOrder::Patrol => DockContext::Patrol,
        PendingOrder::Guard => DockContext::Guard,
        PendingOrder::Unarmed => {
            if placement_message && d.allowed {
                DockContext::Placement
            } else if d.factory.is_some() && d.editable {
                DockContext::Rally
            } else {
                DockContext::Help
            }
        },
    }
}

/// A spectator cannot change anything through the dock: no button has an
/// effect, and every mutating button but the queue rows is hidden.
pub proof fn spectators_cannot_mutate(action: DockAction, any_units: bool, building: Option<(u64, bool)>, builders: usize, d: DockState)
    requires
        !d.allowed,
        !d.editable,
    ensures
        spec_dock_effect(false, action, any_units, building, builders) == DockEffect::Ignore,
        !(action is Cancel) ==> !spec_button_shown(action, d),
{
}

/// With commands allowed and some unit selected, the order buttons arm, in
/// dock order, attack-move, patrol and guard; the fourth holds every
/// selected unit and any later one stops them. With no unit selected an
/// order button does nothing.
pub proof fn order_buttons_follow_the_dock(c: u8, building: Option<(u64, bool)>, builders: usize)
    ensures
        spec_dock_effect(true, DockAction::Command(0), true, building, builders) == DockEffect::Arm(
            PendingOrder::AttackMove,
        ),
        spec_dock_effect(true, DockAction::Command(1), true, building, builders) == DockEffect::Arm(
            PendingOrder::Patrol,
        ),
        spec_dock_effect(true, DockAction::Command(2), true, building, builders) == DockEffect::Arm(
            PendingOrder::Guard,
        ),
        spec_dock_effect(true, DockAction::Command(3), true, building, builders) == DockEffect::HoldAll,
        c >= 4 ==> spec_dock_effect(true, DockAction::Command(c), true, building, builders) == DockEffect::StopAll,
        spec_dock_effect(true, DockAction::Command(c), false, building, builders) == DockEffect::Ignore,
{
}

/// A build button starts placing that kind with the selected builders, or
/// asks for a builder when none is selected.
pub proof fn build_buttons_need_a_builder(kind: BuildingKind, any_units: bool, building: Option<(u64, bool)>, builders: usize)
    ensures
        builders == 0 ==> spec_dock_effect(true, DockAction::Build(kind), any_units, building, builders)
            == DockEffect::NeedBuilder,
        builders > 0 ==> spec_dock_effect(true, DockAction::Build(kind), any_units, building, builders)
            == DockEffect::StartPlacement(kind),
{
}

/// Production and job cancelling act on the selected finished building,
/// tearing down acts on the selected site; with no such building they do
/// nothing.
pub proof fn building_buttons_act_on_the_selection(
    kind: UnitKind,
    index: usize,
    any_units: bool,
    building: Option<(u64, bool)>,
    builders: usize,
)
    ensures
        building matches Some((_, false)) ==> spec_dock_effect(true, DockAction::Produce(kind), any_units, building, builders)
            == DockEffect::Produce(building.unwrap().0, kind),
        building matches Some((_, false)) ==> spec_dock_effect(true, DockAction::Cancel(index), any_units, building, builders)
            == DockEffect::CancelJob(building.unwrap().0, index),
        building matches Some((_, false)) ==> spec_dock_effect(true, DockAction::CancelSite, any_units, building, builders)
            == DockEffect::Ignore,
        building matches Some((_, true)) ==> spec_dock_effect(true, DockAction::CancelSite, any_units, building, builders)
            == DockEffect::CancelSite(building.unwrap().0),
        building matches Some((_, true)) ==> spec_dock_effect(true, DockAction::Produce(kind), any_units, building, builders)
            == DockEffect::Ignore,
        building matches Some((_, true)) ==> spec_dock_effect(true, DockAction::Cancel(index), any_units, building, builders)
            == DockEffect::Ignore,
        building is None ==> spec_dock_effect(true, DockAction::Produce(kind), any_units, building, builders)
            == DockEffect::Ignore,
        building is None ==> spec_dock_effect(true, DockAction::Cancel(index), any_units, building, builders)
            == DockEffect::Ignore,
        building is None ==> spec_dock_effect(true, DockAction::CancelSite, any_units, building, builders)
            == DockEffect::Ignore,
{
}

/// A placement is refused for the first failing check among the base rule,
/// the ground, the factory exits and the metal-deposit rule, in that order,
/// with that check's reason; when all pass it is accepted exactly while a
/// tasked builder is alive, and refused for the lost builders otherwise.
pub proof fn placement_refusals_come_in_order(
    rule: Result<(), &'static str>,
    ground: Result<(), &'static str>,
    exits: Result<(), &'static str>,
    metal: Result<(), &'static str>,
    tasked: usize,
)
    ensures
        ({
            let r = spec_placement_verdict(rule, ground, exits, metal, tasked);
            &&& rule is Err ==> r == rule
            &&& (rule is Ok && ground is Err) ==> r == ground
            &&& (rule is Ok && ground is Ok && exits is Err) ==> r == exits
            &&& (rule is Ok && ground is Ok && exits is Ok && metal is Err) ==> r == metal
            &&& (rule is Ok && ground is Ok && exits is Ok && metal is Ok) ==> (r is Ok <==> tasked > 0)
            &&& (rule is Ok && ground is Ok && exits is Ok && metal is Ok && tasked == 0) ==> (r matches Err(m)
                && m@ == "Tasked builders lost — pick builders and retry"@)
            &&& r is Ok ==> rule is Ok && ground is Ok && exits is Ok && metal is Ok && tasked > 0
        }),
{
}

} // verus!
