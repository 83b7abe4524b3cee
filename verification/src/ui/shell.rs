//! The presentation shell: whose perspective is shown, what the panels
//! toggle, and what the inspector may disclose about an entity.
use crate::orders::{PendingOrder, UnitOrder};
use crate::session::ViewState;
use crate::ui::debug::{tool_index, DebugSettings, DebugTool};
use vstd::prelude::*;

verus! {

pub open spec fn spec_order_name<P>(o: UnitOrder<P>) -> Seq<char> {
    match o {
        UnitOrder::Idle => "Idle"@,
        UnitOrder::Move { .. } => "Moving"@,
        UnitOrder::Attack { .. } => "Attacking"@,
        UnitOrder::AttackMove { .. } => "Attack-move"@,
        UnitOrder::HoldPosition => "Holding position"@,
        UnitOrder::Patrol { .. } => "Patrolling"@,
        UnitOrder::Guard { .. } => "Guarding"@,
        UnitOrder::Build { .. } => "Building"@,
    }
}

/// Human-readable name of an order.
pub fn order_name<P>(order: &UnitOrder<P>) -> (r: &'static str)
    ensures
        r@ == spec_order_name(*order),
{
    match order {
        UnitOrder::Idle => "Idle",
        UnitOrder::Move { .. } => "Moving",
        UnitOrder::Attack { .. } => "Attacking",
        UnitOrder::AttackMove { .. } => "Attack-move",
        UnitOrder::HoldPosition => "Holding position",
        UnitOrder::Patrol { .. } => "Patrolling",
        UnitOrder::Guard { .. } => "Guarding",
        UnitOrder::Build { .. } => "Building",
    }
}

/// An entity can be shown to the viewed team: it exists (`team` is its team,
/// `None` once it is gone), it is alive, and either its team's private data
/// may be shown or the viewed team sees it now.
pub fn entity_visible(view: &ViewState, team: Option<u8>, alive: bool, seen_by_view: bool) -> (r: bool)
    ensures
        r == (team matches Some(t) && alive && ((!view.fog_on || t == view.team) || seen_by_view)),
{
    match team {
        None => false,
        Some(t) => alive && (view.permits_private_data(t) || seen_by_view),
    }
}

/// How much the inspector tells about an entity.
#[derive(Clone, Copy, Debug, PartialEq, Eq, Structural)]
pub enum Disclosure {
    /// "No visible entity selected."
    Nothing,
    /// Name and health only: a visible enemy under fog.
    Public,
    /// Orders, production and the technical details too.
    Private,
}

pub open spec fn spec_disclosure(view: ViewState, team: u8, visible: bool) -> Disclosure {
    if !visible {
        Disclosure::Nothing
    } else if view.fog_on && team != view.team {
        Disclosure::Public
    } else {
        Disclosure::Private
    }
}

/// What the inspector may disclose about a `visible` entity of `team`.
pub fn disclosure(view: &ViewState, team: u8, visible: bool) -> (r: Disclosure)
    ensures
        r == spec_disclosure(*view, team, visible),
{
    if !visible {
        Disclosure::Nothing
    } else if !view.permits_private_data(team) {
        Disclosure::Public
    } else {
        Disclosure::Private
    }
}

/// Under fog, the inspector never shows another team's private data.
pub proof fn inspector_respects_fog(view: ViewState, team: u8, visible: bool)
    requires
        view.fog_on,
        team != view.team,
    ensures
        spec_disclosure(view, team, visible) != Disclosure::Private,
{
}

/// A button or key of the shell.
#[derive(Clone, Copy, Debug, PartialEq, Eq, Structural)]
pub enum ShellAction {
    Cancel,
    Debug,
    Help,
    Control,
    Take(u8),
    Release,
    Perspective(Option<u8>),
    FullView,
    Tool(DebugTool),
    Team(Option<u8>),
    SelectedOnly,
    Pause,
    Slower,
    Faster,
    ResetSpeed,
    Base(u8),
    Focus,
}

/// Simulation speed controls.
#[derive(Clone, Copy, Debug, PartialEq, Eq, Structural)]
pub enum SpeedAction {
    Pause,
    Slower,
    Faster,
    Reset,
}

/// Work an action leaves to the engine.
#[derive(Clone, Copy, Debug, PartialEq, Eq, Structural)]
pub enum ShellRequest {
    Nothing,
    /// Drop selection, pending order, placement, pointer gesture and the
    /// inspected entity.
    ClearTransients,
    /// Hand `team` to a human (`true`) or to the bot (`false`).
    Transfer(u8, bool),
    Speed(SpeedAction),
    /// Move the camera to the base of a team.
    FocusBase(u8),
    /// Move the camera to the inspected entity.
    FocusInspected,
}

/// Panel state of the shell.
#[derive(Clone, Copy, Debug, PartialEq, Eq, Structural)]
pub struct ShellState {
    pub help: bool,
    pub control_menu: bool,
    /// Spectator perspective: a team, or `None` for the full view.
    pub perspective: Option<u8>,
    pub initialized: bool,
    /// Session revision the shell last synchronised with.
    pub revision: u64,
}

impl Default for ShellState {
    fn default() -> (r: Self)
        ensures
            r == (ShellState { help: false, control_menu: false, perspective: None, initialized: false, revision: 0 }),
    {
        ShellState { help: false, control_menu: false, perspective: None, initialized: false, revision: 0 }
    }
}

/// The view derived from the session and the shell: a player always sees
/// through its own team's fog unless the full debug view is on; a
/// spectator sees its chosen perspective, or everything.
pub open spec fn spec_derive_view(player_team: Option<u8>, perspective: Option<u8>, full_view: bool) -> ViewState {
    let p = match player_team {
        Some(t) => Some(t),
        None => perspective,
    };
    ViewState {
        team: match p { Some(t) => t, None => 0 },
        fog_on: !full_view && p is Some,
    }
}

/// See [`spec_derive_view`].
pub fn derive_view(player_team: Option<u8>, perspective: Option<u8>, full_view: bool) -> (r: ViewState)
    ensures
        r == spec_derive_view(player_team, perspective, full_view),
{
    let p = match player_team {
        Some(t) => Some(t),
        None => perspective,
    };
    ViewState {
        team: match p {
            Some(t) => t,
            None => 0,
        },
        fog_on: !full_view && p.is_some(),
    }
}

/// Effect of one action on the shell, and the engine work it asks for.
/// `player_team` is the team a human controls right now (`None` for a
/// spectator) and `over` says whether the match has ended.
pub open spec fn spec_apply_action(
    shell: ShellState,
    action: ShellAction,
    player_team: Option<u8>,
    over: bool,
) -> (ShellState, ShellRequest) {
    match action {
        ShellAction::Cancel => (shell, ShellRequest::ClearTransients),
        ShellAction::Help => (ShellState { help: !shell.help, ..shell }, ShellRequest::Nothing),
        ShellAction::Control => (ShellState { control_menu: !shell.control_menu, ..shell }, ShellRequest::Nothing),
        ShellAction::FullView => (shell, ShellRequest::ClearTransients),
        ShellAction::Perspective(t) => if player_team is None {
            (ShellState { perspective: t, ..shell }, ShellRequest::ClearTransients)
        } else {
            (shell, ShellRequest::Nothing)
        },
        ShellAction::Take(team) => if !over {
            (shell, ShellRequest::Transfer(team, true))
        } else {
            (shell, ShellRequest::Nothing)
        },
        ShellAction::Release => if !over && player_team is Some {
            (shell, ShellRequest::Transfer(player_team->0, false))
        } else {
            (shell, ShellRequest::Nothing)
        },
        ShellAction::Pause => (shell, ShellRequest::Speed(SpeedAction::Pause)),
        ShellAction::Slower => (shell, ShellRequest::Speed(SpeedAction::Slower)),
        ShellAction::Faster => (shell, ShellRequest::Speed(SpeedAction::Faster)),
        ShellAction::ResetSpeed => (shell, ShellRequest::Speed(SpeedAction::Reset)),
        ShellAction::Base(team) => (shell, ShellRequest::FocusBase(team)),
        ShellAction::Focus => (shell, ShellRequest::FocusInspected),
        _ => (shell, ShellRequest::Nothing),
    }
}

/// Effect of one action on the diagnostics settings: `after` is `before`
/// with the toggled field changed, or unchanged.
pub open spec fn debug_after(before: DebugSettings, after: DebugSettings, action: ShellAction) -> bool {
    &&& after.open == (if action == ShellAction::Debug { !before.open } else { before.open })
    &&& after.tools@ == (match action {
        ShellAction::Tool(t) => before.tools@.update(tool_index(t), !before.tools@[tool_index(t)]),
        _ => before.tools@,
    })
    &&& after.team == (match action {
        ShellAction::Team(t) => t,
        _ => before.team,
    })
    &&& after.selected_only == (if action == ShellAction::SelectedOnly { !before.selected_only } else { before.selected_only })
    &&& after.full_view == (if action == ShellAction::FullView { !before.full_view } else { before.full_view })
}

impl ShellState {
    /// First frame: a spectator starts on the perspective the view was
    /// created with (none when fog is off).
    pub fn initialize(&mut self, view: &ViewState)
        ensures
            old(self).initialized ==> *final(self) == *old(self),
            !old(self).initialized ==> *final(self) == (ShellState {
                perspective: if view.fog_on { Some(view.team) } else { None },
                initialized: true,
                ..*old(self)
            }),
    {
        if !self.initialized {
            self.perspective = if view.fog_on {
                Some(view.team)
            } else {
                None
            };
            self.initialized = true;
        }
    }

    /// Applies one action (see [`spec_apply_action`]).
    pub fn apply_action(&mut self, debug: &mut DebugSettings, action: ShellAction, player_team: Option<u8>, over: bool) -> (r: ShellRequest)
        ensures
            (*final(self), r) == spec_apply_action(*old(self), action, player_team, over),
            debug_after(*old(debug), *final(debug), action),
    {
        match action {
            ShellAction::Cancel => ShellRequest::ClearTransients,
            ShellAction::Debug => {
                debug.open = !debug.open;
                ShellRequest::Nothing
            },
            ShellAction::Help => {
                self.help = !self.help;
                ShellRequest::Nothing
            },
            ShellAction::Control => {
                self.control_menu = !self.control_menu;
                ShellRequest::Nothing
            },
            ShellAction::Tool(t) => {
                debug.toggle(t);
                ShellRequest::Nothing
            },
            ShellAction::Team(t) => {
                debug.team = t;
                ShellRequest::Nothing
            },
            ShellAction::SelectedOnly => {
                debug.selected_only = !debug.selected_only;
                ShellRequest::Nothing
            },
            ShellAction::FullView => {
                debug.full_view = !debug.full_view;
                ShellRequest::ClearTransients
            },
            ShellAction::Perspective(t) => {
                if player_team.is_none() {
                    self.perspective = t;
                    ShellRequest::ClearTransients
                } else {
                    ShellRequest::Nothing
                }
            },
            ShellAction::Take(team) => {
                if !over {
                    ShellRequest::Transfer(team, true)
                } else {
                    ShellRequest::Nothing
                }
            },
            ShellAction::Release => {
                match player_team {
                    Some(team) => {
                        if !over {
                            ShellRequest::Transfer(team, false)
                        } else {
                            ShellRequest::Nothing
                        }
                    },
                    None => ShellRequest::Nothing,
                }
            },
            ShellAction::Pause => ShellRequest::Speed(SpeedAction::Pause),
            ShellAction::Slower => ShellRequest::Speed(SpeedAction::Slower),
            ShellAction::Faster => ShellRequest::Speed(SpeedAction::Faster),
            ShellAction::ResetSpeed => ShellRequest::Speed(SpeedAction::Reset),
            ShellAction::Base(team) => ShellRequest::FocusBase(team),
            ShellAction::Focus => ShellRequest::FocusInspected,
        }
    }

    /// After a change of who controls which team (a new session
    /// `revision`) the shell drops its transient state, closes the control
    /// menu and follows the new player's team. Returns whether transients
    /// must be cleared.
    pub fn sync_session(&mut self, revision: u64, player_team: Option<u8>) -> (r: bool)
        ensures
            r == (old(self).revision != revision),
            r ==> *final(self) == (ShellState { revision, control_menu: false, perspective: player_team, ..*old(self) }),
            !r ==> *final(self) == *old(self),
    {
        if self.revision != revision {
            self.revision = revision;
            self.control_menu = false;
            self.perspective = player_team;
            true
        } else {
            false
        }
    }
}

/// The end of a shell step. Once the match is over the armed order is
/// disarmed; otherwise it stays as it was. `inspected_visible` is `None`
/// when nothing is inspected, else whether the inspected entity is still
/// visible under the new view (see [`entity_visible`]). The second result
/// says whether the inspector must let go of its entity: exactly when one
/// is inspected and the new view hides it.
pub fn settle_shell(pending: PendingOrder, inspected_visible: Option<bool>, over: bool) -> (r: (PendingOrder, bool))
    ensures
        over ==> r.0 == PendingOrder::Unarmed,
        !over ==> r.0 == pending,
        r.1 == (inspected_visible == Some(false)),
{
    let next = if over {
        PendingOrder::Unarmed
    } else {
        pending
    };
    let drop_inspected = match inspected_visible {
        Some(visible) => !visible,
        None => false,
    };
    (next, drop_inspected)
}

/// Panels of the shell.
#[derive(Clone, Copy, Debug, PartialEq, Eq, Structural)]
pub enum Region {
    Debug,
    Help,
    Control,
    Spectator,
    Timing,
    Dock,
}

/// Whether a panel is displayed.
pub fn region_shown(region: Region, shell: &ShellState, debug: &DebugSettings, spectator: bool) -> (r: bool)
    ensures
        r == match region {
            Region::Debug => debug.open,
            Region::Help => shell.help,
            Region::Control => shell.control_menu,
            Region::Spectator => spectator,
            Region::Timing => spectator || debug.tools@[tool_index(DebugTool::Simulation)],
            Region::Dock => true,
        },
{
    match region {
        Region::Debug => debug.open,
        Region::Help => shell.help,
        Region::Control => shell.control_menu,
        Region::Spectator => spectator,
        Region::Timing => spectator || debug.on(DebugTool::Simulation),
        Region::Dock => true,
    }
}

/// Global counts (units of every team, projectiles, planner totals) are
/// shown only with fog off, no team filter and no selection filter.
pub fn global_totals_visible(view: &ViewState, debug: &DebugSettings) -> (r: bool)
    ensures
        r == (!view.fog_on && debug.team is None && !debug.selected_only),
{
    !view.fog_on && debug.team.is_none() && !debug.selected_only
}

/// A player never loses its own fog unless the full debug view is on, and
/// toggling the full view twice restores the view exactly.
pub proof fn full_view_override_is_reversible(player: u8, perspective: Option<u8>, full_view: bool)
    ensures
        !full_view ==> spec_derive_view(Some(player), perspective, full_view) == (ViewState { team: player, fog_on: true }),
        spec_derive_view(Some(player), perspective, !(!full_view)) == spec_derive_view(Some(player), perspective, full_view),
        spec_derive_view(Some(player), perspective, true).team == player,
{
}

} // verus!
