use rust_rts::orders::click::{
    hold_stop_key, pending_step, right_click_plan, targeting_hint, toggle_targeting, Assignment, ClickPlan, Command,
    HoldStop, PendingStep, SelectedUnit,
};
use rust_rts::orders::PendingOrder;
use rust_rts::session::ViewState;
use rust_rts::ui::debug::{DebugSettings, DebugTool};
use rust_rts::ui::industry::{
    button_shown, capture_pointer, dock_context, dock_effect, dock_header, editable, map_input_allowed,
    panel_shown, placement_verdict, DockAction, DockContext, DockEffect, DockHeader, DockPanel, DockState,
    FactoryInfo, MapInput, PointerFrame,
};
use rust_rts::ui::shell::{
    derive_view, disclosure, entity_visible, global_totals_visible, region_shown, Disclosure,
    Region, ShellAction, ShellRequest, ShellState, SpeedAction, settle_shell,
};
use rust_rts::economy::balance::BuildingKind;
use rust_rts::units::archetype::UnitKind;

#[test]
fn inspector_cannot_expose_hidden_enemy_and_override_is_reversible() {
    let honest = ViewState::default();
    // An enemy commander the viewed team does not see.
    assert!(!entity_visible(&honest, Some(1), true, false));
    assert_ne!(disclosure(&honest, 1, entity_visible(&honest, Some(1), true, false)), Disclosure::Private);
    let full = ViewState {
        fog_on: false,
        ..honest
    };
    assert_eq!(disclosure(&full, 1, entity_visible(&full, Some(1), true, false)), Disclosure::Private);
    assert_ne!(disclosure(&honest, 1, entity_visible(&honest, Some(1), true, false)), Disclosure::Private);
    // Gone: invisible even with fog off.
    assert!(!entity_visible(&full, None, true, false));
}

#[test]
fn seen_enemy_is_public_only() {
    let view = ViewState::default();
    assert!(entity_visible(&view, Some(1), true, true));
    assert_eq!(disclosure(&view, 1, true), Disclosure::Public);
    assert_eq!(disclosure(&view, 0, true), Disclosure::Private);
    assert!(!entity_visible(&view, Some(0), false, true));
}

#[test]
fn shell_actions_toggle_and_request() {
    let mut shell = ShellState::default();
    let mut debug = DebugSettings::default();
    shell.initialize(&ViewState::default());
    assert_eq!(shell.perspective, Some(0));
    assert!(shell.initialized);
    assert_eq!(shell.apply_action(&mut debug, ShellAction::Help, None, false), ShellRequest::Nothing);
    assert!(shell.help);
    assert_eq!(shell.apply_action(&mut debug, ShellAction::Tool(DebugTool::Routes), None, false), ShellRequest::Nothing);
    assert!(debug.on(DebugTool::Routes));
    assert_eq!(shell.apply_action(&mut debug, ShellAction::FullView, None, false), ShellRequest::ClearTransients);
    assert!(debug.full_view);
    assert_eq!(
        shell.apply_action(&mut debug, ShellAction::Perspective(Some(1)), None, false),
        ShellRequest::ClearTransients
    );
    assert_eq!(shell.perspective, Some(1));
    // A player cannot switch perspective.
    assert_eq!(
        shell.apply_action(&mut debug, ShellAction::Perspective(None), Some(0), false),
        ShellRequest::Nothing
    );
    assert_eq!(shell.perspective, Some(1));
    assert_eq!(shell.apply_action(&mut debug, ShellAction::Take(1), None, false), ShellRequest::Transfer(1, true));
    assert_eq!(shell.apply_action(&mut debug, ShellAction::Take(1), None, true), ShellRequest::Nothing);
    assert_eq!(shell.apply_action(&mut debug, ShellAction::Release, Some(0), false), ShellRequest::Transfer(0, false));
    assert_eq!(shell.apply_action(&mut debug, ShellAction::Release, None, false), ShellRequest::Nothing);
    assert_eq!(
        shell.apply_action(&mut debug, ShellAction::Pause, None, false),
        ShellRequest::Speed(SpeedAction::Pause)
    );
}

#[test]
fn session_change_resets_shell() {
    let mut shell = ShellState::default();
    shell.control_menu = true;
    assert!(shell.sync_session(3, Some(1)));
    assert_eq!(shell.revision, 3);
    assert!(!shell.control_menu);
    assert_eq!(shell.perspective, Some(1));
    assert!(!shell.sync_session(3, None));
}

#[test]
fn derived_view_keeps_player_fog() {
    assert_eq!(derive_view(Some(1), None, false), ViewState { team: 1, fog_on: true });
    assert_eq!(derive_view(Some(1), Some(0), true), ViewState { team: 1, fog_on: false });
    assert_eq!(derive_view(None, Some(0), false), ViewState { team: 0, fog_on: true });
    assert_eq!(derive_view(None, None, false), ViewState { team: 0, fog_on: false });
}

#[test]
fn panels_and_global_counts() {
    let shell = ShellState::default();
    let debug = DebugSettings::default();
    assert!(region_shown(Region::Dock, &shell, &debug, false));
    assert!(region_shown(Region::Timing, &shell, &debug, true));
    assert!(!region_shown(Region::Timing, &shell, &debug, false));
    assert!(!global_totals_visible(&ViewState::default(), &debug));
    assert!(global_totals_visible(&ViewState { team: 0, fog_on: false }, &debug));
    let filtered = DebugSettings { team: Some(0), ..Default::default() };
    assert!(!global_totals_visible(&ViewState { team: 0, fog_on: false }, &filtered));
}

fn unit(entity: u64, busy: bool, builder: bool) -> SelectedUnit {
    SelectedUnit { entity, busy, builder }
}

#[test]
fn right_click_attacks_guards_builds_or_moves() {
    let selected = vec![unit(1, true, false), unit(2, false, true)];
    match right_click_plan(PendingOrder::Unarmed, Some(9), Some(2), None, &selected, true) {
        ClickPlan::Assign(v) => assert_eq!(
            v,
            vec![
                Assignment { entity: 1, command: Command::Attack(9), queued: true },
                Assignment { entity: 2, command: Command::Attack(9), queued: false },
            ]
        ),
        other => panic!("{other:?}"),
    }
    match right_click_plan(PendingOrder::Unarmed, None, Some(2), None, &selected, false) {
        ClickPlan::Assign(v) => assert_eq!(v, vec![Assignment { entity: 1, command: Command::Guard(2), queued: false }]),
        other => panic!("{other:?}"),
    }
    // Guarding only itself falls through to the site, then the ground.
    let lone = vec![unit(2, false, true)];
    match right_click_plan(PendingOrder::Unarmed, None, Some(2), Some((7, true)), &lone, false) {
        ClickPlan::Assign(v) => assert_eq!(v, vec![Assignment { entity: 2, command: Command::Build(7), queued: false }]),
        other => panic!("{other:?}"),
    }
    assert!(matches!(
        right_click_plan(PendingOrder::Unarmed, None, Some(2), Some((7, false)), &lone, false),
        ClickPlan::Formation
    ));
    let no_builder = vec![unit(1, false, false)];
    assert!(matches!(
        right_click_plan(PendingOrder::Unarmed, None, None, Some((7, true)), &no_builder, false),
        ClickPlan::Formation
    ));
    assert!(matches!(
        right_click_plan(PendingOrder::Patrol, Some(9), None, None, &selected, false),
        ClickPlan::Disarm
    ));
    assert!(matches!(
        right_click_plan(PendingOrder::Unarmed, Some(9), None, None, &vec![], false),
        ClickPlan::Nothing
    ));
}

#[test]
fn targeting_keys_toggle() {
    assert_eq!(toggle_targeting(PendingOrder::Patrol, PendingOrder::Patrol, true), PendingOrder::Unarmed);
    assert_eq!(toggle_targeting(PendingOrder::Unarmed, PendingOrder::Guard, true), PendingOrder::Guard);
    assert_eq!(toggle_targeting(PendingOrder::Unarmed, PendingOrder::Guard, false), PendingOrder::Unarmed);
    assert_eq!(toggle_targeting(PendingOrder::Patrol, PendingOrder::AttackMove, true), PendingOrder::AttackMove);
}

#[test]
fn dock_buttons() {
    assert_eq!(dock_effect(true, DockAction::Command(0), true, None, 0), DockEffect::Arm(PendingOrder::AttackMove));
    assert_eq!(dock_effect(true, DockAction::Command(3), true, None, 0), DockEffect::HoldAll);
    assert_eq!(dock_effect(true, DockAction::Command(4), true, None, 0), DockEffect::StopAll);
    assert_eq!(dock_effect(true, DockAction::Command(1), false, None, 0), DockEffect::Ignore);
    assert_eq!(dock_effect(true, DockAction::Build(BuildingKind::Solar), false, None, 0), DockEffect::NeedBuilder);
    assert_eq!(
        dock_effect(true, DockAction::Build(BuildingKind::Solar), false, None, 2),
        DockEffect::StartPlacement(BuildingKind::Solar)
    );
    assert_eq!(
        dock_effect(true, DockAction::Produce(UnitKind::Scout), false, Some((5, false)), 0),
        DockEffect::Produce(5, UnitKind::Scout)
    );
    assert_eq!(dock_effect(true, DockAction::Produce(UnitKind::Scout), false, Some((5, true)), 0), DockEffect::Ignore);
    assert_eq!(dock_effect(true, DockAction::Cancel(2), false, Some((5, false)), 0), DockEffect::CancelJob(5, 2));
    assert_eq!(dock_effect(true, DockAction::CancelSite, false, Some((5, true)), 0), DockEffect::CancelSite(5));
    assert_eq!(dock_effect(true, DockAction::CancelSite, false, Some((5, false)), 0), DockEffect::Ignore);
}

#[test]
fn placement_verdict_reports_first_refusal() {
    assert_eq!(placement_verdict(Err("a"), Err("b"), Ok(()), Ok(()), 1), Err("a"));
    assert_eq!(placement_verdict(Ok(()), Err("b"), Err("c"), Ok(()), 1), Err("b"));
    assert_eq!(placement_verdict(Ok(()), Ok(()), Ok(()), Err("d"), 1), Err("d"));
    assert_eq!(
        placement_verdict(Ok(()), Ok(()), Ok(()), Ok(()), 0),
        Err("Tasked builders lost — pick builders and retry")
    );
    assert_eq!(placement_verdict(Ok(()), Ok(()), Ok(()), Ok(()), 2), Ok(()));
}

#[test]
fn spectator_cannot_mutate_units_factories_or_sites_through_ui_or_keys() {
    // The human hands team 0 to the bot: commands are no longer allowed.
    let mut input = MapInput::default();
    let frame = PointerFrame {
        match_over: false,
        player_controls: false,
        over_panel: false,
        pressed_now: false,
        held: false,
        placing: false,
    };
    capture_pointer(&mut input, frame);
    assert!(!map_input_allowed(&input));
    for action in [
        DockAction::Build(BuildingKind::Solar),
        DockAction::Produce(UnitKind::Scout),
        DockAction::Cancel(0),
        DockAction::Command(3),
        DockAction::Command(4),
    ] {
        assert_eq!(
            dock_effect(input.commands_allowed, action, true, Some((7, false)), 1),
            DockEffect::Ignore
        );
    }
}

fn dock(allowed: bool, own: bool) -> DockState {
    DockState {
        allowed,
        builders: 1,
        editable: editable(own, allowed, true),
        factory: Some(FactoryInfo { tier: 1, queue_len: 2 }),
        site: false,
        selected_units: 3,
    }
}

#[test]
fn dock_buttons_follow_permissions() {
    let player = dock(true, true);
    assert!(button_shown(DockAction::Build(BuildingKind::Solar), player));
    assert!(button_shown(DockAction::Produce(UnitKind::Scout), player));
    assert!(!button_shown(DockAction::Produce(UnitKind::HeavyTank2), player));
    assert!(button_shown(DockAction::Cancel(1), player));
    assert!(!button_shown(DockAction::Cancel(2), player));
    assert!(!button_shown(DockAction::CancelSite, player));
    assert!(panel_shown(DockPanel::Factory, player));
    assert!(panel_shown(DockPanel::Queue, player));
    let spectator = dock(false, true);
    assert!(!button_shown(DockAction::Build(BuildingKind::Solar), spectator));
    assert!(!button_shown(DockAction::Produce(UnitKind::Scout), spectator));
    assert!(!button_shown(DockAction::Command(0), spectator));
    assert!(!panel_shown(DockPanel::Factory, spectator));
    assert_eq!(dock_header(spectator, false), DockHeader::ReadOnly);
    assert_eq!(dock_header(player, true), DockHeader::Construction { busy: true });
    assert_eq!(dock_context(PendingOrder::Patrol, true, player), DockContext::Patrol);
    assert_eq!(dock_context(PendingOrder::Unarmed, true, player), DockContext::Placement);
    assert_eq!(dock_context(PendingOrder::Unarmed, false, player), DockContext::Rally);
    assert_eq!(dock_context(PendingOrder::Unarmed, true, spectator), DockContext::Help);
}

#[test]
fn armed_orders_issue_on_release_and_drop_on_escape() {
    let (guard, patrol) = (PendingOrder::Guard, PendingOrder::Patrol);
    assert_eq!(pending_step(guard, guard, true, false, true, true), PendingStep::Issue);
    assert_eq!(pending_step(guard, patrol, true, false, true, true), PendingStep::Ignore);
    assert_eq!(pending_step(guard, guard, true, true, true, true), PendingStep::Disarm);
    assert_eq!(pending_step(guard, guard, false, false, true, true), PendingStep::Disarm);
    assert_eq!(pending_step(guard, guard, true, false, false, true), PendingStep::Wait);
    assert_eq!(pending_step(guard, guard, true, false, true, false), PendingStep::Wait);
    // The attack-move handler serves whatever is armed.
    assert_eq!(pending_step(patrol, PendingOrder::AttackMove, true, false, true, true), PendingStep::Issue);
    assert_eq!(pending_step(PendingOrder::Unarmed, PendingOrder::AttackMove, true, false, true, true), PendingStep::Ignore);
}

#[test]
fn hold_wins_over_stop_and_needs_a_selection() {
    assert_eq!(hold_stop_key(true, true, true, true), Some(HoldStop::Hold));
    assert_eq!(hold_stop_key(true, true, false, true), Some(HoldStop::Stop));
    assert_eq!(hold_stop_key(true, true, false, false), None);
    assert_eq!(hold_stop_key(true, false, true, false), None);
    assert_eq!(hold_stop_key(false, true, true, false), None);
}

#[test]
fn hud_announces_the_armed_order() {
    assert_eq!(targeting_hint(PendingOrder::Unarmed), "");
    assert!(targeting_hint(PendingOrder::Patrol).starts_with("\nAWAITING PATROL"));
    assert!(targeting_hint(PendingOrder::Guard).contains("friendly unit"));
    assert!(targeting_hint(PendingOrder::AttackMove).contains("ATTACK-MOVE"));
}

#[test]
fn finished_match_disarms_the_pending_order() {
    assert_eq!(settle_shell(PendingOrder::Patrol, None, true), (PendingOrder::Unarmed, false));
    assert_eq!(settle_shell(PendingOrder::Guard, Some(true), true), (PendingOrder::Unarmed, false));
    assert_eq!(settle_shell(PendingOrder::AttackMove, None, false), (PendingOrder::AttackMove, false));
    assert_eq!(settle_shell(PendingOrder::Unarmed, None, false), (PendingOrder::Unarmed, false));
}

#[test]
fn hidden_inspected_entity_is_dropped() {
    assert_eq!(settle_shell(PendingOrder::Unarmed, Some(false), false), (PendingOrder::Unarmed, true));
    assert_eq!(settle_shell(PendingOrder::Patrol, Some(false), true), (PendingOrder::Unarmed, true));
    assert_eq!(settle_shell(PendingOrder::Patrol, Some(true), false), (PendingOrder::Patrol, false));
}
