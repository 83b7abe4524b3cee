use rust_rts::session::ViewState;
use rust_rts::ui::debug::{diagnostics_fallback, DebugSettings, DebugTool, Section};
use rust_rts::orders::PendingOrder;
use rust_rts::ui::industry::{capture_pointer, map_input_allowed, rally_targets, MapInput, PointerFrame};

#[test]
fn opening_does_not_enable_tools_and_tools_are_independent() {
    let mut settings = DebugSettings {
        open: true,
        ..Default::default()
    };
    assert_eq!(settings.count(), 0);
    settings.toggle(DebugTool::Navigation);
    settings.toggle(DebugTool::Inspector);
    settings.open = false;
    assert_eq!(settings.count(), 2);
    assert!(!settings.on(DebugTool::Units));
    settings.toggle(DebugTool::Navigation);
    assert!(settings.on(DebugTool::Inspector));
}

#[test]
fn filters_cannot_bypass_fog() {
    let settings = DebugSettings {
        team: Some(1),
        ..Default::default()
    };
    assert!(!settings.allows(&ViewState::default(), 1));
    assert!(settings.allows(
        &ViewState {
            team: 0,
            fog_on: false
        },
        1
    ));
}

fn frame(over_panel: bool, pressed_now: bool, held: bool) -> PointerFrame {
    PointerFrame {
        match_over: false,
        player_controls: true,
        over_panel,
        pressed_now,
        held,
        placing: false,
    }
}

#[test]
fn ui_pointer_capture_lasts_through_release() {
    let mut input = MapInput::default();
    // Press on a hovered panel.
    capture_pointer(&mut input, frame(true, true, true));
    assert!(input.blocked);
    // Pointer leaves the panel while the button is held.
    capture_pointer(&mut input, frame(false, false, true));
    assert!(input.blocked);
    // Release: still blocked on the release frame.
    capture_pointer(&mut input, frame(false, false, false));
    assert!(input.blocked);
    // Next frame the map is free again.
    capture_pointer(&mut input, frame(false, false, false));
    assert!(!input.blocked);
}

#[test]
fn full_view_counts_as_one_tool() {
    let settings = DebugSettings {
        full_view: true,
        ..Default::default()
    };
    assert_eq!(settings.count(), 1);
}

#[test]
fn spectators_and_finished_matches_never_command() {
    let mut input = MapInput::default();
    let mut f = frame(false, false, false);
    f.player_controls = false;
    f.placing = true;
    assert!(capture_pointer(&mut input, f));
    assert!(!map_input_allowed(&input));
    let mut input = MapInput::default();
    let mut f = frame(false, false, false);
    f.match_over = true;
    assert!(capture_pointer(&mut input, f));
    assert!(!input.commands_allowed);
}

#[test]
fn armed_placement_blocks_selection_clicks() {
    let mut input = MapInput::default();
    let mut f = frame(false, false, false);
    f.placing = true;
    assert!(!capture_pointer(&mut input, f));
    assert!(input.blocked);
    assert!(!map_input_allowed(&input));
}

#[test]
fn cancelled_gesture_blocks_this_frame() {
    let mut input = MapInput::default();
    input.cancel_gesture();
    assert!(input.blocked && !input.captured);
}

#[test]
fn diagnostics_sections_follow_tools_filters_and_fog() {
    let mut settings = DebugSettings::default();
    for tool in [DebugTool::Economy, DebugTool::Knowledge, DebugTool::Performance, DebugTool::Inspector] {
        settings.toggle(tool);
    }
    let open = ViewState { team: 0, fog_on: false };
    assert_eq!(
        settings.sections(&open),
        vec![
            Section::Performance,
            Section::Economy(0),
            Section::Economy(1),
            Section::Knowledge(0),
            Section::Knowledge(1),
            Section::Inspector,
        ]
    );
    let fogged = ViewState { team: 1, fog_on: true };
    assert_eq!(
        settings.sections(&fogged),
        vec![Section::Performance, Section::Economy(1), Section::Knowledge(1), Section::Inspector]
    );
    settings.team = Some(0);
    assert_eq!(settings.sections(&fogged), vec![Section::Performance, Section::Inspector]);
    assert_eq!(DebugSettings::default().sections(&open), vec![]);
}

#[test]
fn diagnostics_text_falls_back_without_sections() {
    assert_eq!(diagnostics_fallback(0, 0), Some("No tools enabled."));
    assert_eq!(diagnostics_fallback(2, 0), Some("Overlays enabled.\nNo data for this perspective/filter."));
    assert_eq!(diagnostics_fallback(2, 1), None);
}

#[test]
fn rally_clicks_move_only_the_viewed_teams_selected_factories() {
    let input = MapInput::default();
    let teams = vec![0, 1, 0];
    assert_eq!(rally_targets(true, &input, PendingOrder::Unarmed, false, true, true, 0, &teams), vec![true, false, true]);
    // Selected units take the click, armed orders and blocked ground ignore it.
    assert_eq!(rally_targets(true, &input, PendingOrder::Unarmed, true, true, true, 0, &teams), vec![false; 3]);
    assert_eq!(rally_targets(true, &input, PendingOrder::Patrol, false, true, true, 0, &teams), vec![false; 3]);
    assert_eq!(rally_targets(true, &input, PendingOrder::Unarmed, false, true, false, 0, &teams), vec![false; 3]);
    let spectator = MapInput { commands_allowed: false, ..MapInput::default() };
    assert_eq!(rally_targets(true, &spectator, PendingOrder::Unarmed, false, true, true, 0, &teams), vec![false; 3]);
}
