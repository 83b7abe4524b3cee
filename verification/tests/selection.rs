use rust_rts::selection::{apply_pick, nearest_hit, Pick, Selectable};

fn unit(id: u64, team: u8, selected: bool, in_box: bool) -> Selectable {
    Selectable { id, team, selected, in_box }
}

#[test]
fn box_pick_replaces_the_selection_with_player_units_inside() {
    let units = vec![unit(1, 0, true, false), unit(2, 0, false, true), unit(3, 1, false, true)];
    assert_eq!(apply_pick(&units, Pick::Box, false, 0), vec![false, true, false]);
}

#[test]
fn shift_pick_adds_without_deselecting() {
    let units = vec![unit(1, 0, true, false), unit(2, 0, false, true), unit(3, 1, false, true)];
    assert_eq!(apply_pick(&units, Pick::Box, true, 0), vec![true, true, false]);
    assert_eq!(apply_pick(&units, Pick::Click(Some(2)), true, 0), vec![true, true, false]);
}

#[test]
fn click_selects_only_the_hit_player_unit() {
    let units = vec![unit(1, 0, true, true), unit(2, 0, false, false), unit(3, 1, false, false)];
    assert_eq!(apply_pick(&units, Pick::Click(Some(2)), false, 0), vec![false, true, false]);
    // Enemies cannot be click-selected; a miss clears the selection.
    assert_eq!(apply_pick(&units, Pick::Click(Some(3)), false, 0), vec![false, false, false]);
    assert_eq!(apply_pick(&units, Pick::Click(None), false, 0), vec![false, false, false]);
    assert_eq!(apply_pick(&vec![], Pick::Box, false, 0), Vec::<bool>::new());
}

#[test]
fn the_nearest_ray_hit_wins_and_misses_are_ignored() {
    let hits = vec![(1, None), (2, Some(5.0f32.to_bits())), (3, Some(2.0f32.to_bits())), (4, Some(2.0f32.to_bits()))];
    assert_eq!(nearest_hit(&hits), Some(3));
    assert_eq!(nearest_hit(&vec![(1, None), (2, None)]), None);
    assert_eq!(nearest_hit(&vec![]), None);
}
