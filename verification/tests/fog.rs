use rust_rts::fog::{
    can_target, cell_index_of, concealment_write, shown, Visibility, VisibilityMap, FOG_COUNT,
    FOG_WIDTH,
};
use rust_rts::session::ViewState;

const HALF_SIZE: f32 = 300.0;
const FOG_CELL: f32 = 4.0;

fn cell(x: f32, z: f32) -> Option<usize> {
    if !x.is_finite() || !z.is_finite() {
        return None;
    }
    let col = ((x + HALF_SIZE) / FOG_CELL).floor() as i64;
    let row = ((z + HALF_SIZE) / FOG_CELL).floor() as i64;
    cell_index_of(col, row)
}

fn center(index: usize) -> (f32, f32) {
    let col = (index % FOG_WIDTH) as f32;
    let row = (index / FOG_WIDTH) as f32;
    (
        -HALF_SIZE + (col + 0.5) * FOG_CELL,
        -HALF_SIZE + (row + 0.5) * FOG_CELL,
    )
}

fn disc(at: (f32, f32), range: f32) -> Vec<usize> {
    if range <= 0.0 || !at.0.is_finite() || !at.1.is_finite() {
        return Vec::new();
    }
    let mut cells = Vec::new();
    for index in 0..FOG_COUNT {
        let c = center(index);
        let (dx, dz) = (c.0 - at.0, c.1 - at.1);
        if dx * dx + dz * dz <= range * range {
            cells.push(index);
        }
    }
    cells
}

fn revealed(team: u8, at: (f32, f32), range: f32) -> VisibilityMap {
    let mut map = VisibilityMap::default();
    map.mark_visible(team, &disc(at, range));
    map.end_tick();
    map
}

#[test]
fn grid_geometry_covers_map() {
    assert_eq!(FOG_WIDTH, 150);
    assert_eq!(FOG_COUNT, 22_500);
    assert!(cell(-HALF_SIZE, -HALF_SIZE).is_some());
    assert!(cell(HALF_SIZE - 0.1, HALF_SIZE - 0.1).is_some());
    assert!(cell(HALF_SIZE + 1.0, 0.0).is_none());
    assert!(cell(f32::NAN, 0.0).is_none());
}

#[test]
fn sight_disc_reveals_and_remembers() {
    let at = (20.0, -12.0);
    let map = revealed(0, at, 20.0);
    assert!(map.visible(0, cell(at.0, at.1)));
    assert!(map.explored(0, cell(at.0, at.1)));
    assert!(!map.visible(0, cell(at.0 + 40.0, at.1)));
    assert!(!map.explored(0, cell(at.0 + 40.0, at.1)));
    let blank = VisibilityMap::default();
    assert!(!blank.visible(0, cell(at.0, at.1)));
}

#[test]
fn teams_are_isolated() {
    let mut map = VisibilityMap::default();
    map.mark_visible(0, &disc((0.0, 0.0), 20.0));
    assert!(map.visible(0, cell(0.0, 0.0)));
    assert!(!map.visible(1, cell(0.0, 0.0)));
    assert!(!map.explored(1, cell(0.0, 0.0)));
}

#[test]
fn reveal_is_deterministic_and_edged() {
    let a = revealed(1, (7.0, 3.0), 15.0);
    let b = revealed(1, (7.0, 3.0), 15.0);
    assert_eq!(a.0[&1].visible, b.0[&1].visible);
    assert!(revealed(0, (0.0, 0.0), 17.0).visible(0, cell(15.0, 0.0)));
    let mut map = VisibilityMap::default();
    map.mark_visible(0, &disc((0.0, 0.0), 0.0));
    map.mark_visible(0, &disc((f32::INFINITY, 0.0), 10.0));
    assert!(!map.visible(0, cell(0.0, 0.0)));
}

#[test]
fn cell_index_is_row_major() {
    assert_eq!(cell_index_of(0, 0), Some(0));
    assert_eq!(cell_index_of(3, 2), Some(2 * 150 + 3));
    assert_eq!(cell_index_of(149, 149), Some(22_499));
    assert_eq!(cell_index_of(-1, 0), None);
    assert_eq!(cell_index_of(0, 150), None);
}

#[test]
fn new_tick_clears_sight_but_keeps_memory() {
    let mut map = revealed(0, (0.0, 0.0), 10.0);
    map.begin_tick();
    assert!(!map.visible(0, cell(0.0, 0.0)));
    assert!(map.explored(0, cell(0.0, 0.0)));
    map.end_tick();
    assert!(map.explored(0, cell(0.0, 0.0)));
}

#[test]
fn targeting_gate_opens_without_fog_data() {
    assert!(can_target(None, 0, None));
    let mut map = VisibilityMap::default();
    assert!(can_target(Some(&map), 1, cell(0.0, 0.0)));
    map.mark_visible(1, &vec![5]);
    assert!(!can_target(Some(&map), 1, cell(0.0, 0.0)));
    assert!(can_target(Some(&map), 1, Some(5)));
}

#[test]
fn concealment_shows_own_and_seen_only() {
    let view = ViewState::default();
    assert!(shown(&view, 0, false));
    assert!(!shown(&view, 1, false));
    assert!(shown(&view, 1, true));
    let spectator = ViewState { team: 0, fog_on: false };
    assert!(shown(&spectator, 1, false));
}

#[test]
fn concealment_writes_only_transitions() {
    assert_eq!(concealment_write(Some(Visibility::Inherited), true), None);
    assert_eq!(
        concealment_write(Some(Visibility::Inherited), false),
        Some(Visibility::Hidden)
    );
    assert_eq!(
        concealment_write(Some(Visibility::Hidden), true),
        Some(Visibility::Inherited)
    );
    assert_eq!(
        concealment_write(Some(Visibility::Visible), true),
        Some(Visibility::Inherited)
    );
    assert_eq!(concealment_write(None, true), None);
    assert_eq!(concealment_write(None, false), Some(Visibility::Hidden));
}
