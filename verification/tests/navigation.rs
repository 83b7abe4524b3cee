use rust_rts::navigation::budget::{
    batch_size, plan_outcome, plans_serially, NavigationStats, PlanOutcome, PATHS_PER_FRAME,
    SERIAL_PATH_THRESHOLD,
};
use rust_rts::navigation::grid::{count_blocked, key_points_connected, SplitMix64, MAP_SEED};
use rust_rts::navigation::repair::{assign_slots, spiral_clear_cell, REPAIR_RINGS, SCOUT_REPAIR_RINGS};
use rust_rts::navigation::route::{drop_straight, expand, trace_route};

#[test]
fn splitmix_matches_reference_stream() {
    // Reference outputs of splitmix64 seeded with 0.
    let mut rng = SplitMix64(0);
    assert_eq!(rng.next(), 0xe220a8397b1dcdaf);
    assert_eq!(rng.next(), 0x6e789e6aa1b965f4);
    assert_eq!(rng.next(), 0x06c45d188009454f);
}

#[test]
fn splitmix_is_deterministic_per_seed() {
    let mut a = SplitMix64(MAP_SEED);
    let mut b = SplitMix64(MAP_SEED);
    for _ in 0..100 {
        assert_eq!(a.next(), b.next());
    }
    let mut c = SplitMix64(MAP_SEED + 1);
    assert_ne!(SplitMix64(MAP_SEED).next(), c.next());
}

#[test]
fn unit_bits_are_53_bits_of_the_next_output() {
    let mut a = SplitMix64(7);
    let mut b = SplitMix64(7);
    let bits = a.next_unit_bits();
    assert_eq!(bits, b.next() >> 11);
    assert!(bits < (1u64 << 53));
    assert_eq!(a.0, b.0);
}

fn grid(rows: &[&str]) -> (Vec<bool>, usize) {
    let width = rows.len();
    let mut cells = Vec::new();
    for row in rows {
        assert_eq!(row.len(), width);
        cells.extend(row.chars().map(|c| c == '.'));
    }
    (cells, width)
}

#[test]
fn open_map_is_connected() {
    let (walkable, width) = grid(&["....", "....", "....", "...."]);
    assert!(key_points_connected(&walkable, width, &vec![Some(0), Some(15), Some(6)]));
    assert_eq!(count_blocked(&walkable), 0);
}

#[test]
fn wall_splits_key_points() {
    let (walkable, width) = grid(&["..#.", "..#.", "..#.", "..#."]);
    assert!(!key_points_connected(&walkable, width, &vec![Some(0), Some(3)]));
    assert!(key_points_connected(&walkable, width, &vec![Some(0), Some(13)]));
    assert_eq!(count_blocked(&walkable), 4);
}

#[test]
fn detour_around_obstacle_counts() {
    let (walkable, width) = grid(&[".#...", ".#.#.", ".#.#.", ".#.#.", "...#."]);
    assert!(key_points_connected(&walkable, width, &vec![Some(0), Some(24)]));
}

#[test]
fn diagonal_contact_is_not_a_passage() {
    let (walkable, width) = grid(&[".#", "#."]);
    assert!(!key_points_connected(&walkable, width, &vec![Some(0), Some(3)]));
}

#[test]
fn blocked_or_off_map_key_point_fails() {
    let (walkable, width) = grid(&["...", ".#.", "..."]);
    assert!(!key_points_connected(&walkable, width, &vec![Some(0), Some(4)]));
    assert!(!key_points_connected(&walkable, width, &vec![Some(0), None]));
    assert!(key_points_connected(&walkable, width, &vec![Some(8)]));
}

#[test]
fn row_edges_do_not_wrap() {
    // Cell 2 (end of row 0) and cell 3 (start of row 1) are not neighbours.
    let (walkable, width) = grid(&["..#", ".##", "###"]);
    let mut w = walkable.clone();
    w[3] = true;
    w[2] = true;
    w[0] = false;
    w[1] = false;
    assert!(!key_points_connected(&w, width, &vec![Some(2), Some(3)]));
}

#[test]
fn planner_budget_and_outcomes() {
    assert_eq!(batch_size(5), 5);
    assert_eq!(batch_size(1000), PATHS_PER_FRAME);
    assert!(plans_serially(SERIAL_PATH_THRESHOLD - 1));
    assert!(!plans_serially(SERIAL_PATH_THRESHOLD));
    assert_eq!(plan_outcome(true, false, false, false), PlanOutcome::Routed);
    assert_eq!(plan_outcome(false, true, false, true), PlanOutcome::Retry);
    assert_eq!(plan_outcome(false, true, true, false), PlanOutcome::Retry);
    assert_eq!(plan_outcome(false, true, true, true), PlanOutcome::Dropped);
    assert_eq!(plan_outcome(false, false, false, false), PlanOutcome::Dropped);
}

#[test]
fn stats_count_routes_and_failures() {
    let mut stats = NavigationStats::default();
    stats.record_frame(&vec![
        PlanOutcome::Routed,
        PlanOutcome::Retry,
        PlanOutcome::Dropped,
        PlanOutcome::Routed,
    ]);
    assert_eq!(stats.planned, 2);
    assert_eq!(stats.failed, 1);
    assert_eq!(stats.last_planned, 4);
    stats.record_frame(&vec![]);
    assert_eq!(stats.last_planned, 0);
    assert_eq!(stats.planned, 2);
}

use rust_rts::navigation::scratch::{PathScratch, NO_PARENT};

#[test]
fn path_scratch_reuses_full_grid_buffers_and_resets_touched_cells() {
    let mut scratch: PathScratch<f32> = PathScratch::new();
    scratch.prepare(57_600);
    scratch.set_node(42, 12.0, 7);
    assert_eq!(scratch.cost(42), Some(12.0));
    assert_eq!(scratch.parent(42), 7);
    assert_eq!(scratch.touched_count(), 1);
    scratch.prepare(57_600);
    assert_eq!(scratch.len(), 57_600);
    assert!(scratch.cost(42).is_none());
    assert_eq!(scratch.parent(42), NO_PARENT);
    assert_eq!(scratch.touched_count(), 0);
}

#[test]
fn path_scratch_touches_each_cell_once() {
    let mut scratch: PathScratch<u32> = PathScratch::new();
    scratch.prepare(10);
    scratch.set_node(3, 5, 2);
    scratch.set_node(3, 4, 1);
    assert_eq!(scratch.touched_count(), 1);
    assert_eq!(scratch.cost(3), Some(4));
    scratch.prepare(20);
    assert_eq!(scratch.len(), 20);
    assert!(scratch.cost(3).is_none());
}

use rust_rts::navigation::grid::replace_dynamic;

#[test]
fn dynamic_obstacles_replace_only_the_tail() {
    let mut obstacles = vec![1, 2, 3, 10, 11];
    replace_dynamic(&mut obstacles, 2, &vec![20, 21, 22]);
    assert_eq!(obstacles, vec![1, 2, 3, 20, 21, 22]);
    replace_dynamic(&mut obstacles, 3, &vec![]);
    assert_eq!(obstacles, vec![1, 2, 3]);
    replace_dynamic(&mut obstacles, 0, &vec![7]);
    assert_eq!(obstacles, vec![1, 2, 3, 7]);
}

// 3x3 grid, cells numbered row by row; the walk starts at the centre (1, 1).
fn only(cell: usize) -> Vec<bool> {
    let mut accept = vec![false; 9];
    accept[cell] = true;
    accept
}

#[test]
fn spiral_walks_columns_south_then_north_before_the_side_rows() {
    // Ring 1 order: (-1,-1) (-1,1) (0,-1) (0,1) (1,-1) (1,1) (-1,0) (1,0).
    let mut all = vec![true; 9];
    all[4] = false;
    assert_eq!(spiral_clear_cell(&all, 3, 1, 1, 1), Some(0));
    let mut accept = vec![false; 9];
    accept[6] = true;
    accept[3] = true;
    // (-1,1) is cell 6 and comes before (-1,0), cell 3.
    assert_eq!(spiral_clear_cell(&accept, 3, 1, 1, 1), Some(6));
    accept[1] = true;
    // (0,-1), cell 1, comes after (-1,1) but before the side rows.
    assert_eq!(spiral_clear_cell(&accept, 3, 1, 1, 1), Some(6));
    assert_eq!(spiral_clear_cell(&only(1), 3, 1, 1, 1), Some(1));
    assert_eq!(spiral_clear_cell(&only(5), 3, 1, 1, 1), Some(5));
}

#[test]
fn spiral_skips_the_centre_and_stops_at_its_last_ring() {
    assert_eq!(spiral_clear_cell(&only(4), 3, 1, 1, 1), None);
    // From the corner (0, 0) the far corner is two rings out.
    assert_eq!(spiral_clear_cell(&only(8), 3, 0, 0, 1), None);
    assert_eq!(spiral_clear_cell(&only(8), 3, 0, 0, 2), Some(8));
    assert_eq!(spiral_clear_cell(&only(8), 3, 0, 0, 0), None);
}

#[test]
fn spiral_ignores_cells_off_the_grid() {
    // A centre outside the grid still finds the cells it reaches.
    assert_eq!(spiral_clear_cell(&only(0), 3, -1, -1, 1), Some(0));
    assert_eq!(spiral_clear_cell(&only(2), 3, -1, -1, 1), None);
    assert_eq!(spiral_clear_cell(&only(2), 3, -1, -1, REPAIR_RINGS), Some(2));
    assert!(SCOUT_REPAIR_RINGS < REPAIR_RINGS);
}

#[test]
fn formation_keeps_free_own_cells_and_sends_the_rest_to_the_nearest() {
    let free = vec![true, true, true, false];
    let own = vec![Some(0), Some(0), None];
    let keys = vec![vec![0, 5, 1, 0], vec![0, 5, 1, 0], vec![9, 3, 3, 0]];
    // Slot 1 wanted cell 0, already given: cell 2 is nearer than cell 1.
    // Cell 3 is nearest to every slot but blocked.
    assert_eq!(assign_slots(&own, &keys, &free), Some(vec![0, 2, 1]));
}

#[test]
fn formation_breaks_ties_by_lower_index_and_skips_blocked_own_cells() {
    let free = vec![true, true, false, true];
    let own = vec![Some(2), Some(9)];
    let keys = vec![vec![4, 4, 0, 4], vec![7, 7, 7, 7]];
    assert_eq!(assign_slots(&own, &keys, &free), Some(vec![0, 1]));
}

#[test]
fn formation_fails_when_bodies_outnumber_free_cells() {
    let free = vec![true, false, true];
    let keys = vec![vec![0, 0, 0]; 3];
    assert_eq!(assign_slots(&vec![None; 2], &keys[..2].to_vec(), &free), Some(vec![0, 2]));
    assert_eq!(assign_slots(&vec![None; 3], &keys, &free), None);
    assert_eq!(assign_slots(&vec![], &vec![], &free), Some(vec![]));
}

#[test]
fn spiral_prefers_the_nearest_ring_over_earlier_walk_order() {
    // 5x5 grid, centre (2, 2): cell 0 opens ring 2, cell 13 closes ring 1.
    let mut accept = vec![false; 25];
    accept[0] = true;
    accept[13] = true;
    assert_eq!(spiral_clear_cell(&accept, 5, 2, 2, 2), Some(13));
    accept[13] = false;
    assert_eq!(spiral_clear_cell(&accept, 5, 2, 2, 2), Some(0));
}

#[test]
fn expansion_visits_sides_then_diagonals_without_cutting_corners() {
    let open = vec![true; 9];
    assert_eq!(expand(&open, &open, &open, 3, 4), vec![3, 5, 1, 7, 0, 6, 2, 8]);
    let mut walkable = vec![true; 9];
    walkable[3] = false;
    assert_eq!(expand(&walkable, &open, &open, 3, 4), vec![5, 1, 7, 2, 8]);
    // A hull that does not fit cell 5 neither enters it nor brushes past it.
    let mut fits = vec![true; 9];
    fits[5] = false;
    assert_eq!(expand(&open, &fits, &fits, 3, 4), vec![3, 1, 7, 0, 6]);
    assert_eq!(expand(&open, &open, &open, 3, 0), vec![1, 3, 4]);
}

#[test]
fn routes_follow_parent_chains_back_to_the_start() {
    let mut scratch: PathScratch<u32> = PathScratch::new();
    scratch.prepare(9);
    scratch.set_node(4, 0, 4);
    scratch.set_node(5, 1, 4);
    scratch.set_node(8, 2, 5);
    assert_eq!(trace_route(&scratch, 4, 8), Some(vec![4, 5, 8]));
    assert_eq!(trace_route(&scratch, 4, 4), Some(vec![4]));
    // A goal the search never reached has no chain.
    assert_eq!(trace_route(&scratch, 4, 2), None);
    // A loop that never reaches the start is rejected.
    scratch.set_node(0, 1, 1);
    scratch.set_node(1, 1, 0);
    assert_eq!(trace_route(&scratch, 4, 0), None);
}

#[test]
fn straight_runs_collapse_to_their_turns() {
    assert_eq!(drop_straight(&vec![0, 1, 2, 3, 7, 11]), vec![0, 3, 11]);
    assert_eq!(drop_straight(&vec![4]), vec![4]);
    assert_eq!(drop_straight(&vec![]), Vec::<usize>::new());
    assert_eq!(drop_straight(&vec![0, 4, 8, 7]), vec![0, 8, 7]);
}
