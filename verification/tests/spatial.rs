use rust_rts::spatial::SpatialGrid;

#[test]
fn buckets_and_last_entries_follow_inserts() {
    let mut index: SpatialGrid<(i32, i32)> = SpatialGrid::new();
    index.insert(1, (0, 0), (1, 1));
    index.insert(2, (0, 0), (2, 2));
    index.insert(3, (-1, 4), (3, 3));
    assert_eq!(index.bucket_count((0, 0)), 2);
    assert_eq!(index.bucket_count((-1, 4)), 1);
    assert_eq!(index.bucket_count((4, -1)), 0);
    assert_eq!(index.position(2), Some((2, 2)));
    assert_eq!(index.position(9), None);
    // Re-inserting an entity keeps its last entry.
    index.insert(2, (5, 5), (9, 9));
    assert_eq!(index.position(2), Some((9, 9)));
}

#[test]
fn nearby_scan_lists_rows_south_to_north_and_skips_other_cells() {
    let mut index: SpatialGrid<u8> = SpatialGrid::new();
    index.insert(10, (1, 1), 0);
    index.insert(11, (0, 1), 0);
    index.insert(12, (0, 0), 0);
    index.insert(13, (1, 0), 0);
    index.insert(14, (7, 7), 0);
    let ids: Vec<u64> = index.nearby((0, 0), (1, 1)).iter().map(|(id, _)| *id).collect();
    assert_eq!(ids, vec![12, 13, 11, 10]);
    assert!(index.nearby((2, 2), (6, 6)).is_empty());
    assert!(index.nearby((1, 1), (0, 0)).is_empty());
    let far: Vec<u64> = index.nearby((7, 7), (7, 7)).iter().map(|(id, _)| *id).collect();
    assert_eq!(far, vec![14]);
}

#[test]
fn clearing_forgets_every_entry() {
    let mut index: SpatialGrid<u8> = SpatialGrid::new();
    index.insert(1, (i32::MIN, i32::MAX), 5);
    assert_eq!(index.nearby((i32::MIN, i32::MAX), (i32::MIN, i32::MAX)), vec![(1, 5)]);
    index.clear();
    assert_eq!(index.position(1), None);
    assert_eq!(index.bucket_count((i32::MIN, i32::MAX)), 0);
}

#[test]
fn holders_are_never_pushed_by_crowds() {
    let hold = rust_rts::orders::UnitOrder::<(i32, i32)>::HoldPosition;
    let moving = rust_rts::orders::UnitOrder::<(i32, i32)>::Move { destination: (1, 1) };
    assert!(!rust_rts::spatial::pushed_by_crowd(Some(&hold)));
    assert!(rust_rts::spatial::pushed_by_crowd(Some(&moving)));
    assert!(rust_rts::spatial::pushed_by_crowd::<(i32, i32)>(None));
}
