use rust_rts::benchmark::setup::{crossing_slots, escort_roles, EscortRole};

#[test]
fn escort_wards_are_the_first_unit_of_each_team() {
    // (id, team), listed out of id order.
    let units = vec![(5, 1), (2, 0), (3, 1), (0, 0), (9, 0)];
    assert_eq!(
        escort_roles(&units),
        vec![
            (0, EscortRole::Patrol),
            (2, EscortRole::Guard(0)),
            (3, EscortRole::Patrol),
            (5, EscortRole::Guard(3)),
            (9, EscortRole::Guard(0)),
        ]
    );
    let patrols = escort_roles(&units).iter().filter(|(_, role)| *role == EscortRole::Patrol).count();
    assert_eq!(patrols, 2);
    assert_eq!(escort_roles(&vec![]), vec![]);
}

#[test]
fn crossing_goals_cycle_through_formation_slots() {
    let units = vec![(7, 1), (1, 0), (4, 0)];
    assert_eq!(crossing_slots(&units, 3, (true, true)), Ok(vec![(1, 1), (4, 1), (7, 1)]));
    assert_eq!(crossing_slots(&units, 5, (true, true)), Ok(vec![(1, 1), (4, 4), (7, 2)]));
    // The first unit in id order whose formation does not fit names its team.
    assert_eq!(crossing_slots(&units, 3, (true, false)), Err(1));
    assert_eq!(crossing_slots(&units, 3, (false, false)), Err(0));
}
