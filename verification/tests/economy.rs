use rust_rts::economy::{site_contributors, status_text, BuilderProbe};
use rust_rts::orders::UnitOrder;

type P = (f32, f32, f32);

fn probe(entity: u64, team: u8, in_range: bool, order: UnitOrder<P>) -> BuilderProbe<P> {
    BuilderProbe {
        entity,
        team,
        in_range,
        order,
    }
}

#[test]
fn only_tasked_builders_in_range_count() {
    let site = 100;
    let builders = vec![
        probe(1, 0, true, UnitOrder::Build { site }),
        probe(2, 0, true, UnitOrder::Idle),
        probe(3, 0, false, UnitOrder::Build { site }),
        probe(4, 0, true, UnitOrder::Guard { target: 1 }),
        probe(5, 1, true, UnitOrder::Build { site }),
        probe(6, 0, true, UnitOrder::Guard { target: 2 }),
        probe(7, 0, true, UnitOrder::Guard { target: 7 }),
        probe(8, 0, true, UnitOrder::Build { site: 101 }),
    ];
    assert_eq!(
        site_contributors(site, 0, &builders),
        vec![true, false, false, true, false, false, false, false]
    );
}

#[test]
fn guarding_an_out_of_range_builder_assists_nothing() {
    let site = 100;
    let builders = vec![
        probe(3, 0, false, UnitOrder::Build { site }),
        probe(4, 0, true, UnitOrder::Guard { target: 3 }),
    ];
    assert_eq!(site_contributors(site, 0, &builders), vec![false, false]);
    // Once the builder walks into range both work the site.
    let arrived = vec![
        probe(3, 0, true, UnitOrder::Build { site }),
        probe(4, 0, true, UnitOrder::Guard { target: 3 }),
    ];
    assert_eq!(site_contributors(site, 0, &arrived), vec![true, true]);
}

#[test]
fn guard_assist_stacks_on_direct_builder() {
    let site = 9;
    let builders = vec![
        probe(1, 0, true, UnitOrder::Build { site }),
        probe(2, 0, true, UnitOrder::Guard { target: 1 }),
        probe(3, 0, true, UnitOrder::Guard { target: 1 }),
    ];
    assert_eq!(site_contributors(site, 0, &builders), vec![true, true, true]);
    // Moving the direct builder away (a new order) stalls everybody.
    let moved = vec![
        probe(1, 0, true, UnitOrder::Move { destination: (0.0, 0.0, 0.0) }),
        probe(2, 0, true, UnitOrder::Guard { target: 1 }),
    ];
    assert_eq!(site_contributors(site, 0, &moved), vec![false, false]);
}

#[test]
fn status_line_priorities() {
    assert_eq!(status_text(true, true, false, true), "SHORTAGE: metal + energy");
    assert_eq!(status_text(true, false, true, true), "SHORTAGE: metal");
    assert_eq!(status_text(false, true, false, false), "SHORTAGE: energy");
    assert_eq!(status_text(false, false, true, false), "Complete");
    assert_eq!(
        status_text(false, false, false, false),
        "WAITING FOR BUILDER: move one in range"
    );
    assert_eq!(status_text(false, false, false, true), "Working");
}
