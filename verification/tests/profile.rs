use rust_rts::benchmark::profile::SystemProfile;

#[test]
fn spans_accumulate_means_and_ignore_stray_closes() {
    let mut profile = SystemProfile::default();
    profile.close("never-opened", 5);
    profile.open("a", 10);
    profile.close("a", 30);
    profile.open("a", 40);
    profile.close("a", 50);
    profile.open("b", 60);
    profile.close("b", 61);
    let means = profile.means();
    let a = means.iter().find(|(label, _)| *label == "a").unwrap().1;
    let b = means.iter().find(|(label, _)| *label == "b").unwrap().1;
    assert_eq!(a, 15);
    assert_eq!(b, 1);
    assert_eq!(means.len(), 2);
}

#[test]
fn stray_close_leaves_nothing_measured() {
    let mut profile = SystemProfile::default();
    profile.close("ghost", 100);
    assert!(profile.means().is_empty());
}

#[test]
fn nested_spans_close_latest_of_same_label() {
    let mut profile = SystemProfile::default();
    profile.open("outer", 0);
    profile.open("inner", 10);
    profile.open("inner", 20);
    profile.close("inner", 25);
    profile.close("inner", 40);
    profile.close("outer", 100);
    let means = profile.means();
    assert_eq!(means[0], ("inner", (5 + 30) / 2));
    assert_eq!(means[1], ("outer", 100));
}

#[test]
fn clock_going_backwards_counts_zero() {
    let mut profile = SystemProfile::default();
    profile.open("a", 50);
    profile.close("a", 20);
    assert_eq!(profile.means(), vec![("a", 0)]);
}
