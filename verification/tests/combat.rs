use rust_rts::combat::{desync_slot, splash_targets, spread_hash, SplashCandidate};

fn desync_phase(id: u64) -> f32 {
    desync_slot(id) as f32 / 1000.0
}

fn candidate(bits: u64, team: u8, pos: (f32, f32, f32), hp: f32, impact: (f32, f32, f32), radius: f32) -> SplashCandidate {
    let (dx, dy, dz) = (pos.0 - impact.0, pos.1 - impact.1, pos.2 - impact.2);
    SplashCandidate {
        bits,
        team,
        hit: hp > 0.0 && dx * dx + dy * dy + dz * dz <= radius * radius,
    }
}

fn splash(list: &[(u64, u8, (f32, f32, f32), f32)], impact: (f32, f32, f32), radius: f32, team: u8) -> Vec<u64> {
    if !radius.is_finite() || radius <= 0.0 {
        return Vec::new();
    }
    let candidates: Vec<SplashCandidate> = list
        .iter()
        .map(|(bits, t, pos, hp)| candidate(*bits, *t, *pos, *hp, impact, radius))
        .collect();
    splash_targets(&candidates, team)
}

#[test]
fn splash_hits_live_enemies_only_sorted() {
    let origin = (0.0, 0.0, 0.0);
    let near = (2.0, 0.0, 0.0);
    let far = (50.0, 0.0, 0.0);
    let candidates = vec![
        (9u64, 0u8, origin, 100.0),
        (4u64, 1u8, near, 100.0),
        (7u64, 1u8, near, 100.0),
        (2u64, 1u8, far, 100.0),
        (5u64, 0u8, near, 100.0),
        (6u64, 1u8, near, 0.0),
    ];
    assert_eq!(splash(&candidates, origin, 3.0, 0), vec![4, 7]);
    assert!(splash(&candidates, origin, 0.0, 0).is_empty());
    assert!(splash(&candidates, far, 3.0, 0) == vec![2]);
}

#[test]
fn splash_sorts_and_dedups_ids() {
    let c = |bits| SplashCandidate { bits, team: 1, hit: true };
    assert_eq!(splash_targets(&vec![c(9), c(3), c(9), c(1)], 0), vec![1, 3, 9]);
    assert!(splash_targets(&vec![c(9)], 1).is_empty());
}

#[test]
fn desync_phases_are_deterministic_and_spread() {
    let phases: Vec<f32> = (1..=16).map(desync_phase).collect();
    assert!(phases.iter().all(|phase| (0.0..1.0).contains(phase)));
    assert_eq!(desync_phase(3), phases[2]);
    let mut sorted = phases.clone();
    sorted.sort_by(f32::total_cmp);
    assert!(sorted.last().unwrap() - sorted.first().unwrap() > 0.5);
    assert!(sorted.windows(2).all(|pair| pair[0] != pair[1]));
}

#[test]
fn desync_slot_exact_value() {
    assert_eq!(desync_slot(0), 0);
    assert_eq!(desync_slot(1), 0x9E3779B97F4A7C15u64 % 1000);
    assert_eq!(desync_slot(2), 0x9E3779B97F4A7C15u64.wrapping_mul(2) % 1000);
}

#[test]
fn spread_hash_is_deterministic_and_varied() {
    assert_eq!(spread_hash(12345, 100, 0), spread_hash(12345, 100, 0));
    assert_ne!(spread_hash(777, 42, 0), spread_hash(777, 42, 1));
    let mut seen = std::collections::BTreeSet::new();
    for tick in 0..200u64 {
        seen.insert(spread_hash(777, tick, 0));
    }
    assert!(seen.len() > 150);
}

#[test]
fn spread_hash_exact_value() {
    let mut h = 1u64
        .wrapping_mul(0x9E3779B97F4A7C15)
        .wrapping_add(2u64.wrapping_mul(0xBF58476D1CE4E5B9))
        .wrapping_add(4u64.wrapping_mul(0x94D049BB133111EB));
    h ^= h >> 30;
    h = h.wrapping_mul(0xBF58476D1CE4E5B9);
    h ^= h >> 27;
    h = h.wrapping_mul(0x94D049BB133111EB);
    h ^= h >> 31;
    assert_eq!(spread_hash(1, 2, 3), h);
}
