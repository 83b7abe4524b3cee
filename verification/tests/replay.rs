use rust_rts::replay::{fnv1a_64, TickChecksums};

#[test]
fn combined_is_order_sensitive_and_ignores_rewinds() {
    let mut replay = TickChecksums::default();
    replay.push_tick(1, 0xAAAA);
    replay.push_tick(2, 0xBBBB);
    let first = replay.combined();
    assert_eq!(replay.len(), 2);
    replay.push_tick(2, 0xCCCC);
    replay.push_tick(0, 0xDDDD);
    assert_eq!(replay.len(), 2);
    assert_eq!(replay.combined(), first);
    let mut swapped = TickChecksums::default();
    swapped.push_tick(2, 0xBBBB);
    swapped.push_tick(3, 0xAAAA);
    assert_ne!(swapped.combined(), first);
}

#[test]
fn fnv1a_is_stable() {
    assert_eq!(fnv1a_64(b""), 0xcbf29ce484222325);
    assert_eq!(fnv1a_64(b"a"), fnv1a_64(b"a"));
    assert_ne!(fnv1a_64(b"a"), fnv1a_64(b"b"));
}

#[test]
fn fnv1a_known_vector() {
    // Published FNV-1a 64-bit value for "a".
    assert_eq!(fnv1a_64(b"a"), 0xaf63dc4c8601ec8c);
}

#[test]
fn empty_replay_combines_to_zero() {
    let replay = TickChecksums::default();
    assert!(replay.is_empty());
    assert_eq!(replay.combined(), 0);
}

#[test]
fn combined_single_entry_exact_value() {
    let mut replay = TickChecksums::default();
    replay.push_tick(1, 2);
    let word: u64 = 1u64.wrapping_add(2u64.rotate_left(1));
    let expected = (0xcbf29ce484222325u64 ^ word).wrapping_mul(0x100000001b3);
    assert_eq!(replay.combined(), expected);
}
