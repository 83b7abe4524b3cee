use rust_rts::benchmark::checksum::{fold_checksum, run_checksum, sort_health, CaseKey, ChecksumLedger};
use rust_rts::benchmark::cli::Workload;

fn reference(position_words: &[u64], health: &[(u32, u32)]) -> u64 {
    let mut sorted = health.to_vec();
    sorted.sort_unstable();
    let mut checksum = 0xcbf29ce484222325u64;
    for value in position_words {
        checksum = (checksum ^ value).wrapping_mul(0x100000001b3);
    }
    for (id, bits) in sorted {
        for value in [id as u64, bits as u64] {
            checksum = (checksum ^ value).wrapping_mul(0x100000001b3);
        }
    }
    checksum
}

#[test]
fn health_sorts_by_id_then_bits() {
    assert_eq!(
        sort_health(&vec![(3, 1), (1, 9), (3, 0), (2, 5), (1, 9)]),
        vec![(1, 9), (1, 9), (2, 5), (3, 0), (3, 1)]
    );
    assert!(sort_health(&vec![]).is_empty());
}

#[test]
fn checksum_matches_fnv_fold() {
    let words = vec![1, 0x4000_0000, 0, 0x3f80_0000];
    let health = vec![(7, 100), (2, 50)];
    assert_eq!(run_checksum(&words, &health), reference(&words, &health));
    assert_eq!(fold_checksum(&vec![]), 0xcbf29ce484222325);
}

#[test]
fn checksum_ignores_health_listing_order() {
    let words = vec![5, 6, 7, 8];
    assert_eq!(
        run_checksum(&words, &vec![(1, 2), (3, 4), (0, 9)]),
        run_checksum(&words, &vec![(0, 9), (3, 4), (1, 2)])
    );
    assert_ne!(
        run_checksum(&words, &vec![(1, 2)]),
        run_checksum(&words, &vec![(1, 3)])
    );
}

#[test]
fn repeats_must_reproduce_first_checksum() {
    let mut ledger = ChecksumLedger::new();
    let key = CaseKey {
        per_team: 100,
        workload: Workload::Skirmish,
        ticks: 600,
    };
    let other = CaseKey {
        per_team: 500,
        ..key
    };
    assert!(ledger.agrees(key, 42));
    assert!(ledger.agrees(key, 42));
    assert!(!ledger.agrees(key, 43));
    assert!(ledger.agrees(other, 43));
    assert!(ledger.agrees(key, 42));
}
