use rust_rts::game_over::{check_match, decide_winner, MatchResult};

#[test]
fn no_commanders_anywhere_never_ends() {
    assert_eq!(decide_winner(0, 0, false), MatchResult::default());
}

#[test]
fn last_commander_down_decides() {
    assert_eq!(
        decide_winner(0, 1, true),
        MatchResult {
            over: true,
            winner: Some(1),
            draw: false,
        }
    );
    assert_eq!(
        decide_winner(2, 0, true),
        MatchResult {
            over: true,
            winner: Some(0),
            draw: false,
        }
    );
    assert_eq!(
        decide_winner(0, 0, true),
        MatchResult {
            over: true,
            winner: None,
            draw: true,
        }
    );
    assert!(!decide_winner(1, 1, true).over);
}

#[test]
fn banner_text_names_winner() {
    let result = decide_winner(0, 3, true);
    assert!(result.banner().contains("RED WINS"));
    assert!(result.banner().contains('R'));
    assert!(decide_winner(0, 0, true).banner().contains("DRAW"));
    assert!(decide_winner(1, 1, true).banner().is_empty());
}

#[test]
fn periodic_check_without_commanders_stays_open() {
    let (result, seen) = check_match(&MatchResult::default(), false, &vec![]);
    assert_eq!(result, MatchResult::default());
    assert!(!seen);
}

#[test]
fn periodic_check_decides_and_stays_final() {
    let (result, seen) = check_match(&MatchResult::default(), false, &vec![0, 1]);
    assert!(seen && !result.over);
    let (result, seen) = check_match(&result, seen, &vec![1]);
    assert_eq!(result.winner, Some(1));
    assert!(result.over);
    // A finished match never changes again.
    let (again, _) = check_match(&result, seen, &vec![0]);
    assert_eq!(again, result);
}

#[test]
fn blue_banner_exact_text() {
    assert_eq!(
        decide_winner(1, 0, true).banner(),
        "BLUE WINS — enemy commander eliminated\nPress R to restart"
    );
}
