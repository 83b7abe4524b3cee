//! End of match: a team left without a living commander loses.
use crate::session::{spec_team_name, ViewState};
use vstd::prelude::*;

verus! {

/// Outcome of the match. `over` blocks player orders and the AI.
#[derive(Clone, Copy, Debug, PartialEq, Eq, Structural)]
pub struct MatchResult {
    pub over: bool,
    pub winner: Option<u8>,
    pub draw: bool,
}

pub open spec fn undecided() -> MatchResult {
    MatchResult { over: false, winner: None, draw: false }
}

/// Who wins given the living commanders per team. `seen` is true once any
/// commander has been seen alive (scenarios without commanders never end).
pub open spec fn spec_decide_winner(alive_blue: usize, alive_red: usize, seen: bool) -> MatchResult {
    if !seen {
        undecided()
    } else if alive_blue == 0 && alive_red == 0 {
        MatchResult { over: true, winner: None, draw: true }
    } else if alive_blue == 0 {
        MatchResult { over: true, winner: Some(1), draw: false }
    } else if alive_red == 0 {
        MatchResult { over: true, winner: Some(0), draw: false }
    } else {
        undecided()
    }
}

pub open spec fn spec_banner(r: MatchResult) -> Seq<char> {
    if !r.over {
        Seq::empty()
    } else if r.draw {
        "DRAW — both commanders down\nPress R to restart"@
    } else {
        match r.winner {
            Some(team) => spec_team_name(team) + " WINS — enemy commander eliminated\nPress R to restart"@,
            None => Seq::empty(),
        }
    }
}

impl Default for MatchResult {
    fn default() -> (r: Self)
        ensures
            r == undecided(),
    {
        MatchResult { over: false, winner: None, draw: false }
    }
}

impl MatchResult {
    /// Banner text: empty while the match runs.
    pub fn banner(&self) -> (r: String)
        ensures
            r@ == spec_banner(*self),
    {
        if !self.over {
            return String::new();
        }
        if self.draw {
            String::from_str("DRAW — both commanders down\nPress R to restart")
        } else {
            match self.winner {
                Some(team) => {
                    let mut text = String::from_str(ViewState::team_name(team));
                    text.append(" WINS — enemy commander eliminated\nPress R to restart");
                    text
                },
                None => String::new(),
            }
        }
    }
}

/// Who wins given the living commanders per team (see [`spec_decide_winner`]).
pub fn decide_winner(alive_blue: usize, alive_red: usize, seen: bool) -> (r: MatchResult)
    ensures
        r == spec_decide_winner(alive_blue, alive_red, seen),
{
    if !seen {
        return MatchResult::default();
    }
    if alive_blue == 0 && alive_red == 0 {
        MatchResult { over: true, winner: None, draw: true }
    } else if alive_blue == 0 {
        MatchResult { over: true, winner: Some(1), draw: false }
    } else if alive_red == 0 {
        MatchResult { over: true, winner: Some(0), draw: false }
    } else {
        MatchResult::default()
    }
}

/// Living commanders of team `team` among `teams` (one entry per living
/// commander).
pub open spec fn count_team(teams: Seq<u8>, team: u8) -> nat
    decreases teams.len(),
{
    if teams.len() == 0 {
        0
    } else {
        count_team(teams.drop_last(), team) + if teams.last() == team { 1nat } else { 0nat }
    }
}

/// One periodic check: `result` and `seen` are the previous state,
/// `living` holds the team of every living commander. A finished match
/// stays finished; a match where no commander was ever seen never ends.
pub open spec fn spec_check(result: MatchResult, seen: bool, living: Seq<u8>) -> (MatchResult, bool) {
    if result.over {
        (result, seen)
    } else {
        let blue = count_team(living, 0);
        let red = count_team(living, 1);
        let now_seen = seen || blue + red > 0;
        if !now_seen {
            (result, now_seen)
        } else {
            (spec_decide_winner(blue as usize, red as usize, now_seen), now_seen)
        }
    }
}

proof fn lemma_count_bounded(teams: Seq<u8>, team: u8)
    ensures
        count_team(teams, team) <= teams.len(),
    decreases teams.len(),
{
    if teams.len() > 0 {
        lemma_count_bounded(teams.drop_last(), team);
    }
}

/// Periodic match-end check (see [`spec_check`]).
pub fn check_match(result: &MatchResult, seen: bool, living: &Vec<u8>) -> (r: (MatchResult, bool))
    ensures
        r == spec_check(*result, seen, living@),
{
    if result.over {
        return (*result, seen);
    }
    let mut blue: usize = 0;
    let mut red: usize = 0;
    let mut i: usize = 0;
    while i < living.len()
        invariant
            i <= living@.len(),
            blue == count_team(living@.take(i as int), 0),
            red == count_team(living@.take(i as int), 1),
            blue + red <= i,
        decreases living@.len() - i,
    {
        assert(living@.take(i + 1).drop_last() =~= living@.take(i as int));
        if living[i] == 0 {
            blue = blue + 1;
        } else if living[i] == 1 {
            red = red + 1;
        }
        i = i + 1;
    }
    assert(living@.take(i as int) =~= living@);
    let now_seen = seen || blue + red > 0;
    if !now_seen {
        return (*result, now_seen);
    }
    (decide_winner(blue, red, now_seen), now_seen)
}

/// A finished match stays finished, whatever later checks observe.
pub proof fn finished_match_is_final(result: MatchResult, seen: bool, living: Seq<u8>)
    requires
        result.over,
    ensures
        spec_check(result, seen, living).0 == result,
{
}

/// Without any commander ever seen alive the match never ends.
pub proof fn no_commanders_never_end(alive_blue: usize, alive_red: usize)
    ensures
        !spec_decide_winner(alive_blue, alive_red, false).over,
{
}

/// While both teams keep a commander the match goes on; once it is over,
/// there is either a draw or exactly one winner, the team with commanders.
pub proof fn outcome_is_consistent(alive_blue: usize, alive_red: usize, seen: bool)
    ensures
        alive_blue > 0 && alive_red > 0 ==> !spec_decide_winner(alive_blue, alive_red, seen).over,
        spec_decide_winner(alive_blue, alive_red, seen).over ==> (spec_decide_winner(
            alive_blue,
            alive_red,
            seen,
        ).draw <==> spec_decide_winner(alive_blue, alive_red, seen).winner is None),
        spec_decide_winner(alive_blue, alive_red, seen).winner == Some(0u8) ==> alive_blue > 0
            && alive_red == 0,
        spec_decide_winner(alive_blue, alive_red, seen).winner == Some(1u8) ==> alive_red > 0
            && alive_blue == 0,
{
}

} // verus!
