//! Whose perspective the screen shows and what it may reveal.
use vstd::prelude::*;

verus! {

/// The viewed team and whether fog of war hides what that team cannot see.
#[derive(Clone, Copy, Debug, PartialEq, Eq, Structural)]
pub struct ViewState {
    pub team: u8,
    pub fog_on: bool,
}

pub open spec fn spec_team_name(team: u8) -> Seq<char> {
    if team == 0 {
        "BLUE"@
    } else if team == 1 {
        "RED"@
    } else {
        "NEUTRAL"@
    }
}

impl Default for ViewState {
    /// Blue perspective with fog on.
    fn default() -> (r: Self)
        ensures
            r.team == 0,
            r.fog_on,
    {
        ViewState { team: 0, fog_on: true }
    }
}

impl ViewState {
    /// Display name of a team.
    pub fn team_name(team: u8) -> (r: &'static str)
        ensures
            r@ == spec_team_name(team),
    {
        if team == 0 {
            "BLUE"
        } else if team == 1 {
            "RED"
        } else {
            "NEUTRAL"
        }
    }

    /// A team's private data (orders, economy, AI state) may be shown when
    /// fog is off or when it is the viewed team's own.
    pub fn permits_private_data(&self, team: u8) -> (r: bool)
        ensures
            r == (!self.fog_on || team == self.team),
    {
        !self.fog_on || team == self.team
    }
}

} // verus!
