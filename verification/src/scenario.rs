//! Match setup: which scenario is played and how many units each team fields.
use vstd::prelude::*;

verus! {

/// Playground (one commander per team) or a benchmark army layout.
#[derive(Clone, Copy, Debug, PartialEq, Eq, Structural)]
pub enum Scenario {
    Playground,
    Benchmark { per_team: usize },
    Skirmish { per_team: usize },
}

pub open spec fn spec_per_team(s: Scenario) -> usize {
    match s {
        Scenario::Playground => 1,
        Scenario::Benchmark { per_team } => per_team,
        Scenario::Skirmish { per_team } => per_team,
    }
}

impl Default for Scenario {
    fn default() -> (r: Self)
        ensures
            r == Scenario::Playground,
    {
        Scenario::Playground
    }
}

impl Scenario {
    /// Units per team: the playground starts with the commander alone.
    pub fn per_team(self) -> (r: usize)
        ensures
            r == spec_per_team(self),
    {
        match self {
            Scenario::Playground => 1,
            Scenario::Benchmark { per_team } => per_team,
            Scenario::Skirmish { per_team } => per_team,
        }
    }

    /// Every scenario is a two-team match.
    pub fn teams(self) -> (r: usize)
        ensures
            r == 2,
    {
        match self {
            Scenario::Playground => 2,
            Scenario::Benchmark { .. } => 2,
            Scenario::Skirmish { .. } => 2,
        }
    }

    /// Team whose home an attack-move of `team` marches on: the other one.
    pub fn opponent(team: usize) -> (r: usize)
        requires
            team <= 1,
        ensures
            r == 1 - team,
    {
        1 - team
    }
}

} // verus!
