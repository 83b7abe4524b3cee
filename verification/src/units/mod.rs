//! Teams and unit identity.
pub mod archetype;

use vstd::prelude::*;

verus! {

/// Team membership of a unit or building.
#[derive(Clone, Copy, Debug, PartialEq, Eq, Hash, Structural)]
pub struct Team(pub u8);

/// The human player's team.
pub fn player_team() -> (r: Team)
    ensures
        r.0 == 0,
{
    Team(0)
}

impl Team {
    /// Any other team is hostile.
    pub fn is_enemy(self, other: Team) -> (r: bool)
        ensures
            r == (self.0 != other.0),
    {
        self.0 != other.0
    }
}

/// Stable identifier of the `index`-th unit of `team` when every team
/// fields `per_team` units: teams occupy consecutive id blocks.
pub fn unit_id(team: u32, per_team: u32, index: u32) -> (r: u32)
    requires
        index < per_team,
        (team + 1) * per_team <= u32::MAX,
    ensures
        r == team * per_team + index,
{
    proof {
        assert(team * per_team + index < (team + 1) * per_team) by (nonlinear_arith)
            requires index < per_team;
    }
    team * per_team + index
}

/// Enmity is symmetric and nobody is their own enemy.
pub proof fn enmity_is_symmetric_and_irreflexive(a: Team, b: Team)
    ensures
        (a.0 != b.0) == (b.0 != a.0),
        !(a.0 != a.0),
{
}

/// Distinct team/index pairs get distinct ids.
pub proof fn unit_ids_are_unique(t1: u32, i1: u32, t2: u32, i2: u32, per_team: u32)
    requires
        i1 < per_team,
        i2 < per_team,
        t1 != t2 || i1 != i2,
    ensures
        t1 * per_team + i1 != t2 * per_team + i2,
{
    if t1 == t2 {
    } else if t1 < t2 {
        assert(t1 * per_team + i1 < t2 * per_team + i2) by (nonlinear_arith)
            requires t1 < t2, i1 < per_team, t1 >= 0, i2 >= 0;
    } else {
        assert(t2 * per_team + i2 < t1 * per_team + i1) by (nonlinear_arith)
            requires t2 < t1, i2 < per_team, t2 >= 0, i1 >= 0;
    }
}

} // verus!
