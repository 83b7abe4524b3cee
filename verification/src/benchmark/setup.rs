//! Orders that start the measured part of a benchmark run.
//!
//! Units are taken in id order. A crossing sends each unit to a slot of the
//! formation laid out at the opposing spawn; an escort run makes the first
//! unit of each team a patrolling ward and has every other unit guard its
//! team's ward. Formations are laid out by the caller.
use crate::benchmark::checksum::{health_order, lemma_health_order_total, sort_health};
use vstd::prelude::*;

verus! {

broadcast use vstd::seq_lib::group_to_multiset_ensures;

/// Whether the formation of team `t` fits the map.
pub open spec fn team_fits(fits: (bool, bool), t: u32) -> bool {
    if t == 0 {
        fits.0
    } else {
        fits.1
    }
}

/// Role of a unit in an escort run.
#[derive(Clone, Copy, Debug, PartialEq, Eq, Structural)]
pub enum EscortRole {
    /// Patrols between its team's two points.
    Patrol,
    /// Guards the unit with this id.
    Guard(u32),
}

/// No unit before index `i` shares the team of unit `i`.
pub open spec fn leads_team(s: Seq<(u32, u32)>, i: int) -> bool {
    forall|k: int| 0 <= k < i ==> #[trigger] s[k].1 != s[i].1
}

/// Index of the first unit of team `t`.
#[verifier::opaque]
pub open spec fn team_head(s: Seq<(u32, u32)>, t: u32) -> int {
    choose|j: int| 0 <= j < s.len() && s[j].1 == t && forall|k: int| 0 <= k < j ==> #[trigger] s[k].1 != t
}

/// Role of unit `i` of the id-ordered units `s`.
#[verifier::opaque]
pub open spec fn spec_role(s: Seq<(u32, u32)>, i: int) -> EscortRole {
    if leads_team(s, i) {
        EscortRole::Patrol
    } else {
        EscortRole::Guard(s[team_head(s, s[i].1)].0)
    }
}

proof fn lemma_head_is(s: Seq<(u32, u32)>, t: u32, j: int)
    requires
        0 <= j < s.len(),
        s[j].1 == t,
        forall|k: int| 0 <= k < j ==> #[trigger] s[k].1 != t,
    ensures
        team_head(s, t) == j,
{
    reveal(team_head);
    let h = team_head(s, t);
    assert(0 <= h < s.len() && s[h].1 == t && forall|k: int| 0 <= k < h ==> #[trigger] s[k].1 != t);
    if h < j {
        assert(s[h].1 != t);
    }
    if j < h {
        assert(s[j].1 != t);
    }
}

proof fn lemma_sorted_units(units: Seq<(u32, u32)>)
    requires
        forall|i: int| 0 <= i < units.len() ==> #[trigger] units[i].1 < 2,
    ensures
        units.sort_by(health_order()).len() == units.len(),
        forall|i: int| 0 <= i < units.len() ==> #[trigger] units.sort_by(health_order()).contains(units[i]),
        forall|i: int|
            0 <= i < units.sort_by(health_order()).len() ==> #[trigger] units.sort_by(health_order())[i].1 < 2,
{
    let s = units.sort_by(health_order());
    lemma_health_order_total();
    units.lemma_sort_by_ensures(health_order());
    assert(units.to_multiset().len() == s.to_multiset().len());
    assert forall|i: int| 0 <= i < units.len() implies #[trigger] s.contains(units[i]) by {
        assert(units.contains(units[i]));
        assert(units.to_multiset().count(units[i]) > 0);
        assert(s.to_multiset().count(units[i]) > 0);
    }
    assert forall|i: int| 0 <= i < s.len() implies #[trigger] s[i].1 < 2 by {
        assert(s.contains(s[i]));
        assert(s.to_multiset().count(s[i]) > 0);
        assert(units.to_multiset().count(s[i]) > 0);
        assert(units.contains(s[i]));
    }
}

proof fn lemma_role_guard(s: Seq<(u32, u32)>, i: int, h: int)
    requires
        0 <= h < i < s.len(),
        team_head(s, s[i].1) == h,
        s[h].1 == s[i].1,
    ensures
        spec_role(s, i) == EscortRole::Guard(s[h].0),
{
    reveal(spec_role);
    assert(!leads_team(s, i));
}

proof fn lemma_role_patrol(s: Seq<(u32, u32)>, i: int)
    requires
        0 <= i < s.len(),
        forall|k: int| 0 <= k < i ==> #[trigger] s[k].1 != s[i].1,
    ensures
        spec_role(s, i) == EscortRole::Patrol,
        team_head(s, s[i].1) == i,
{
    reveal(spec_role);
    lemma_head_is(s, s[i].1, i);
}

/// Escort roles of `units` (id, team), listed in id order (id, then team,
/// for equal ids): the first unit of each team patrols, every other unit
/// guards the first unit of its own team.
pub fn escort_roles(units: &Vec<(u32, u32)>) -> (r: Vec<(u32, EscortRole)>)
    requires
        forall|i: int| 0 <= i < units@.len() ==> #[trigger] units@[i].1 < 2,
    ensures
        r@.len() == units@.len(),
        forall|i: int|
            0 <= i < r@.len() ==> #[trigger] r@[i] == (units@.sort_by(health_order())[i].0, spec_role(
                units@.sort_by(health_order()),
                i,
            )),
{
    let sorted = sort_health(units);
    let ghost s = units@.sort_by(health_order());
    proof {
        lemma_sorted_units(units@);
    }
    let mut head0: Option<u32> = None;
    let mut head1: Option<u32> = None;
    let ghost mut h0: int = 0;
    let ghost mut h1: int = 0;
    let mut out: Vec<(u32, EscortRole)> = Vec::new();
    let mut i: usize = 0;
    while i < sorted.len()
        invariant
            i <= s.len(),
            s == sorted@,
            forall|k: int| 0 <= k < s.len() ==> #[trigger] s[k].1 < 2,
            out@.len() == i,
            forall|k: int| 0 <= k < i ==> #[trigger] out@[k] == (s[k].0, spec_role(s, k)),
            head0 is None ==> forall|k: int| 0 <= k < i ==> #[trigger] s[k].1 != 0,
            head0 is Some ==> 0 <= h0 < i && team_head(s, 0) == h0 && s[h0].0 == head0->0 && s[h0].1 == 0,
            head1 is None ==> forall|k: int| 0 <= k < i ==> #[trigger] s[k].1 != 1,
            head1 is Some ==> 0 <= h1 < i && team_head(s, 1) == h1 && s[h1].0 == head1->0 && s[h1].1 == 1,
        decreases s.len() - i,
    {
        let (id, team) = sorted[i];
        let head = if team == 0 {
            head0
        } else {
            head1
        };
        let ghost h = if team == 0 {
            h0
        } else {
            h1
        };
        let role = match head {
            Some(ward) => {
                proof {
                    lemma_role_guard(s, i as int, h);
                }
                EscortRole::Guard(ward)
            },
            None => {
                proof {
                    lemma_role_patrol(s, i as int);
                }
                if team == 0 {
                    head0 = Some(id);
                    proof {
                        h0 = i as int;
                    }
                } else {
                    head1 = Some(id);
                    proof {
                        h1 = i as int;
                    }
                }
                EscortRole::Patrol
            },
        };
        out.push((id, role));
        i = i + 1;
    }
    out
}

/// Number of patrolling units among the first `k` roles.
pub open spec fn patrols(roles: Seq<(u32, EscortRole)>, k: int) -> int
    decreases k,
{
    if k <= 0 {
        0
    } else {
        patrols(roles, k - 1) + if roles[k - 1].1 == EscortRole::Patrol {
            1int
        } else {
            0
        }
    }
}

/// Some unit among the first `k` is on team `t`.
pub open spec fn team_present(s: Seq<(u32, u32)>, t: u32, k: int) -> bool {
    exists|j: int| 0 <= j < k && #[trigger] s[j].1 == t
}

proof fn lemma_patrols_count_teams(s: Seq<(u32, u32)>, k: int)
    requires
        0 <= k <= s.len(),
        forall|i: int| 0 <= i < s.len() ==> #[trigger] s[i].1 < 2,
    ensures
        patrols(Seq::new(s.len(), |i: int| (s[i].0, spec_role(s, i))), k) == (if team_present(s, 0, k) {
            1int
        } else {
            0
        }) + (if team_present(s, 1, k) {
            1int
        } else {
            0
        }),
    decreases k,
{
    reveal(spec_role);
    let roles = Seq::new(s.len(), |i: int| (s[i].0, spec_role(s, i)));
    if k > 0 {
        lemma_patrols_count_teams(s, k - 1);
        let t = s[k - 1].1;
        if leads_team(s, k - 1) {
            assert(!team_present(s, t, k - 1));
            assert(team_present(s, t, k)) by {
                assert(s[k - 1].1 == t);
            }
            assert(team_present(s, (1 - t) as u32, k) == team_present(s, (1 - t) as u32, k - 1));
        } else {
            let j = choose|j: int| 0 <= j < k - 1 && #[trigger] s[j].1 == s[k - 1].1;
            assert(team_present(s, t, k - 1));
            assert(team_present(s, t, k));
            assert(team_present(s, (1 - t) as u32, k) == team_present(s, (1 - t) as u32, k - 1));
        }
    }
}

/// An escort run of two teams has exactly two patrolling wards, so every
/// unit but two guards.
pub proof fn escort_has_one_ward_per_team(units: Seq<(u32, u32)>, a: int, b: int)
    requires
        forall|i: int| 0 <= i < units.len() ==> #[trigger] units[i].1 < 2,
        0 <= a < units.len(),
        0 <= b < units.len(),
        units[a].1 == 0,
        units[b].1 == 1,
    ensures
        ({
            let s = units.sort_by(health_order());
            patrols(Seq::new(s.len(), |i: int| (s[i].0, spec_role(s, i))), s.len() as int) == 2
        }),
{
    let s = units.sort_by(health_order());
    lemma_sorted_units(units);
    assert(s.contains(units[a]));
    assert(s.contains(units[b]));
    let ja = choose|j: int| 0 <= j < s.len() && s[j] == units[a];
    let jb = choose|j: int| 0 <= j < s.len() && s[j] == units[b];
    assert(team_present(s, 0, s.len() as int)) by {
        assert(s[ja].1 == 0);
    }
    assert(team_present(s, 1, s.len() as int)) by {
        assert(s[jb].1 == 1);
    }
    lemma_patrols_count_teams(s, s.len() as int);
}

/// Unit `i` of the id-ordered units `s` is the first whose team's
/// formation does not fit.
pub open spec fn first_unfit(s: Seq<(u32, u32)>, fits: (bool, bool), i: int) -> bool {
    &&& 0 <= i < s.len()
    &&& !team_fits(fits, s[i].1)
    &&& forall|k: int| 0 <= k < i ==> team_fits(fits, #[trigger] s[k].1)
}

/// Formation slot of unit `id` when each team fields `per_team` units.
pub open spec fn crossing_slot(id: u32, per_team: usize) -> usize {
    (id as int % per_team as int) as usize
}

/// Crossing goals of `units` (id, team), in id order: each unit takes slot
/// `id mod per_team` of the formation at the opposing spawn. `fits` says,
/// per team, whether that team's formation fits the map; the first unit in
/// id order whose team's formation does not fit makes the run fail with its
/// team.
pub fn crossing_slots(units: &Vec<(u32, u32)>, per_team: usize, fits: (bool, bool)) -> (r: Result<
    Vec<(u32, usize)>,
    u32,
>)
    requires
        per_team > 0,
        forall|i: int| 0 <= i < units@.len() ==> #[trigger] units@[i].1 < 2,
    ensures
        ({
            let s = units@.sort_by(health_order());
            match r {
                Ok(v) => v@.len() == s.len() && (forall|i: int|
                    0 <= i < s.len() ==> team_fits(fits, #[trigger] s[i].1) && v@[i] == (s[i].0, crossing_slot(
                        s[i].0,
                        per_team,
                    ))),
                Err(t) => exists|i: int| #[trigger] first_unfit(s, fits, i) && s[i].1 == t,
            }
        }),
{
    let sorted = sort_health(units);
    let ghost s = units@.sort_by(health_order());
    proof {
        lemma_sorted_units(units@);
    }
    let mut out: Vec<(u32, usize)> = Vec::new();
    let mut i: usize = 0;
    while i < sorted.len()
        invariant
            i <= s.len(),
            s == sorted@,
            s == units@.sort_by(health_order()),
            per_team > 0,
            out@.len() == i,
            forall|k: int|
                0 <= k < i ==> team_fits(fits, #[trigger] s[k].1) && out@[k] == (s[k].0, crossing_slot(
                    s[k].0,
                    per_team,
                )),
        decreases s.len() - i,
    {
        let (id, team) = sorted[i];
        let ok = if team == 0 {
            fits.0
        } else {
            fits.1
        };
        if !ok {
            assert(s[i as int].1 == team && !team_fits(fits, team));
            assert forall|k: int| 0 <= k < i implies team_fits(fits, #[trigger] s[k].1) by {
                assert(team_fits(fits, s[k].1));
            }
            assert(first_unfit(s, fits, i as int));
            return Err(team);
        }
        out.push((id, (id as usize) % per_team));
        i = i + 1;
    }
    Ok(out)
}

} // verus!
