//! Base construction rules: when a building may be placed, the building
//! footprints that block navigation, and the metal-deposit rules.
pub mod deposits;

use crate::economy::balance::BuildingKind;
use vstd::prelude::*;

verus! {

/// Refusal of a placement with no live builder on the team.
pub open spec fn no_builders_text() -> &'static str {
    "No builders alive: build an Engineer first"
}

/// Refusal of a second construction site while the team has one.
pub open spec fn site_active_text() -> &'static str {
    "Active site already exists: finish it first"
}

/// Refusal of a footprint that leaves the map.
pub open spec fn outside_map_text() -> &'static str {
    "Outside map"
}

/// Refusal of a footprint on rock or another building.
pub open spec fn overlaps_text() -> &'static str {
    "Overlaps obstacle / building"
}

/// Refusal of a footprint with a unit standing in it.
pub open spec fn unit_inside_text() -> &'static str {
    "Unit inside footprint / clearance"
}

/// Refusal of a factory whose doors all open into rock.
pub open spec fn exits_blocked_text() -> &'static str {
    "Factory exits blocked — pick a spot with a free door"
}

/// Ground check of a placement: the footprint must lie on the map with
/// its margin (`on_map`), clear of rock and buildings (`overlaps`; walls
/// tile flush, the caller measures), and clear of units (`unit_inside`).
/// The first failing test is reported.
pub fn valid_ground(on_map: bool, overlaps: bool, unit_inside: bool) -> (r: Result<(), &'static str>)
    ensures
        r == (if !on_map {
            Err::<(), &'static str>(outside_map_text())
        } else if overlaps {
            Err(overlaps_text())
        } else if unit_inside {
            Err(unit_inside_text())
        } else {
            Ok(())
        }),
{
    if !on_map {
        Err("Outside map")
    } else if overlaps {
        Err("Overlaps obstacle / building")
    } else if unit_inside {
        Err("Unit inside footprint / clearance")
    } else {
        Ok(())
    }
}

/// Factory sites need a free door for the largest producible hull
/// (`exit_found`), or finished products would never leave; other buildings
/// spawn nothing and always pass.
pub fn factory_spawn_ok(kind: BuildingKind, exit_found: bool) -> (r: Result<(), &'static str>)
    ensures
        r == (if (kind == BuildingKind::Factory || kind == BuildingKind::LabT2) && !exit_found {
            Err::<(), &'static str>(exits_blocked_text())
        } else {
            Ok(())
        }),
{
    if kind.is_factory() && !exit_found {
        Err("Factory exits blocked — pick a spot with a free door")
    } else {
        Ok(())
    }
}

/// The team has a building still under construction. `buildings` holds the
/// team of every building and whether it is still a site.
pub open spec fn has_active_site(buildings: Seq<(u8, bool)>, team: u8) -> bool {
    exists|i: int| 0 <= i < buildings.len() && #[trigger] buildings[i] == (team, true)
}

/// Placement gate of the base rules: the team needs one live builder,
/// anywhere (`builder_teams` holds the team of every live builder), and at
/// most one construction site at a time keeps the streaming economy
/// readable. Ground validity is checked separately.
pub fn placement_rule(team: u8, buildings: &Vec<(u8, bool)>, builder_teams: &Vec<u8>) -> (r: Result<(), &'static str>)
    ensures
        !builder_teams@.contains(team) ==> r == Err::<(), &'static str>(no_builders_text()),
        builder_teams@.contains(team) && has_active_site(buildings@, team) ==> r == Err::<(), &'static str>(site_active_text()),
        builder_teams@.contains(team) && !has_active_site(buildings@, team) ==> r is Ok,
{
    let mut found = false;
    let mut i: usize = 0;
    while i < builder_teams.len()
        invariant
            i <= builder_teams@.len(),
            found <==> exists|j: int| 0 <= j < i && builder_teams@[j] == team,
        decreases builder_teams@.len() - i,
    {
        if builder_teams[i] == team {
            found = true;
        }
        i = i + 1;
    }
    if !found {
        return Err("No builders alive: build an Engineer first");
    }
    assert(builder_teams@.contains(team));
    let mut k: usize = 0;
    while k < buildings.len()
        invariant
            k <= buildings@.len(),
            builder_teams@.contains(team),
            forall|j: int| 0 <= j < k ==> #[trigger] buildings@[j] != (team, true),
        decreases buildings@.len() - k,
    {
        let (owner, site) = buildings[k];
        if owner == team && site {
            assert(buildings@[k as int] == (team, true));
            return Err("Active site already exists: finish it first");
        }
        k = k + 1;
    }
    Ok(())
}

/// Keys strictly increase along the entries.
pub open spec fn strictly_sorted<O>(s: Seq<(u64, O)>) -> bool {
    forall|i: int, j: int| 0 <= i < j < s.len() ==> #[trigger] s[i].0 < #[trigger] s[j].0
}

/// Some entry has key `k`.
pub open spec fn has_key<O>(s: Seq<(u64, O)>, k: u64) -> bool {
    exists|i: int| 0 <= i < s.len() && #[trigger] s[i].0 == k
}

/// The entries as a map from key to value.
pub open spec fn map_of<O>(s: Seq<(u64, O)>) -> Map<u64, O> {
    Map::new(
        |k: u64| has_key(s, k),
        |k: u64| s[choose|i: int| 0 <= i < s.len() && #[trigger] s[i].0 == k].1,
    )
}

proof fn lemma_entry<O>(s: Seq<(u64, O)>, i: int)
    requires
        strictly_sorted(s),
        0 <= i < s.len(),
    ensures
        map_of(s).contains_key(s[i].0),
        map_of(s)[s[i].0] == s[i].1,
{
    assert(has_key(s, s[i].0));
    let j = choose|j: int| 0 <= j < s.len() && #[trigger] s[j].0 == s[i].0;
    if j < i {
        assert(s[j].0 < s[i].0);
    }
    if i < j {
        assert(s[i].0 < s[j].0);
    }
}

proof fn lemma_missing<O>(s: Seq<(u64, O)>, k: u64)
    requires
        forall|i: int| 0 <= i < s.len() ==> #[trigger] s[i].0 != k,
    ensures
        !map_of(s).contains_key(k),
{
}

/// Building footprints by building id, kept sorted by id so lookups are
/// binary searches and the footprint order is deterministic.
pub struct Occupancy<O> {
    entries: Vec<(u64, O)>,
}

impl<O> View for Occupancy<O> {
    type V = Seq<(u64, O)>;

    closed spec fn view(&self) -> Seq<(u64, O)> {
        self.entries@
    }
}

impl<O> Occupancy<O> {
    /// Entries are sorted by strictly increasing id.
    pub open spec fn wf(&self) -> bool {
        strictly_sorted(self@)
    }

    /// No footprints.
    pub fn new() -> (r: Self)
        ensures
            r.wf(),
            r@ == Seq::<(u64, O)>::empty(),
    {
        Occupancy { entries: Vec::new() }
    }

    /// Number of footprints.
    pub fn len(&self) -> (r: usize)
        ensures
            r == self@.len(),
    {
        self.entries.len()
    }

    /// Binary search for `key`: `Ok` with its index, or `Err` with the index
    /// where it would be inserted.
    fn find(&self, key: u64) -> (r: Result<usize, usize>)
        requires
            self.wf(),
        ensures
            r matches Ok(i) ==> i < self@.len() && self@[i as int].0 == key,
            r matches Err(p) ==> p <= self@.len() && (forall|j: int|
                0 <= j < p ==> #[trigger] self@[j].0 < key) && (forall|j: int|
                p <= j < self@.len() ==> #[trigger] self@[j].0 > key),
    {
        let mut lo: usize = 0;
        let mut hi: usize = self.entries.len();
        while lo < hi
            invariant
                lo <= hi <= self@.len(),
                self.wf(),
                forall|j: int| 0 <= j < lo ==> #[trigger] self@[j].0 < key,
                forall|j: int| hi <= j < self@.len() ==> #[trigger] self@[j].0 > key,
            decreases hi - lo,
        {
            let mid = lo + (hi - lo) / 2;
            let k = self.entries[mid].0;
            if k < key {
                proof {
                    assert forall|j: int| 0 <= j < mid + 1 implies #[trigger] self@[j].0 < key by {
                        if j < mid {
                            assert(self@[j].0 < self@[mid as int].0);
                        }
                    }
                }
                lo = mid + 1;
            } else if k > key {
                proof {
                    assert forall|j: int| mid <= j < self@.len() implies #[trigger] self@[j].0 > key by {
                        if j > mid {
                            assert(self@[mid as int].0 < self@[j].0);
                        }
                    }
                }
                hi = mid;
            } else {
                return Ok(mid);
            }
        }
        Err(lo)
    }

    /// Records the footprint of building `key`, replacing any previous one;
    /// returns the previous footprint.
    pub fn upsert(&mut self, key: u64, value: O) -> (r: Option<O>)
        requires
            old(self).wf(),
        ensures
            final(self).wf(),
            map_of(final(self)@) == map_of(old(self)@).insert(key, value),
            r == (if map_of(old(self)@).contains_key(key) {
                Some(map_of(old(self)@)[key])
            } else {
                None::<O>
            }),
    {
        let ghost s = self@;
        match self.find(key) {
            Ok(i) => {
                let previous = self.entries.remove(i);
                self.entries.insert(i, (key, value));
                proof {
                    let t = self@;
                    assert(t =~= s.update(i as int, (key, value)));
                    assert forall|a: int, b: int| 0 <= a < b < t.len() implies #[trigger] t[a].0
                        < #[trigger] t[b].0 by {
                        assert(s[a].0 < s[b].0);
                    }
                    lemma_entry(s, i as int);
                    assert forall|k: u64| #[trigger]
                        map_of(t).contains_key(k) == map_of(s).insert(key, value).contains_key(k)
                        && (map_of(t).contains_key(k) ==> map_of(t)[k] == map_of(s).insert(
                        key,
                        value,
                    )[k]) by {
                        if k == key {
                            lemma_entry(t, i as int);
                        } else if has_key(s, k) {
                            let j = choose|j: int| 0 <= j < s.len() && #[trigger] s[j].0 == k;
                            lemma_entry(s, j);
                            lemma_entry(t, j);
                        } else {
                            assert forall|j: int| 0 <= j < t.len() implies #[trigger] t[j].0 != k by {
                                if j != i {
                                    assert(s[j].0 != k);
                                }
                            }
                        }
                    }
                    assert(map_of(t) =~= map_of(s).insert(key, value));
                }
                Some(previous.1)
            },
            Err(p) => {
                self.entries.insert(p, (key, value));
                proof {
                    let t = self@;
                    assert(t =~= s.insert(p as int, (key, value)));
                    assert forall|a: int, b: int| 0 <= a < b < t.len() implies #[trigger] t[a].0
                        < #[trigger] t[b].0 by {
                        if b < p {
                            assert(s[a].0 < s[b].0);
                        } else if a > p {
                            assert(s[a - 1].0 < s[b - 1].0);
                        } else if a == p {
                            assert(s[b - 1].0 > key);
                        } else if b == p {
                            assert(s[a].0 < key);
                        } else {
                            assert(s[a].0 < key);
                            assert(s[b - 1].0 > key);
                        }
                    }
                    assert forall|j: int| 0 <= j < s.len() implies #[trigger] s[j].0 != key by {
                        if j < p {
                            assert(s[j].0 < key);
                        } else {
                            assert(s[j].0 > key);
                        }
                    }
                    lemma_missing(s, key);
                    assert forall|k: u64| #[trigger]
                        map_of(t).contains_key(k) == map_of(s).insert(key, value).contains_key(k)
                        && (map_of(t).contains_key(k) ==> map_of(t)[k] == map_of(s).insert(
                        key,
                        value,
                    )[k]) by {
                        if k == key {
                            lemma_entry(t, p as int);
                        } else if has_key(s, k) {
                            let j = choose|j: int| 0 <= j < s.len() && #[trigger] s[j].0 == k;
                            lemma_entry(s, j);
                            if j < p {
                                lemma_entry(t, j);
                            } else {
                                assert(t[j + 1] == s[j]);
                                lemma_entry(t, j + 1);
                            }
                        } else {
                            assert forall|j: int| 0 <= j < t.len() implies #[trigger] t[j].0 != k by {
                                if j < p {
                                    assert(s[j].0 != k);
                                } else if j > p {
                                    assert(s[j - 1].0 != k);
                                }
                            }
                        }
                    }
                    assert(map_of(t) =~= map_of(s).insert(key, value));
                }
                None
            },
        }
    }

    /// Drops the footprint of building `key`; returns it if there was one.
    pub fn remove(&mut self, key: u64) -> (r: Option<O>)
        requires
            old(self).wf(),
        ensures
            final(self).wf(),
            map_of(final(self)@) == map_of(old(self)@).remove(key),
            r == (if map_of(old(self)@).contains_key(key) {
                Some(map_of(old(self)@)[key])
            } else {
                None::<O>
            }),
    {
        let ghost s = self@;
        match self.find(key) {
            Ok(i) => {
                let previous = self.entries.remove(i);
                proof {
                    let t = self@;
                    assert(t =~= s.remove(i as int));
                    assert forall|a: int, b: int| 0 <= a < b < t.len() implies #[trigger] t[a].0
                        < #[trigger] t[b].0 by {
                        if b < i {
                            assert(s[a].0 < s[b].0);
                        } else if a >= i {
                            assert(s[a + 1].0 < s[b + 1].0);
                        } else {
                            assert(s[a].0 < s[b + 1].0);
                        }
                    }
                    lemma_entry(s, i as int);
                    assert forall|k: u64| #[trigger]
                        map_of(t).contains_key(k) == map_of(s).remove(key).contains_key(k) && (map_of(
                        t,
                    ).contains_key(k) ==> map_of(t)[k] == map_of(s).remove(key)[k]) by {
                        if k == key {
                            assert forall|j: int| 0 <= j < t.len() implies #[trigger] t[j].0 != k by {
                                if j < i {
                                    assert(s[j].0 < s[i as int].0);
                                } else {
                                    assert(s[i as int].0 < s[j + 1].0);
                                }
                            }
                        } else if has_key(s, k) {
                            let j = choose|j: int| 0 <= j < s.len() && #[trigger] s[j].0 == k;
                            lemma_entry(s, j);
                            if j < i {
                                lemma_entry(t, j);
                            } else {
                                assert(j != i);
                                assert(t[j - 1] == s[j]);
                                lemma_entry(t, j - 1);
                            }
                        } else {
                            assert forall|j: int| 0 <= j < t.len() implies #[trigger] t[j].0 != k by {
                                if j < i {
                                    assert(s[j].0 != k);
                                } else {
                                    assert(s[j + 1].0 != k);
                                }
                            }
                        }
                    }
                    assert(map_of(t) =~= map_of(s).remove(key));
                }
                Some(previous.1)
            },
            Err(p) => {
                proof {
                    assert forall|j: int| 0 <= j < s.len() implies #[trigger] s[j].0 != key by {
                        if j < p {
                            assert(s[j].0 < key);
                        } else {
                            assert(s[j].0 > key);
                        }
                    }
                    lemma_missing(s, key);
                    assert(map_of(s) =~= map_of(s).remove(key));
                }
                None
            },
        }
    }
}

impl<O: Copy> Occupancy<O> {
    /// The footprints in increasing id order: the dynamic obstacle list the
    /// navigation grid is rebuilt from.
    pub fn footprints(&self) -> (r: Vec<O>)
        ensures
            r@.len() == self@.len(),
            forall|i: int| 0 <= i < self@.len() ==> r@[i] == self@[i].1,
    {
        let mut out: Vec<O> = Vec::new();
        let mut i: usize = 0;
        while i < self.entries.len()
            invariant
                i <= self@.len(),
                out@.len() == i,
                forall|k: int| 0 <= k < i ==> out@[k] == self@[k].1,
            decreases self@.len() - i,
        {
            out.push(self.entries[i].1);
            i = i + 1;
        }
        out
    }
}

/// Recording a new building's footprint and then removing it leaves the
/// footprints as they were.
pub proof fn place_then_destroy_restores<O>(before: Map<u64, O>, key: u64, value: O)
    requires
        !before.contains_key(key),
    ensures
        before.insert(key, value).remove(key) == before,
{
    assert(before.insert(key, value).remove(key) =~= before);
}

} // verus!
