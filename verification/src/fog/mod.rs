//! Fog of war per team on a 150×150 grid of 4 m cells.
//!
//! `explored` is sticky memory (shroud versus fog), `visible` the live
//! snapshot of the current tick. Teams are isolated: nothing one team's
//! viewers do touches another team's grids. Positions are turned into cells
//! by the caller ([`cell_index_of`] does the bounds part); sight discs are
//! stamped as the list of cells they cover.
use crate::session::ViewState;
use std::collections::BTreeMap;
use vstd::prelude::*;

verus! {

broadcast use {vstd::laws_cmp::group_laws_cmp, vstd::std_specs::btree::group_btree_axioms};

/// Cells per side (600 m map, 4 m cells).
pub const FOG_WIDTH: usize = 150;
/// Cells per team grid.
pub const FOG_COUNT: usize = 22_500;

/// Mathematical view of one team's grids.
pub struct FogView {
    pub explored: Seq<bool>,
    pub visible: Seq<bool>,
}

/// One team's grids.
#[derive(Clone, Debug)]
pub struct TeamFog {
    pub explored: Vec<bool>,
    pub visible: Vec<bool>,
}

impl View for TeamFog {
    type V = FogView;

    open spec fn view(&self) -> FogView {
        FogView { explored: self.explored@, visible: self.visible@ }
    }
}

/// Per-team grids, keyed by team id.
#[derive(Clone, Debug)]
pub struct VisibilityMap(pub BTreeMap<u8, TeamFog>);

impl View for VisibilityMap {
    type V = Map<u8, FogView>;

    open spec fn view(&self) -> Map<u8, FogView> {
        views(self.0@)
    }
}

/// The grids of every team, each by its view.
pub open spec fn views(m: Map<u8, TeamFog>) -> Map<u8, FogView> {
    m.map_values(|f: TeamFog| f@)
}

proof fn lemma_views_get(m: Map<u8, TeamFog>, t: u8)
    ensures
        views(m).contains_key(t) == m.contains_key(t),
        m.contains_key(t) ==> views(m)[t] == m[t]@,
{
}

proof fn lemma_views_replace(before: Map<u8, TeamFog>, t: u8, f: TeamFog)
    ensures
        views(before.remove(t).insert(t, f)) == views(before).insert(t, f@),
{
    assert(views(before.remove(t).insert(t, f)) =~= views(before).insert(t, f@));
}

proof fn lemma_views_remove_absent(before: Map<u8, TeamFog>, t: u8)
    requires
        !before.contains_key(t),
    ensures
        views(before.remove(t)) == views(before),
{
    assert(before.remove(t) =~= before);
}

/// A grid resized to [`FOG_COUNT`] cells, new cells unseen.
pub open spec fn sized(s: Seq<bool>) -> Seq<bool> {
    Seq::new(FOG_COUNT as nat, |i: int| i < s.len() && s[i])
}

/// Every grid of every team has [`FOG_COUNT`] cells.
pub open spec fn well_sized(m: Map<u8, FogView>) -> bool {
    forall|t: u8| #[trigger] m.contains_key(t) ==> m[t].explored.len() == FOG_COUNT && m[t].visible.len() == FOG_COUNT
}

pub open spec fn spec_visible(m: Map<u8, FogView>, team: u8, cell: Option<usize>) -> bool {
    match cell {
        Some(i) => m.contains_key(team) && i < m[team].visible.len() && m[team].visible[i as int],
        None => false,
    }
}

pub open spec fn spec_explored(m: Map<u8, FogView>, team: u8, cell: Option<usize>) -> bool {
    match cell {
        Some(i) => m.contains_key(team) && i < m[team].explored.len() && m[team].explored[i as int],
        None => false,
    }
}

/// A team's grids after stamping the cells of one sight disc.
pub open spec fn stamped(f: FogView, cells: Seq<usize>) -> FogView {
    FogView {
        explored: sized(f.explored),
        visible: Seq::new(
            FOG_COUNT as nat,
            |i: int| (i < f.visible.len() && f.visible[i]) || cells.contains(i as usize),
        ),
    }
}

/// Start of a fog tick: grids sized, live visibility cleared, memory kept.
pub open spec fn cleared(f: FogView) -> FogView {
    FogView { explored: sized(f.explored), visible: Seq::new(FOG_COUNT as nat, |i: int| false) }
}

/// End of a fog tick: whatever is visible becomes explored.
pub open spec fn remembered(f: FogView) -> FogView {
    FogView {
        explored: Seq::new(f.explored.len(), |i: int| f.explored[i] || f.visible[i]),
        visible: f.visible,
    }
}

/// Cell of a grid position given as column and row; `None` off the map.
pub fn cell_index_of(col: i64, row: i64) -> (r: Option<usize>)
    ensures
        (0 <= col < FOG_WIDTH && 0 <= row < FOG_WIDTH) ==> r == Some((row * FOG_WIDTH + col) as usize),
        !(0 <= col < FOG_WIDTH && 0 <= row < FOG_WIDTH) ==> r is None,
        r matches Some(i) ==> i < FOG_COUNT,
{
    if col < 0 || row < 0 || col >= FOG_WIDTH as i64 || row >= FOG_WIDTH as i64 {
        return None;
    }
    let index = row as usize * FOG_WIDTH + col as usize;
    Some(index)
}

fn sized_grid(v: &Vec<bool>) -> (r: Vec<bool>)
    ensures
        r@ == sized(v@),
{
    let mut out: Vec<bool> = Vec::new();
    let mut i: usize = 0;
    while i < FOG_COUNT
        invariant
            i <= FOG_COUNT,
            out@.len() == i,
            forall|k: int| 0 <= k < i ==> out@[k] == (k < v@.len() && v@[k]),
        decreases FOG_COUNT - i,
    {
        let bit = i < v.len() && v[i];
        out.push(bit);
        i = i + 1;
    }
    assert(out@ =~= sized(v@));
    out
}

impl TeamFog {
    /// Resizes both grids to [`FOG_COUNT`] cells; new cells start unseen.
    pub fn ensure(&mut self)
        ensures
            final(self)@.explored == sized(old(self)@.explored),
            final(self)@.visible == sized(old(self)@.visible),
    {
        let explored = sized_grid(&self.explored);
        self.explored = explored;
        let visible = sized_grid(&self.visible);
        self.visible = visible;
    }
}

impl Default for TeamFog {
    fn default() -> (r: Self)
        ensures
            r@.explored == Seq::<bool>::empty(),
            r@.visible == Seq::<bool>::empty(),
    {
        let r = TeamFog { explored: Vec::new(), visible: Vec::new() };
        assert(r@.explored =~= Seq::<bool>::empty());
        assert(r@.visible =~= Seq::<bool>::empty());
        r
    }
}

impl Default for VisibilityMap {
    fn default() -> (r: Self)
        ensures
            r@ == Map::<u8, FogView>::empty(),
    {
        let m = VisibilityMap(BTreeMap::new());
        assert(m@ =~= Map::<u8, FogView>::empty());
        m
    }
}

impl VisibilityMap {
    /// Whether `team` sees `cell` now; false off the map and for teams with
    /// no fog data.
    pub fn visible(&self, team: u8, cell: Option<usize>) -> (r: bool)
        ensures
            r == spec_visible(self@, team, cell),
    {
        match cell {
            None => false,
            Some(i) => match self.0.get(&team) {
                None => false,
                Some(f) => i < f.visible.len() && f.visible[i],
            },
        }
    }

    /// Whether `team` has ever seen `cell`.
    pub fn explored(&self, team: u8, cell: Option<usize>) -> (r: bool)
        ensures
            r == spec_explored(self@, team, cell),
    {
        match cell {
            None => false,
            Some(i) => match self.0.get(&team) {
                None => false,
                Some(f) => i < f.explored.len() && f.explored[i],
            },
        }
    }

    /// Stamps one viewer's sight disc, given as the cells it covers, into
    /// `team`'s live grid (creating the team's grids on first use).
    pub fn mark_visible(&mut self, team: u8, cells: &Vec<usize>)
        ensures
            final(self)@ == old(self)@.insert(
                team,
                stamped(
                    if old(self)@.contains_key(team) {
                        old(self)@[team]
                    } else {
                        FogView { explored: Seq::empty(), visible: Seq::empty() }
                    },
                    cells@,
                ),
            ),
    {
        let ghost inner = self.0@;
        let mut fog = match self.0.remove(&team) {
            Some(f) => f,
            None => TeamFog::default(),
        };
        let ghost before = fog@;
        proof {
            lemma_views_get(inner, team);
        }
        fog.ensure();
        let mut k: usize = 0;
        while k < cells.len()
            invariant
                k <= cells@.len(),
                fog@.explored == sized(before.explored),
                fog@.visible.len() == FOG_COUNT,
                forall|i: int|
                    0 <= i < FOG_COUNT ==> #[trigger] fog@.visible[i] == ((i < before.visible.len()
                        && before.visible[i]) || cells@.take(k as int).contains(i as usize)),
            decreases cells@.len() - k,
        {
            let c = cells[k];
            if c < FOG_COUNT {
                fog.visible[c] = true;
            }
            proof {
                assert forall|i: int| 0 <= i < FOG_COUNT implies #[trigger] fog@.visible[i] == ((i
                    < before.visible.len() && before.visible[i]) || cells@.take(k + 1).contains(
                    i as usize,
                )) by {
                    assert(cells@.take(k + 1) =~= cells@.take(k as int).push(c));
                    if cells@.take(k as int).contains(i as usize) {
                        let j = choose|j: int| 0 <= j < k && cells@.take(k as int)[j] == i as usize;
                        assert(cells@.take(k + 1)[j] == i as usize);
                    }
                    if i as usize == c {
                        assert(cells@.take(k + 1)[k as int] == c);
                    }
                }
            }
            k = k + 1;
        }
        assert(cells@.take(k as int) =~= cells@);
        proof {
            assert(fog@.visible =~= stamped(before, cells@).visible);
        }
        self.0.insert(team, fog);
        proof {
            lemma_views_replace(inner, team, fog);
        }
    }

    /// Start of a fog tick: every team's grids are sized and its live
    /// visibility cleared; explored memory is kept.
    pub fn begin_tick(&mut self)
        ensures
            final(self)@ == old(self)@.map_values(|f: FogView| cleared(f)),
            well_sized(final(self)@),
    {
        let ghost start = self@;
        let mut t: u16 = 0;
        while t < 256
            invariant
                t <= 256,
                self@.dom() == start.dom(),
                forall|u: u8|
                    #[trigger] self@.contains_key(u) ==> self@[u] == if (u as u16) < t {
                        cleared(start[u])
                    } else {
                        start[u]
                    },
            decreases 256 - t,
        {
            let team = t as u8;
            let ghost inner = self.0@;
            proof {
                lemma_views_get(inner, team);
            }
            match self.0.remove(&team) {
                Some(mut fog) => {
                    fog.ensure();
                    let mut cleared_grid: Vec<bool> = Vec::new();
                    let mut i: usize = 0;
                    while i < FOG_COUNT
                        invariant
                            i <= FOG_COUNT,
                            cleared_grid@.len() == i,
                            forall|k: int| 0 <= k < i ==> !#[trigger] cleared_grid@[k],
                        decreases FOG_COUNT - i,
                    {
                        cleared_grid.push(false);
                        i = i + 1;
                    }
                    fog.visible = cleared_grid;
                    assert(fog@.visible =~= cleared(start[team]).visible);
                    self.0.insert(team, fog);
                    proof {
                        lemma_views_replace(inner, team, fog);
                    }
                },
                None => {
                    proof {
                        lemma_views_remove_absent(inner, team);
                    }
                },
            }
            proof {
                assert forall|u: u8| #[trigger] self@.contains_key(u) implies self@[u] == if (u as u16)
                    < t + 1 {
                    cleared(start[u])
                } else {
                    start[u]
                } by {
                    if u != team {
                        assert(u as u16 != t);
                    }
                }
            }
            assert(self@.dom() =~= start.dom());
            t = t + 1;
        }
        assert(self@ =~= start.map_values(|f: FogView| cleared(f)));
    }

    /// End of a fog tick: whatever each team sees becomes explored.
    pub fn end_tick(&mut self)
        requires
            well_sized(old(self)@),
        ensures
            final(self)@ == old(self)@.map_values(|f: FogView| remembered(f)),
            well_sized(final(self)@),
    {
        let ghost start = self@;
        let mut t: u16 = 0;
        while t < 256
            invariant
                t <= 256,
                well_sized(start),
                self@.dom() == start.dom(),
                forall|u: u8|
                    #[trigger] self@.contains_key(u) ==> self@[u] == if (u as u16) < t {
                        remembered(start[u])
                    } else {
                        start[u]
                    },
            decreases 256 - t,
        {
            let team = t as u8;
            let ghost inner = self.0@;
            proof {
                lemma_views_get(inner, team);
            }
            match self.0.remove(&team) {
                Some(mut fog) => {
                    assert(fog@ == start[team]);
                    let mut i: usize = 0;
                    while i < FOG_COUNT
                        invariant
                            i <= FOG_COUNT,
                            fog@.visible == start[team].visible,
                            fog@.explored.len() == FOG_COUNT,
                            start[team].explored.len() == FOG_COUNT,
                            start[team].visible.len() == FOG_COUNT,
                            forall|k: int| 0 <= k < i ==> #[trigger] fog@.explored[k] == (
                            start[team].explored[k] || start[team].visible[k]),
                            forall|k: int| i <= k < FOG_COUNT ==> #[trigger] fog@.explored[k]
                                == start[team].explored[k],
                        decreases FOG_COUNT - i,
                    {
                        let seen = fog.explored[i] || fog.visible[i];
                        fog.explored[i] = seen;
                        i = i + 1;
                    }
                    assert(fog@.explored =~= remembered(start[team]).explored);
                    self.0.insert(team, fog);
                    proof {
                        lemma_views_replace(inner, team, fog);
                    }
                },
                None => {
                    proof {
                        lemma_views_remove_absent(inner, team);
                    }
                },
            }
            proof {
                assert forall|u: u8| #[trigger] self@.contains_key(u) implies self@[u] == if (u as u16)
                    < t + 1 {
                    remembered(start[u])
                } else {
                    start[u]
                } by {
                    if u != team {
                        assert(u as u16 != t);
                    }
                }
            }
            assert(self@.dom() =~= start.dom());
            t = t + 1;
        }
        assert(self@ =~= start.map_values(|f: FogView| remembered(f)));
    }
}

/// Combat targeting gate: a team may engage what it currently sees. Open
/// when there is no fog data at all, or none for this team yet.
pub fn can_target(map: Option<&VisibilityMap>, team: u8, cell: Option<usize>) -> (r: bool)
    ensures
        r == match map {
            None => true,
            Some(m) => !m@.contains_key(team) || spec_visible(m@, team, cell),
        },
{
    match map {
        None => true,
        Some(m) => {
            if !m.0.contains_key(&team) {
                true
            } else {
                m.visible(team, cell)
            }
        },
    }
}

/// Whether a unit or building of `owner` is drawn for the viewed team: its
/// own things always, everything with fog off, else what the viewed team
/// sees now. The AI reads the visibility map, never this.
pub fn shown(view: &ViewState, owner: u8, seen_by_view: bool) -> (r: bool)
    ensures
        r == (owner == view.team || !view.fog_on || seen_by_view),
{
    owner == view.team || !view.fog_on || seen_by_view
}

/// Render visibility of an entity.
#[derive(Clone, Copy, Debug, PartialEq, Eq, Structural)]
pub enum Visibility {
    Inherited,
    Hidden,
    Visible,
}

/// Visibility wanted for an entity that is (or is not) shown.
pub open spec fn wanted(show: bool) -> Visibility {
    if show {
        Visibility::Inherited
    } else {
        Visibility::Hidden
    }
}

/// See [`concealment_write`].
pub open spec fn spec_concealment_write(current: Option<Visibility>, show: bool) -> Option<Visibility> {
    match current {
        Some(c) => if c == wanted(show) {
            None
        } else {
            Some(wanted(show))
        },
        None => if show {
            None
        } else {
            Some(Visibility::Hidden)
        },
    }
}

/// The visibility to write for an entity whose current visibility is
/// `current` (`None` when it has none yet), or `None` when nothing needs
/// writing: only transitions write, and an entity without a visibility is
/// only given one to hide it.
pub fn concealment_write(current: Option<Visibility>, show: bool) -> (r: Option<Visibility>)
    ensures
        r == spec_concealment_write(current, show),
{
    let want = if show {
        Visibility::Inherited
    } else {
        Visibility::Hidden
    };
    match current {
        Some(c) => {
            if c == want {
                None
            } else {
                Some(want)
            }
        },
        None => {
            if show {
                None
            } else {
                Some(Visibility::Hidden)
            }
        },
    }
}

/// Concealment settles in one pass: a write never repeats the current
/// visibility, and once written a second pass writes nothing.
pub proof fn concealment_settles(current: Option<Visibility>, show: bool)
    ensures
        spec_concealment_write(current, show) matches Some(w) ==> current != Some(w) && w == wanted(show)
            && spec_concealment_write(Some(w), show) is None,
{
}

/// Explored memory is sticky: a tick never forgets a cell, and at its end
/// everything visible is explored.
pub proof fn memory_is_sticky(f: FogView, i: int)
    requires
        0 <= i < f.explored.len(),
        f.visible.len() == f.explored.len(),
    ensures
        f.explored[i] ==> remembered(f).explored[i],
        f.visible[i] ==> remembered(f).explored[i],
{
}

/// Clearing live visibility at the start of a tick never loses memory.
pub proof fn clearing_keeps_memory(f: FogView, i: int)
    requires
        0 <= i < f.explored.len(),
        f.explored.len() == FOG_COUNT,
    ensures
        cleared(f).explored[i] == f.explored[i],
        !cleared(f).visible[i],
{
}

/// Teams are isolated: stamping one team's sight leaves every other team's
/// grids exactly as they were.
pub proof fn teams_are_isolated(m: Map<u8, FogView>, team: u8, other: u8, f: FogView)
    requires
        other != team,
    ensures
        m.insert(team, f).contains_key(other) == m.contains_key(other),
        m.contains_key(other) ==> m.insert(team, f)[other] == m[other],
{
}

/// A stamped cell becomes visible for the stamping team.
pub proof fn revealed_cells_are_visible(f: FogView, cells: Seq<usize>, k: int)
    requires
        0 <= k < cells.len(),
        cells[k] < FOG_COUNT,
    ensures
        stamped(f, cells).visible[cells[k] as int],
{
    assert(cells.contains(cells[k]));
}

/// A whole fog tick (clear, stamp the sight discs, remember) never forgets
/// an explored cell, and leaves every stamped cell explored.
pub proof fn a_tick_never_forgets(f: FogView, cells: Seq<usize>, i: int, k: int)
    requires
        0 <= i < FOG_COUNT,
        0 <= k < cells.len(),
        cells[k] < FOG_COUNT,
    ensures
        i < f.explored.len() && f.explored[i] ==> remembered(stamped(cleared(f), cells)).explored[i],
        remembered(stamped(cleared(f), cells)).explored[cells[k] as int],
{
    assert(cells.contains(cells[k]));
}

} // verus!
