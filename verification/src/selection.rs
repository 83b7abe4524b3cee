//! Box and click selection of the player's units.
//!
//! The engine projects units to the screen and casts the click ray; it
//! reports for each unit whether it lies inside the dragged box and which
//! player unit, if any, the click hit first.
use vstd::prelude::*;

verus! {

/// A selectable unit as the pick sees it.
#[derive(Clone, Copy, Debug, PartialEq, Eq, Structural)]
pub struct Selectable {
    pub id: u64,
    pub team: u8,
    pub selected: bool,
    /// The unit's screen position lies inside the dragged box.
    pub in_box: bool,
}

/// How the mouse picked.
#[derive(Clone, Copy, Debug, PartialEq, Eq, Structural)]
pub enum Pick {
    /// A drag: every player unit inside the box.
    Box,
    /// A click: the player unit the ray hit first, if any.
    Click(Option<u64>),
}

/// The pick hits unit `u`: only the player's units can be hit.
pub open spec fn picked(u: Selectable, pick: Pick, player: u8) -> bool {
    u.team == player && match pick {
        Pick::Box => u.in_box,
        Pick::Click(hit) => hit == Some(u.id),
    }
}

/// Whether `u` is selected after the pick.
pub open spec fn selected_after(u: Selectable, pick: Pick, additive: bool, player: u8) -> bool {
    picked(u, pick, player) || (u.selected && additive)
}

/// Selection flags after a pick, one per unit: hit units are selected;
/// others keep their selection only when the pick is additive (Shift).
pub fn apply_pick(units: &Vec<Selectable>, pick: Pick, additive: bool, player: u8) -> (r: Vec<bool>)
    ensures
        r@.len() == units@.len(),
        forall|i: int|
            0 <= i < units@.len() ==> r@[i] == selected_after(#[trigger] units@[i], pick, additive, player),
{
    let mut out: Vec<bool> = Vec::new();
    let mut i: usize = 0;
    while i < units.len()
        invariant
            i <= units@.len(),
            out@.len() == i,
            forall|j: int|
                0 <= j < i ==> out@[j] == selected_after(#[trigger] units@[j], pick, additive, player),
        decreases units@.len() - i,
    {
        let u = units[i];
        let hit = u.team == player && match pick {
            Pick::Box => u.in_box,
            Pick::Click(hit) => match hit {
                Some(id) => id == u.id,
                None => false,
            },
        };
        out.push(hit || (u.selected && additive));
        i = i + 1;
    }
    out
}

/// Shift-picks only ever add to the selection, and only player units.
/// Other teams' units are never picked, whatever the pick.
pub proof fn additive_picks_never_deselect(u: Selectable, pick: Pick, player: u8)
    ensures
        u.selected ==> selected_after(u, pick, true, player),
        selected_after(u, pick, true, player) && !u.selected ==> u.team == player,
        u.team != player ==> (selected_after(u, pick, true, player) == u.selected),
{
}

/// A plain click selects exactly the clicked player unit; a plain click
/// on nothing clears the selection.
pub proof fn plain_click_selects_only_its_hit(u: Selectable, hit: Option<u64>, player: u8)
    ensures
        selected_after(u, Pick::Click(hit), false, player) == (hit == Some(u.id) && u.team == player),
        hit is None ==> !selected_after(u, Pick::Click(hit), false, player),
{
}

/// Entry `i` of `hits` is the nearest hit: the ray hits it, no hit is
/// nearer, and no earlier hit is as near. Each hit carries the bit pattern
/// of its non-negative ray distance, which orders as the distance does.
pub open spec fn first_nearest(hits: Seq<(u64, Option<u32>)>, i: int) -> bool {
    &&& 0 <= i < hits.len()
    &&& hits[i].1 is Some
    &&& forall|j: int| 0 <= j < hits.len() && (#[trigger] hits[j]).1 is Some ==> hits[i].1->0 <= hits[j].1->0
    &&& forall|j: int| 0 <= j < i && (#[trigger] hits[j]).1 is Some ==> hits[i].1->0 < hits[j].1->0
}

/// The entity the ray hits first, among candidates listed with their ray
/// distance (`None`: missed); equally near hits go to the first listed.
pub fn nearest_hit(hits: &Vec<(u64, Option<u32>)>) -> (r: Option<u64>)
    ensures
        match r {
            Some(e) => exists|i: int| first_nearest(hits@, i) && hits@[i].0 == e,
            None => forall|j: int| 0 <= j < hits@.len() ==> (#[trigger] hits@[j]).1 is None,
        },
{
    let mut best: Option<usize> = None;
    let mut i: usize = 0;
    while i < hits.len()
        invariant
            i <= hits@.len(),
            match best {
                Some(b) => {
                    &&& b < i
                    &&& hits@[b as int].1 is Some
                    &&& forall|j: int| 0 <= j < i && (#[trigger] hits@[j]).1 is Some ==> hits@[b as int].1->0 <= hits@[j].1->0
                    &&& forall|j: int| 0 <= j < b && (#[trigger] hits@[j]).1 is Some ==> hits@[b as int].1->0 < hits@[j].1->0
                },
                None => forall|j: int| 0 <= j < i ==> (#[trigger] hits@[j]).1 is None,
            },
        decreases hits@.len() - i,
    {
        if let Some(d) = hits[i].1 {
            let replace = match best {
                None => true,
                Some(b) => match hits[b].1 {
                    Some(bd) => d < bd,
                    None => true,
                },
            };
            if replace {
                best = Some(i);
            }
        }
        i = i + 1;
    }
    match best {
        Some(b) => {
            assert(first_nearest(hits@, b as int));
            Some(hits[b].0)
        },
        None => None,
    }
}

} // verus!
