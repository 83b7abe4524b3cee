//! Metal deposits: terrain resource nodes laid out in mirrored pairs.
//!
//! The layout has three home spots per side (indices 0-2 for the first
//! spawn, 3-5 for the second, each the mirror of the other), one mirrored
//! middle pair (6 and 7) and a self-mirrored centre spot (8). Positions are
//! repaired against the terrain by the caller; here the spacing rule keeps
//! the layout fair and the placement rule for metal generators is decided.
use crate::economy::balance::BuildingKind;
use vstd::prelude::*;

verus! {

/// Spots in the full layout.
pub const DEPOSIT_COUNT: usize = 9;

/// `a` and `b` are mirror twins.
pub open spec fn twins(a: int, b: int) -> bool {
    ||| (a == 0 && b == 3) || (a == 3 && b == 0)
    ||| (a == 1 && b == 4) || (a == 4 && b == 1)
    ||| (a == 2 && b == 5) || (a == 5 && b == 2)
    ||| (a == 6 && b == 7) || (a == 7 && b == 6)
}

/// The mirror twin of spot `i`, or `i` itself for the centre.
pub open spec fn twin_of(i: int) -> int {
    if 0 <= i < 3 {
        i + 3
    } else if 3 <= i < 6 {
        i - 3
    } else if i == 6 {
        7
    } else if i == 7 {
        6
    } else {
        i
    }
}

/// Which spots survive the spacing rule. `crowded[i]` says that spot `i`
/// lies too close to an earlier spot; a crowded spot is dropped, and with it
/// its mirror twin, so both sides always keep the same spots.
pub fn spacing_keep(crowded: &Vec<bool>) -> (r: Vec<bool>)
    requires
        crowded@.len() == DEPOSIT_COUNT,
    ensures
        r@.len() == DEPOSIT_COUNT,
        forall|i: int|
            0 <= i < DEPOSIT_COUNT ==> r@[i] == !(crowded@[i] || crowded@[twin_of(i)]),
        forall|a: int, b: int| twins(a, b) ==> r@[a] == r@[b],
{
    let mut keep: Vec<bool> = Vec::new();
    let mut i: usize = 0;
    while i < DEPOSIT_COUNT
        invariant
            i <= DEPOSIT_COUNT,
            crowded@.len() == DEPOSIT_COUNT,
            keep@.len() == i,
            forall|k: int| 0 <= k < i ==> keep@[k] == !(crowded@[k] || crowded@[twin_of(k)]),
        decreases DEPOSIT_COUNT - i,
    {
        let twin: usize = if i < 3 {
            i + 3
        } else if i < 6 {
            i - 3
        } else if i == 6 {
            7
        } else if i == 7 {
            6
        } else {
            i
        };
        keep.push(!(crowded[i] || crowded[twin]));
        i = i + 1;
    }
    keep
}

/// Refusal of a metal generator away from any deposit.
pub open spec fn needs_deposit_text() -> &'static str {
    "Metal needs a deposit — build on highlighted spots"
}

/// Refusal of a metal generator on a deposit already taken.
pub open spec fn occupied_text() -> &'static str {
    "Deposit occupied"
}

/// Placement rule for metal generators: only on a free deposit. `nearest`
/// is `None` when the map has no deposit, else whether the nearest one lies
/// within snapping distance of the point; `free` says that no live metal
/// generator of any team stands on it. Other kinds always pass.
pub fn metal_spot_ok(kind: BuildingKind, nearest: Option<bool>, free: bool) -> (r: Result<
    (),
    &'static str,
>)
    ensures
        kind != BuildingKind::Metal ==> r is Ok,
        kind == BuildingKind::Metal ==> r == (match nearest {
            None => Err(needs_deposit_text()),
            Some(false) => Err(needs_deposit_text()),
            Some(true) => if free {
                Ok(())
            } else {
                Err(occupied_text())
            },
        }),
{
    if kind != BuildingKind::Metal {
        return Ok(());
    }
    match nearest {
        None => Err("Metal needs a deposit — build on highlighted spots"),
        Some(false) => Err("Metal needs a deposit — build on highlighted spots"),
        Some(true) => {
            if free {
                Ok(())
            } else {
                Err("Deposit occupied")
            }
        },
    }
}

/// What orders deposits when a point looks for the nearest one: the bit
/// patterns of the squared distance, the yield multiplier and the two
/// coordinates. For the non-negative distances and positive multipliers of
/// the game the patterns order as the values do.
#[derive(Clone, Copy, Debug, PartialEq, Eq, Structural)]
pub struct DepositKey {
    pub distance: u32,
    pub mult: u32,
    pub x: u32,
    pub z: u32,
}

/// `a` strictly precedes `b`: nearer; equally near and richer; then by
/// the coordinates' bit patterns.
pub open spec fn precedes(a: DepositKey, b: DepositKey) -> bool {
    ||| a.distance < b.distance
    ||| a.distance == b.distance && a.mult > b.mult
    ||| a.distance == b.distance && a.mult == b.mult && a.x < b.x
    ||| a.distance == b.distance && a.mult == b.mult && a.x == b.x && a.z < b.z
}

/// Deposit `i` is the first of the open deposits that no open deposit
/// precedes.
pub open spec fn is_nearest_deposit(keys: Seq<DepositKey>, open: Seq<bool>, i: int) -> bool {
    &&& 0 <= i < keys.len()
    &&& open[i]
    &&& forall|j: int| 0 <= j < keys.len() && open[j] ==> !precedes(#[trigger] keys[j], keys[i])
    &&& forall|j: int| 0 <= j < i && open[j] ==> precedes(keys[i], #[trigger] keys[j])
}

/// The nearest deposit among those marked `free`, as an index into `keys`;
/// `None` when no deposit is free.
pub fn nearest_free(keys: &Vec<DepositKey>, free: &Vec<bool>) -> (r: Option<usize>)
    requires
        free@.len() == keys@.len(),
    ensures
        match r {
            Some(i) => is_nearest_deposit(keys@, free@, i as int),
            None => forall|j: int| 0 <= j < keys@.len() ==> !#[trigger] free@[j],
        },
{
    let mut best: Option<usize> = None;
    let mut i: usize = 0;
    while i < keys.len()
        invariant
            i <= keys@.len(),
            free@.len() == keys@.len(),
            match best {
                Some(b) => {
                    &&& b < i
                    &&& free@[b as int]
                    &&& forall|j: int| 0 <= j < i && free@[j] ==> !precedes(#[trigger] keys@[j], keys@[b as int])
                    &&& forall|j: int| 0 <= j < b && free@[j] ==> precedes(keys@[b as int], #[trigger] keys@[j])
                },
                None => forall|j: int| 0 <= j < i ==> !#[trigger] free@[j],
            },
        decreases keys@.len() - i,
    {
        if free[i] {
            let k = keys[i];
            let replace = match best {
                None => true,
                Some(b) => {
                    let c = keys[b];
                    k.distance < c.distance || (k.distance == c.distance && (k.mult > c.mult || (
                    k.mult == c.mult && (k.x < c.x || (k.x == c.x && k.z < c.z)))))
                },
            };
            if replace {
                best = Some(i);
            }
        }
        i = i + 1;
    }
    best
}

/// The nearest deposit of all, as an index into `keys`; `None` on a map
/// without deposits.
pub fn nearest_deposit(keys: &Vec<DepositKey>) -> (r: Option<usize>)
    ensures
        match r {
            Some(i) => is_nearest_deposit(keys@, Seq::new(keys@.len(), |j: int| true), i as int),
            None => keys@.len() == 0,
        },
{
    let mut all: Vec<bool> = Vec::new();
    let mut k: usize = 0;
    while k < keys.len()
        invariant
            k <= keys@.len(),
            all@.len() == k,
            forall|j: int| 0 <= j < k ==> #[trigger] all@[j],
        decreases keys@.len() - k,
    {
        all.push(true);
        k = k + 1;
    }
    assert(all@ =~= Seq::new(keys@.len(), |j: int| true));
    let r = nearest_free(keys, &all);
    if r.is_none() && keys.len() > 0 {
        assert(all@[0]);
    }
    r
}

/// The nearest-deposit pick is a total order: no two different keys tie,
/// so the pick is the same whichever order the deposits were listed in,
/// up to deposits with identical keys.
pub proof fn deposit_order_is_total(a: DepositKey, b: DepositKey)
    ensures
        a != b ==> (precedes(a, b) || precedes(b, a)),
        !(precedes(a, b) && precedes(b, a)),
{
}

} // verus!
