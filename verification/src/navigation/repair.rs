//! Repairing spawn points and formation slots on the walkability grid.
//!
//! A point that lands on blocked ground is moved to the nearest acceptable
//! cell found by a deterministic spiral: ring after ring around the point's
//! cell, each ring walked in a fixed order. A formation gives each body its
//! own cell: the one under its ideal slot when that is free, else the free
//! cell nearest the slot. Which cells are acceptable, and how far a cell is
//! from a slot, are measured on world coordinates by the caller; the walk,
//! the reservations and the tie-breaks are decided here.
use vstd::prelude::*;

verus! {

/// Rings the spiral repair of a body-sized point walks.
pub const REPAIR_RINGS: u32 = 16;

/// Rings the scout-margin repair walks.
pub const SCOUT_REPAIR_RINGS: u32 = 12;

/// Offsets of the ring at Chebyshev distance `r`, in walking order: for each
/// column from west to east its south then its north cell, then for each
/// remaining row from south to north its west then its east cell.
pub open spec fn ring_order(r: int) -> Seq<(int, int)> {
    Seq::new((2 * (2 * r + 1)) as nat, |i: int| (i / 2 - r, if i % 2 == 0 { -r } else { r }))
        + Seq::new(
        (2 * (2 * r - 1)) as nat,
        |i: int| (if i % 2 == 0 { -r } else { r }, i / 2 - r + 1),
    )
}

/// Offsets of rings `1..=rings`, inner rings first.
pub open spec fn spiral_order(rings: nat) -> Seq<(int, int)>
    decreases rings,
{
    if rings == 0 {
        seq![]
    } else {
        spiral_order((rings - 1) as nat) + ring_order(rings as int)
    }
}

/// Index of the cell at `offset` from cell (`cx`, `cz`) of a square grid
/// `width` cells wide, if that cell lies on the grid.
pub open spec fn offset_cell(width: int, cx: int, cz: int, offset: (int, int)) -> Option<int> {
    let x = cx + offset.0;
    let z = cz + offset.1;
    if 0 <= x < width && 0 <= z < width {
        Some(z * width + x)
    } else {
        None
    }
}

/// The cell at `offset` lies on the grid and is acceptable.
pub open spec fn offset_accepted(
    accept: Seq<bool>,
    width: int,
    cx: int,
    cz: int,
    offset: (int, int),
) -> bool {
    match offset_cell(width, cx, cz, offset) {
        Some(c) => accept[c],
        None => false,
    }
}

proof fn lemma_spiral_prefix(a: nat, b: nat)
    requires
        a <= b,
    ensures
        spiral_order(a).len() <= spiral_order(b).len(),
        forall|k: int| 0 <= k < spiral_order(a).len() ==> spiral_order(b)[k] == spiral_order(a)[k],
    decreases b,
{
    if a < b {
        lemma_spiral_prefix(a, (b - 1) as nat);
    }
}

proof fn lemma_cell_in_grid(width: int, x: int, z: int)
    requires
        0 <= x < width,
        0 <= z < width,
    ensures
        0 <= z * width + x < width * width,
{
    assert(z * width <= (width - 1) * width) by (nonlinear_arith)
        requires
            0 <= z < width,
    ;
    assert((width - 1) * width + width == width * width) by (nonlinear_arith);
}

proof fn lemma_width_bound(width: usize)
    requires
        width * width <= usize::MAX,
    ensures
        width <= 0xffff_ffff,
{
    if width > 0xffff_ffff {
        assert(width * width >= 0x1_0000_0000 * 0x1_0000_0000) by (nonlinear_arith)
            requires
                width >= 0x1_0000_0000,
        ;
    }
}

/// Looks up one candidate of the walk.
fn probe(accept: &Vec<bool>, width: usize, x: i64, z: i64) -> (r: Option<usize>)
    requires
        accept@.len() == width * width,
    ensures
        match r {
            Some(c) => 0 <= x < width && 0 <= z < width && c == z * width + x && accept@[c as int],
            None => !(0 <= x < width && 0 <= z < width && accept@[z * width + x]),
        },
{
    let n = accept.len();
    proof {
        lemma_width_bound(width);
    }
    let w = width as i64;
    if x < 0 || z < 0 || x >= w || z >= w {
        return None;
    }
    proof {
        lemma_cell_in_grid(width as int, x as int, z as int);
    }
    let zu = z as usize;
    let xu = x as usize;
    assert(zu * width + xu < n);
    let index = zu * width + xu;
    if accept[index] {
        Some(index)
    } else {
        None
    }
}

/// The first acceptable cell on the spiral of `rings` rings around cell
/// (`cx`, `cz`), or `None` when the walk finds none. `accept` holds one flag
/// per cell of a square grid `width` cells wide, row by row. The centre cell
/// itself is not visited.
pub fn spiral_clear_cell(accept: &Vec<bool>, width: usize, cx: i64, cz: i64, rings: u32) -> (r:
    Option<usize>)
    requires
        accept@.len() == width * width,
        i64::MIN + rings <= cx <= i64::MAX - rings,
        i64::MIN + rings <= cz <= i64::MAX - rings,
    ensures
        match r {
            Some(c) => exists|k: int|
                #![trigger spiral_order(rings as nat)[k]]
                0 <= k < spiral_order(rings as nat).len() && offset_cell(
                    width as int,
                    cx as int,
                    cz as int,
                    spiral_order(rings as nat)[k],
                ) == Some(c as int) && accept@[c as int] && forall|j: int|
                    0 <= j < k ==> !offset_accepted(
                        accept@,
                        width as int,
                        cx as int,
                        cz as int,
                        #[trigger] spiral_order(rings as nat)[j],
                    ),
            None => forall|k: int|
                0 <= k < spiral_order(rings as nat).len() ==> !offset_accepted(
                    accept@,
                    width as int,
                    cx as int,
                    cz as int,
                    #[trigger] spiral_order(rings as nat)[k],
                ),
        },
{
    let ghost w = width as int;
    let ghost total = spiral_order(rings as nat);
    let mut ring: i64 = 1;
    while ring <= rings as i64
        invariant
            1 <= ring <= rings + 1,
            accept@.len() == width * width,
            i64::MIN + rings <= cx <= i64::MAX - rings,
            i64::MIN + rings <= cz <= i64::MAX - rings,
            total == spiral_order(rings as nat),
            w == width,
            forall|k: int|
                0 <= k < spiral_order((ring - 1) as nat).len() ==> !offset_accepted(
                    accept@,
                    w,
                    cx as int,
                    cz as int,
                    #[trigger] spiral_order((ring - 1) as nat)[k],
                ),
        decreases rings + 1 - ring,
    {
        let ghost before = spiral_order((ring - 1) as nat);
        let ghost here = spiral_order(ring as nat);
        let ghost l = before.len() as int;
        assert(here == before + ring_order(ring as int));
        proof {
            lemma_spiral_prefix(ring as nat, rings as nat);
        }
        let mut dx: i64 = -ring;
        while dx <= ring
            invariant
                1 <= ring <= rings,
                -ring <= dx <= ring + 1,
                accept@.len() == width * width,
                i64::MIN + rings <= cx <= i64::MAX - rings,
                i64::MIN + rings <= cz <= i64::MAX - rings,
                total == spiral_order(rings as nat),
                w == width,
                here == spiral_order(ring as nat),
                here == before + ring_order(ring as int),
                l == before.len(),
                here.len() <= total.len(),
                forall|k: int| 0 <= k < here.len() ==> total[k] == here[k],
                forall|k: int|
                    0 <= k < l + 2 * (dx + ring) ==> !offset_accepted(
                        accept@,
                        w,
                        cx as int,
                        cz as int,
                        #[trigger] here[k],
                    ),
            decreases ring + 1 - dx,
        {
            let ghost k0 = l + 2 * (dx + ring);
            assert(here[k0] == (dx as int, -ring as int));
            assert(here[k0 + 1] == (dx as int, ring as int));
            if let Some(found) = probe(accept, width, cx + dx, cz - ring) {
                assert(total[k0] == here[k0]);
                return Some(found);
            }
            if let Some(found) = probe(accept, width, cx + dx, cz + ring) {
                assert(total[k0 + 1] == here[k0 + 1]);
                return Some(found);
            }
            dx = dx + 1;
        }
        let mut dz: i64 = -ring + 1;
        while dz <= ring - 1
            invariant
                1 <= ring <= rings,
                -ring + 1 <= dz <= ring,
                accept@.len() == width * width,
                i64::MIN + rings <= cx <= i64::MAX - rings,
                i64::MIN + rings <= cz <= i64::MAX - rings,
                total == spiral_order(rings as nat),
                w == width,
                here == spiral_order(ring as nat),
                here == before + ring_order(ring as int),
                l == before.len(),
                here.len() <= total.len(),
                forall|k: int| 0 <= k < here.len() ==> total[k] == here[k],
                forall|k: int|
                    0 <= k < l + 2 * (2 * ring + 1) + 2 * (dz + ring - 1) ==> !offset_accepted(
                        accept@,
                        w,
                        cx as int,
                        cz as int,
                        #[trigger] here[k],
                    ),
            decreases ring - dz,
        {
            let ghost k0 = l + 2 * (2 * ring + 1) + 2 * (dz + ring - 1);
            assert(here[k0] == (-ring as int, dz as int));
            assert(here[k0 + 1] == (ring as int, dz as int));
            if let Some(found) = probe(accept, width, cx - ring, cz + dz) {
                assert(total[k0] == here[k0]);
                return Some(found);
            }
            if let Some(found) = probe(accept, width, cx + ring, cz + dz) {
                assert(total[k0 + 1] == here[k0 + 1]);
                return Some(found);
            }
            dz = dz + 1;
        }
        assert(here.len() == l + 2 * (2 * ring + 1) + 2 * (2 * ring - 1));
        ring = ring + 1;
    }
    assert(spiral_order((ring - 1) as nat) == total);
    None
}

/// Chebyshev length of an offset: the ring it lies on.
pub open spec fn ring_of(offset: (int, int)) -> int {
    let ax = if offset.0 < 0 { -offset.0 } else { offset.0 };
    let az = if offset.1 < 0 { -offset.1 } else { offset.1 };
    if ax < az { az } else { ax }
}

proof fn lemma_ring_members(r: int, i: int)
    requires
        r >= 1,
        0 <= i < ring_order(r).len(),
    ensures
        ring_of(ring_order(r)[i]) == r,
{
    let a = 2 * (2 * r + 1);
    if i < a {
        assert(ring_order(r)[i] == (i / 2 - r, if i % 2 == 0 { -r } else { r }));
    } else {
        let j = i - a;
        assert(ring_order(r)[i] == (if j % 2 == 0 { -r } else { r }, j / 2 - r + 1));
    }
}

proof fn lemma_ring_covers(r: int, dx: int, dz: int)
    requires
        r >= 1,
        ring_of((dx, dz)) == r,
    ensures
        exists|i: int| 0 <= i < ring_order(r).len() && #[trigger] ring_order(r)[i] == (dx, dz),
{
    let a = 2 * (2 * r + 1);
    if dz == -r || dz == r {
        let i = 2 * (dx + r) + if dz == r { 1int } else { 0 };
        assert(i / 2 == dx + r && (i % 2 == 0) == (dz == -r));
        assert(ring_order(r)[i] == (dx, dz));
    } else {
        let j = 2 * (dz + r - 1) + if dx == r { 1int } else { 0 };
        assert(j / 2 == dz + r - 1 && (j % 2 == 0) == (dx == -r));
        assert(ring_order(r)[a + j] == (dx, dz));
    }
}

proof fn lemma_spiral_position(rings: nat, k: int)
    requires
        0 <= k < spiral_order(rings).len(),
    ensures
        1 <= ring_of(spiral_order(rings)[k]) <= rings,
        spiral_order((ring_of(spiral_order(rings)[k]) - 1) as nat).len() <= k < spiral_order(
            ring_of(spiral_order(rings)[k]) as nat,
        ).len(),
    decreases rings,
{
    let before = spiral_order((rings - 1) as nat);
    if k < before.len() {
        lemma_spiral_position((rings - 1) as nat, k);
        assert(spiral_order(rings)[k] == before[k]);
    } else {
        lemma_ring_members(rings as int, k - before.len());
        assert(spiral_order(rings)[k] == ring_order(rings as int)[k - before.len()]);
        assert(ring_of(spiral_order(rings)[k]) == rings);
    }
}

/// The repair walk visits every offset of rings `1..=rings`, each ring
/// after all nearer ones.
pub proof fn spiral_visits_nearer_rings_first(rings: nat, dx: int, dz: int)
    requires
        1 <= ring_of((dx, dz)) <= rings,
    ensures
        exists|k: int|
            spiral_order((ring_of((dx, dz)) - 1) as nat).len() <= k < spiral_order(ring_of((dx, dz)) as nat).len()
                && #[trigger] spiral_order(rings)[k] == (dx, dz),
{
    let r = ring_of((dx, dz));
    lemma_ring_covers(r, dx, dz);
    let i = choose|i: int| 0 <= i < ring_order(r).len() && #[trigger] ring_order(r)[i] == (dx, dz);
    let before = spiral_order((r - 1) as nat);
    let k = before.len() + i;
    assert(spiral_order(r as nat) == before + ring_order(r));
    assert(spiral_order(r as nat)[k] == (dx, dz));
    lemma_spiral_prefix(r as nat, rings);
    assert(spiral_order(rings)[k] == (dx, dz));
}

/// A repaired point lands in the nearest ring that has an acceptable cell:
/// no acceptable cell lies on a ring nearer than the one the walk stopped
/// on.
pub proof fn repair_stops_at_the_nearest_ring(
    accept: Seq<bool>,
    width: int,
    cx: int,
    cz: int,
    rings: nat,
    k: int,
    dx: int,
    dz: int,
)
    requires
        0 <= k < spiral_order(rings).len(),
        forall|j: int|
            0 <= j < k ==> !offset_accepted(accept, width, cx, cz, #[trigger] spiral_order(rings)[j]),
        1 <= ring_of((dx, dz)) <= rings,
        offset_accepted(accept, width, cx, cz, (dx, dz)),
    ensures
        ring_of(spiral_order(rings)[k]) <= ring_of((dx, dz)),
{
    lemma_spiral_position(rings, k);
    let r = ring_of(spiral_order(rings)[k]);
    let s = ring_of((dx, dz));
    if s < r {
        spiral_visits_nearer_rings_first(rings, dx, dz);
        let j = choose|j: int|
            spiral_order((s - 1) as nat).len() <= j < spiral_order(s as nat).len()
                && #[trigger] spiral_order(rings)[j] == (dx, dz);
        lemma_spiral_prefix(s as nat, (r - 1) as nat);
        assert(j < k);
    }
}

/// Cell `c` can take a body: on the grid, free, and not yet given away.
pub open spec fn open_cell(free: Seq<bool>, given: Seq<int>, c: int) -> bool {
    0 <= c < free.len() && free[c] && !given.contains(c)
}

/// Cell `c` is the open cell nearest the slot whose distances are `keys`:
/// no open cell is nearer, and among equally near cells it has the lowest
/// index.
pub open spec fn nearest_open(keys: Seq<u32>, free: Seq<bool>, given: Seq<int>, c: int) -> bool {
    &&& open_cell(free, given, c)
    &&& forall|d: int|
        #[trigger] open_cell(free, given, d) ==> keys[c] < keys[d] || (keys[c] == keys[d] && c <= d)
}

/// The cell a slot takes: the cell under its ideal point when that one is
/// open, else the nearest open cell, else none.
pub open spec fn slot_cell(own: Option<usize>, keys: Seq<u32>, free: Seq<bool>, given: Seq<int>) -> Option<
    int,
> {
    if own is Some && open_cell(free, given, own->0 as int) {
        Some(own->0 as int)
    } else if exists|c: int| nearest_open(keys, free, given, c) {
        Some(choose|c: int| nearest_open(keys, free, given, c))
    } else {
        None
    }
}

/// Cells of the first `n` slots, each taken in turn, or `None` when a slot
/// finds no open cell.
pub open spec fn assign_cells(own: Seq<Option<usize>>, keys: Seq<Vec<u32>>, free: Seq<bool>, n: nat) -> Option<
    Seq<int>,
>
    decreases n,
{
    if n == 0 {
        Some(seq![])
    } else {
        match assign_cells(own, keys, free, (n - 1) as nat) {
            None => None,
            Some(given) => match slot_cell(own[n - 1], keys[n - 1]@, free, given) {
                None => None,
                Some(c) => Some(given.push(c)),
            },
        }
    }
}

proof fn lemma_unplaced_stays_unplaced(
    own: Seq<Option<usize>>,
    keys: Seq<Vec<u32>>,
    free: Seq<bool>,
    a: nat,
    b: nat,
)
    requires
        a <= b,
        assign_cells(own, keys, free, a) is None,
    ensures
        assign_cells(own, keys, free, b) is None,
    decreases b,
{
    if a < b {
        lemma_unplaced_stays_unplaced(own, keys, free, a, (b - 1) as nat);
    }
}

/// The free cells of the grid.
pub open spec fn free_cells(free: Seq<bool>) -> Set<int> {
    Set::new(|c: int| 0 <= c < free.len() && free[c])
}

proof fn lemma_nearest_unique(keys: Seq<u32>, free: Seq<bool>, given: Seq<int>, a: int, b: int)
    requires
        nearest_open(keys, free, given, a),
        nearest_open(keys, free, given, b),
    ensures
        a == b,
{
    assert(open_cell(free, given, a) && open_cell(free, given, b));
}

/// Lowest-keyed open cell below `k`.
spec fn least_below(keys: Seq<u32>, free: Seq<bool>, given: Seq<int>, c: int, k: int) -> bool {
    &&& open_cell(free, given, c)
    &&& c < k
    &&& forall|d: int|
        #[trigger] open_cell(free, given, d) && d < k ==> keys[c] < keys[d] || (keys[c] == keys[d] && c
            <= d)
}

proof fn lemma_least_exists(keys: Seq<u32>, free: Seq<bool>, given: Seq<int>, k: int)
    requires
        exists|d: int| open_cell(free, given, d) && d < k,
    ensures
        exists|c: int| least_below(keys, free, given, c, k),
    decreases k,
{
    let d0 = choose|d: int| open_cell(free, given, d) && d < k;
    let km = k - 1;
    if exists|d: int| open_cell(free, given, d) && d < km {
        lemma_least_exists(keys, free, given, km);
        let c = choose|c: int| least_below(keys, free, given, c, km);
        if open_cell(free, given, k - 1) && keys[k - 1] < keys[c] {
            assert(least_below(keys, free, given, k - 1, k));
        } else {
            assert(least_below(keys, free, given, c, k));
        }
    } else {
        assert(d0 == k - 1);
        assert(least_below(keys, free, given, k - 1, k));
    }
}

proof fn lemma_nearest_exists(keys: Seq<u32>, free: Seq<bool>, given: Seq<int>, d: int)
    requires
        open_cell(free, given, d),
    ensures
        exists|c: int| nearest_open(keys, free, given, c),
{
    let n = free.len() as int;
    lemma_least_exists(keys, free, given, n);
    let c = choose|c: int| least_below(keys, free, given, c, n);
    assert(nearest_open(keys, free, given, c));
}

/// The open cell nearest a slot, scanning the grid in index order.
fn nearest_open_cell(keys: &Vec<u32>, free: &Vec<bool>, taken: &Vec<bool>, Ghost(given): Ghost<Seq<int>>) -> (r:
    Option<usize>)
    requires
        keys@.len() == free@.len(),
        taken@.len() == free@.len(),
        forall|c: int| 0 <= c < free@.len() ==> (taken@[c] <==> given.contains(c)),
    ensures
        match r {
            Some(c) => nearest_open(keys@, free@, given, c as int),
            None => forall|c: int| !open_cell(free@, given, c),
        },
{
    let mut best: Option<usize> = None;
    let mut c: usize = 0;
    while c < free.len()
        invariant
            c <= free@.len(),
            keys@.len() == free@.len(),
            taken@.len() == free@.len(),
            forall|e: int| 0 <= e < free@.len() ==> (taken@[e] <==> given.contains(e)),
            match best {
                Some(b) => least_below(keys@, free@, given, b as int, c as int),
                None => forall|d: int| open_cell(free@, given, d) ==> d >= c,
            },
        decreases free@.len() - c,
    {
        if free[c] && !taken[c] {
            let better = match best {
                None => true,
                Some(b) => keys[c] < keys[b],
            };
            if better {
                best = Some(c);
            }
        }
        c = c + 1;
    }
    if let Some(b) = best {
        assert(nearest_open(keys@, free@, given, b as int));
    }
    best
}

/// Gives each slot of a formation its own cell, slot by slot: the cell under
/// the slot's ideal point (`own`) when that one is free and not yet given,
/// else the free cell nearest the slot by `keys` (one key per cell, lower is
/// nearer, ties to the lower index). `None` when a slot finds no cell.
pub fn assign_slots(own: &Vec<Option<usize>>, keys: &Vec<Vec<u32>>, free: &Vec<bool>) -> (r: Option<
    Vec<usize>,
>)
    requires
        keys@.len() == own@.len(),
        forall|i: int| 0 <= i < keys@.len() ==> (#[trigger] keys@[i])@.len() == free@.len(),
    ensures
        match r {
            Some(cells) => assign_cells(own@, keys@, free@, own@.len()) == Some(
                cells@.map_values(|c: usize| c as int),
            ),
            None => assign_cells(own@, keys@, free@, own@.len()) is None,
        },
{
    let mut taken: Vec<bool> = Vec::new();
    let mut k: usize = 0;
    while k < free.len()
        invariant
            k <= free@.len(),
            taken@.len() == k,
            forall|c: int| 0 <= c < k ==> !taken@[c],
        decreases free@.len() - k,
    {
        taken.push(false);
        k = k + 1;
    }
    let mut cells: Vec<usize> = Vec::new();
    let mut i: usize = 0;
    while i < own.len()
        invariant
            i <= own@.len(),
            keys@.len() == own@.len(),
            forall|j: int| 0 <= j < keys@.len() ==> (#[trigger] keys@[j])@.len() == free@.len(),
            taken@.len() == free@.len(),
            assign_cells(own@, keys@, free@, i as nat) == Some(cells@.map_values(|c: usize| c as int)),
            forall|c: int|
                0 <= c < free@.len() ==> (taken@[c] <==> cells@.map_values(|c: usize| c as int).contains(
                    c,
                )),
        decreases own@.len() - i,
    {
        let ghost given = cells@.map_values(|c: usize| c as int);
        let mut pick: Option<usize> = None;
        if let Some(c) = own[i] {
            if c < free.len() && free[c] && !taken[c] {
                pick = Some(c);
            }
        }
        if pick.is_none() {
            pick = nearest_open_cell(&keys[i], free, &taken, Ghost(given));
            proof {
                match pick {
                    Some(c) => {
                        lemma_nearest_exists(keys@[i as int]@, free@, given, c as int);
                        let d = choose|d: int| nearest_open(keys@[i as int]@, free@, given, d);
                        lemma_nearest_unique(keys@[i as int]@, free@, given, c as int, d);
                    },
                    None => {},
                }
            }
        }
        assert(slot_cell(own@[i as int], keys@[i as int]@, free@, given) == match pick {
            Some(c) => Some(c as int),
            None => None::<int>,
        });
        match pick {
            None => {
                proof {
                    lemma_unplaced_stays_unplaced(own@, keys@, free@, (i + 1) as nat, own@.len());
                }
                return None;
            },
            Some(c) => {
                taken.set(c, true);
                cells.push(c);
                assert(cells@.map_values(|c: usize| c as int) =~= given.push(c as int));
                assert forall|e: int| 0 <= e < free@.len() implies (taken@[e] <==> given.push(
                    c as int,
                ).contains(e)) by {
                    if e == c as int {
                        assert(given.push(c as int)[given.len() as int] == e);
                    } else if given.contains(e) {
                        let j = choose|j: int| 0 <= j < given.len() && given[j] == e;
                        assert(given.push(c as int)[j] == e);
                    } else if given.push(c as int).contains(e) {
                        let j = choose|j: int| 0 <= j < given.len() + 1 && given.push(c as int)[j] == e;
                        assert(given[j] == e);
                    }
                }
            },
        }
        i = i + 1;
    }
    Some(cells)
}

proof fn lemma_free_cells_finite(free: Seq<bool>)
    ensures
        free_cells(free).finite(),
        free_cells(free).len() <= free.len(),
{
    vstd::set_lib::lemma_int_range(0, free.len() as int);
    vstd::set_lib::lemma_len_subset(free_cells(free), vstd::set_lib::set_int_range(0, free.len() as int));
}

proof fn lemma_assign_shape(own: Seq<Option<usize>>, keys: Seq<Vec<u32>>, free: Seq<bool>, n: nat)
    ensures
        (assign_cells(own, keys, free, n) is Some) <==> n <= free_cells(free).len(),
        assign_cells(own, keys, free, n) matches Some(s) ==> {
            &&& s.len() == n
            &&& s.no_duplicates()
            &&& forall|k: int| 0 <= k < s.len() ==> #[trigger] free_cells(free).contains(s[k])
        },
    decreases n,
{
    lemma_free_cells_finite(free);
    let fc = free_cells(free);
    if n > 0 {
        let m = (n - 1) as nat;
        lemma_assign_shape(own, keys, free, m);
        if let Some(given) = assign_cells(own, keys, free, m) {
            let gs = given.to_set();
            given.unique_seq_to_set();
            assert(gs.subset_of(fc)) by {
                assert forall|c: int| gs.contains(c) implies fc.contains(c) by {
                    let j = choose|j: int| 0 <= j < given.len() && given[j] == c;
                    assert(fc.contains(given[j]));
                }
            }
            let pick = slot_cell(own[m as int], keys[m as int]@, free, given);
            if exists|c: int| open_cell(free, given, c) {
                let c = choose|c: int| open_cell(free, given, c);
                lemma_nearest_exists(keys[m as int]@, free, given, c);
                assert(fc.contains(c) && !gs.contains(c));
                vstd::set_lib::lemma_len_subset(gs, fc.remove(c));
                let p = pick->0;
                assert(open_cell(free, given, p));
                let s = given.push(p);
                assert(s.no_duplicates()) by {
                    assert forall|a: int, b: int| 0 <= a < s.len() && 0 <= b < s.len() && a != b implies s[a]
                        != s[b] by {
                        if a == given.len() {
                            assert(given.contains(s[b]));
                        } else if b == given.len() {
                            assert(given.contains(s[a]));
                        }
                    }
                }
                assert forall|k: int| 0 <= k < s.len() implies #[trigger] fc.contains(s[k]) by {
                    if k < given.len() {
                        assert(s[k] == given[k]);
                    }
                }
            } else {
                assert(fc.subset_of(gs)) by {
                    assert forall|c: int| fc.contains(c) implies gs.contains(c) by {
                        assert(!open_cell(free, given, c));
                        assert(given.contains(c));
                    }
                }
                vstd::set_lib::lemma_len_subset(fc, gs);
                if own[m as int] is Some && open_cell(free, given, own[m as int]->0 as int) {
                    assert(false);
                }
                if exists|c: int| nearest_open(keys[m as int]@, free, given, c) {
                    let c = choose|c: int| nearest_open(keys[m as int]@, free, given, c);
                    assert(open_cell(free, given, c));
                }
            }
        }
    }
}

/// Formation cells are taken, never shared: every body placed gets a free
/// cell of its own.
pub proof fn formation_cells_are_distinct(own: Seq<Option<usize>>, keys: Seq<Vec<u32>>, free: Seq<bool>, n: nat)
    requires
        assign_cells(own, keys, free, n) is Some,
    ensures
        assign_cells(own, keys, free, n)->0.len() == n,
        assign_cells(own, keys, free, n)->0.no_duplicates(),
        forall|k: int|
            0 <= k < n ==> #[trigger] free_cells(free).contains(assign_cells(own, keys, free, n)->0[k]),
{
    lemma_assign_shape(own, keys, free, n);
}

/// A formation fails exactly when the grid has fewer free cells than the
/// formation has bodies.
pub proof fn formation_fits_iff_room(own: Seq<Option<usize>>, keys: Seq<Vec<u32>>, free: Seq<bool>, n: nat)
    ensures
        (assign_cells(own, keys, free, n) is Some) <==> n <= free_cells(free).len(),
{
    lemma_assign_shape(own, keys, free, n);
}

} // verus!
