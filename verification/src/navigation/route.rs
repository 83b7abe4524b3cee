//! The grid side of route planning: which neighbours a search expands from
//! a cell, how a finished search's parent chain becomes a list of cells,
//! and how straight runs of cells collapse to their turns.
//!
//! Costs, line of sight and hull clearance are measured on world
//! coordinates by the planner; it hands in which cells a hull fits.
use super::scratch::{PathScratch, NO_PARENT};
use vstd::prelude::*;

verus! {

/// The eight neighbour offsets in expansion order: west, east, south,
/// north, then the four diagonals.
pub open spec fn neighbor_offsets() -> Seq<(int, int)> {
    seq![(-1, 0), (1, 0), (0, -1), (0, 1), (-1, -1), (-1, 1), (1, -1), (1, 1)]
}

/// Index of the cell at `(x, z)` of a square grid `width` cells wide, if on
/// the grid.
pub open spec fn grid_cell(width: int, x: int, z: int) -> Option<int> {
    if 0 <= x < width && 0 <= z < width {
        Some(z * width + x)
    } else {
        None
    }
}

/// Whether the search steps from `current` by offset `d`: the neighbour is
/// on the grid, walkable and fits the hull (`fits`); a diagonal step also
/// needs both side cells walkable and fitting (`side_fits`), so paths never
/// cut a blocked corner.
pub open spec fn steps(
    walkable: Seq<bool>,
    fits: Seq<bool>,
    side_fits: Seq<bool>,
    width: int,
    current: int,
    d: (int, int),
) -> bool {
    let x = current % width;
    let z = current / width;
    match grid_cell(width, x + d.0, z + d.1) {
        None => false,
        Some(n) => walkable[n] && fits[n] && (d.0 != 0 && d.1 != 0 ==> {
            let a = z * width + x + d.0;
            let b = (z + d.1) * width + x;
            walkable[a] && walkable[b] && side_fits[a] && side_fits[b]
        }),
    }
}

/// Neighbours expanded from `current` among the first `k` offsets.
pub open spec fn expansion(
    walkable: Seq<bool>,
    fits: Seq<bool>,
    side_fits: Seq<bool>,
    width: int,
    current: int,
    k: int,
) -> Seq<usize>
    decreases k,
{
    if k <= 0 {
        Seq::empty()
    } else {
        let d = neighbor_offsets()[k - 1];
        expansion(walkable, fits, side_fits, width, current, k - 1) + if steps(
            walkable,
            fits,
            side_fits,
            width,
            current,
            d,
        ) {
            seq![((current / width + d.1) * width + current % width + d.0) as usize]
        } else {
            Seq::empty()
        }
    }
}

fn offset(k: usize) -> (r: (i64, i64))
    requires
        k < 8,
    ensures
        (r.0 as int, r.1 as int) == neighbor_offsets()[k as int],
{
    match k {
        0 => (-1, 0),
        1 => (1, 0),
        2 => (0, -1),
        3 => (0, 1),
        4 => (-1, -1),
        5 => (-1, 1),
        6 => (1, -1),
        _ => (1, 1),
    }
}

proof fn lemma_cell_bounds(width: int, x: int, z: int)
    requires
        0 <= x < width,
        0 <= z < width,
    ensures
        0 <= z * width + x < width * width,
{
    assert(z * width <= (width - 1) * width) by (nonlinear_arith)
        requires
            0 <= z < width,
    ;
    assert((width - 1) * width + width == width * width) by (nonlinear_arith);
}

proof fn lemma_split_index(width: int, c: int)
    requires
        width > 0,
        0 <= c < width * width,
    ensures
        0 <= c % width < width,
        0 <= c / width < width,
        (c / width) * width + c % width == c,
{
    vstd::arithmetic::div_mod::lemma_fundamental_div_mod(c, width);
    vstd::arithmetic::div_mod::lemma_div_pos_is_pos(c, width);
    vstd::arithmetic::div_mod::lemma_mod_pos_bound(c, width);
    if c / width >= width {
        assert((c / width) * width >= width * width) by (nonlinear_arith)
            requires
                c / width >= width,
                width > 0,
        ;
    }
}

/// The neighbours a search expands from `current`, in expansion order. All
/// three masks hold one flag per cell of a square grid `width` cells wide,
/// row by row: `walkable` cells, cells a hull may enter (`fits`) and cells
/// a hull may brush past on a diagonal (`side_fits`).
pub fn expand(walkable: &Vec<bool>, fits: &Vec<bool>, side_fits: &Vec<bool>, width: usize, current: usize) -> (r:
    Vec<usize>)
    requires
        walkable@.len() == width * width,
        fits@.len() == width * width,
        side_fits@.len() == width * width,
        current < width * width,
    ensures
        r@ == expansion(walkable@, fits@, side_fits@, width as int, current as int, 8),
        forall|i: int| 0 <= i < r@.len() ==> #[trigger] r@[i] < width * width,
{
    let n = walkable.len();
    proof {
        lemma_split_index(width as int, current as int);
        assert(width <= 0xffff_ffff) by {
            if width > 0xffff_ffff {
                assert(width * width >= 0x1_0000_0000 * 0x1_0000_0000) by (nonlinear_arith)
                    requires
                        width >= 0x1_0000_0000,
                ;
            }
        }
    }
    let w = width as i64;
    let x = (current % width) as i64;
    let z = (current / width) as i64;
    let mut out: Vec<usize> = Vec::new();
    let mut k: usize = 0;
    while k < 8
        invariant
            k <= 8,
            n == width * width,
            walkable@.len() == n,
            fits@.len() == n,
            side_fits@.len() == n,
            current < n,
            w == width,
            width <= 0xffff_ffff,
            x == current % width,
            z == current / width,
            0 <= x < width,
            0 <= z < width,
            z * width + x == current,
            out@ == expansion(walkable@, fits@, side_fits@, width as int, current as int, k as int),
            forall|i: int| 0 <= i < out@.len() ==> #[trigger] out@[i] < n,
        decreases 8 - k,
    {
        let (dx, dz) = offset(k);
        let nx = x + dx;
        let nz = z + dz;
        let ghost d = neighbor_offsets()[k as int];
        if nx >= 0 && nz >= 0 && nx < w && nz < w {
            proof {
                lemma_cell_bounds(width as int, nx as int, nz as int);
                lemma_cell_bounds(width as int, nx as int, z as int);
                lemma_cell_bounds(width as int, x as int, nz as int);
            }
            let next = (nz as usize) * width + (nx as usize);
            let mut ok = walkable[next] && fits[next];
            if ok && dx != 0 && dz != 0 {
                let a = (z as usize) * width + (nx as usize);
                let b = (nz as usize) * width + (x as usize);
                ok = walkable[a] && walkable[b] && side_fits[a] && side_fits[b];
            }
            proof {
                assert(z * width + x + d.0 == z * width + nx);
                assert((z + d.1) * width + x == nz * width + x) by (nonlinear_arith)
                    requires
                        z + d.1 == nz,
                ;
                assert(steps(walkable@, fits@, side_fits@, width as int, current as int, d) == ok);
            }
            if ok {
                out.push(next);
            }
            proof {
                assert((nz * width + nx) as usize == next);
            }
        } else {
            assert(!steps(walkable@, fits@, side_fits@, width as int, current as int, d));
        }
        assert(out@ =~= expansion(walkable@, fits@, side_fits@, width as int, current as int, k + 1));
        k = k + 1;
    }
    out
}

/// `node` leads back to `start` by at most `fuel` parent links.
pub open spec fn reaches(parents: Seq<usize>, start: usize, node: usize, fuel: nat) -> bool
    decreases fuel,
{
    node == start || (fuel > 0 && node != NO_PARENT && node < parents.len() && reaches(
        parents,
        start,
        parents[node as int],
        (fuel - 1) as nat,
    ))
}

/// The cells of the route a finished search found, from `start` to
/// `goal`: the goal's parent chain, reversed. `None` when the chain breaks
/// before it reaches the start, or runs longer than the grid has cells.
pub fn trace_route<C: Copy>(scratch: &PathScratch<C>, start: usize, goal: usize) -> (r: Option<Vec<usize>>)
    requires
        scratch.wf(),
        start < scratch.costs().len(),
        goal < scratch.costs().len(),
    ensures
        r is Some <==> reaches(scratch.parents(), start, goal, scratch.costs().len() as nat),
        r matches Some(cells) ==> {
            &&& cells@.len() >= 1
            &&& cells@[0] == start
            &&& cells@.last() == goal
            &&& forall|i: int| 0 <= i < cells@.len() ==> #[trigger] cells@[i] < scratch.costs().len()
            &&& forall|i: int| 1 <= i < cells@.len() ==> scratch.parents()[#[trigger] cells@[i] as int] == cells@[i - 1]
        },
{
    let len = scratch.len();
    let ghost parents = scratch.parents();
    proof {
        scratch.lemma_parents_span();
    }
    let mut back: Vec<usize> = Vec::new();
    back.push(goal);
    let mut node = goal;
    let mut steps: usize = 0;
    while node != start
        invariant
            scratch.wf(),
            parents == scratch.parents(),
            len == scratch.costs().len(),
            parents.len() == len,
            start < len,
            node < len,
            steps <= len,
            back@.len() == steps + 1,
            back@[0] == goal,
            back@.last() == node,
            forall|i: int| 0 <= i < back@.len() ==> #[trigger] back@[i] < len,
            forall|i: int| 0 <= i < back@.len() - 1 ==> parents[#[trigger] back@[i] as int] == back@[i + 1],
            reaches(parents, start, goal, len as nat) <==> reaches(parents, start, node, (len - steps) as nat),
        decreases len - steps,
    {
        if steps == len {
            assert(!reaches(parents, start, node, 0));
            return None;
        }
        let p = scratch.parent(node);
        if p == NO_PARENT {
            assert(!reaches(parents, start, p, (len - steps - 1) as nat));
            assert(!reaches(parents, start, node, (len - steps) as nat));
            return None;
        }
        if p >= len {
            assert(!reaches(parents, start, p, (len - steps - 1) as nat));
            assert(!reaches(parents, start, node, (len - steps) as nat));
            return None;
        }
        assert(reaches(parents, start, node, (len - steps) as nat) == reaches(parents, start, p, (len - steps - 1) as nat));
        back.push(p);
        node = p;
        steps = steps + 1;
    }
    let mut cells: Vec<usize> = Vec::new();
    let mut i: usize = back.len();
    while i > 0
        invariant
            i <= back@.len(),
            back@.len() >= 1,
            cells@.len() == back@.len() - i,
            forall|k: int| 0 <= k < cells@.len() ==> #[trigger] cells@[k] == back@[back@.len() - 1 - k],
        decreases i,
    {
        i = i - 1;
        cells.push(back[i]);
    }
    proof {
        assert forall|k: int| 1 <= k < cells@.len() implies parents[#[trigger] cells@[k] as int] == cells@[k - 1] by {
            let j = back@.len() - 1 - k;
            assert(cells@[k] == back@[j]);
            assert(cells@[k - 1] == back@[j + 1]);
        }
        assert forall|k: int| 0 <= k < cells@.len() implies #[trigger] cells@[k] < len by {
            assert(cells@[k] == back@[back@.len() - 1 - k]);
        }
    }
    Some(cells)
}

/// Cell `i` of a route is kept: an end, or a cell where the route turns
/// (the step into it differs from the step out of it).
pub open spec fn turns(cells: Seq<usize>, i: int) -> bool {
    i == 0 || i == cells.len() - 1 || cells[i] - cells[i - 1] != cells[i + 1] - cells[i]
}

/// The kept cells among the first `n` cells of a route, in order.
pub open spec fn kept(cells: Seq<usize>, n: int) -> Seq<usize>
    decreases n,
{
    if n <= 0 {
        Seq::empty()
    } else {
        kept(cells, n - 1) + if turns(cells, n - 1) {
            seq![cells[n - 1]]
        } else {
            Seq::empty()
        }
    }
}

/// A route with straight runs collapsed to their ends and turns.
pub fn drop_straight(cells: &Vec<usize>) -> (r: Vec<usize>)
    ensures
        r@ == kept(cells@, cells@.len() as int),
{
    let n = cells.len();
    let mut out: Vec<usize> = Vec::new();
    let mut i: usize = 0;
    while i < n
        invariant
            i <= n,
            n == cells@.len(),
            out@ == kept(cells@, i as int),
        decreases n - i,
    {
        let keep = if i == 0 || i + 1 == n {
            true
        } else {
            let incoming = cells[i] as i128 - cells[i - 1] as i128;
            let outgoing = cells[i + 1] as i128 - cells[i] as i128;
            incoming != outgoing
        };
        assert(keep == turns(cells@, i as int));
        if keep {
            out.push(cells[i]);
        }
        assert(out@ =~= kept(cells@, i + 1));
        i = i + 1;
    }
    out
}

proof fn lemma_kept_ends(cells: Seq<usize>, n: int)
    requires
        1 <= n <= cells.len(),
    ensures
        kept(cells, n).len() >= 1,
        kept(cells, n)[0] == cells[0],
    decreases n,
{
    if n > 1 {
        lemma_kept_ends(cells, n - 1);
        let a = kept(cells, n - 1);
        let b = if turns(cells, n - 1) {
            seq![cells[n - 1]]
        } else {
            Seq::<usize>::empty()
        };
        assert(kept(cells, n) == a + b);
        assert((a + b)[0] == a[0]);
    } else {
        assert(kept(cells, 0) == Seq::<usize>::empty());
        assert(turns(cells, 0));
        assert(kept(cells, 1) == Seq::<usize>::empty() + seq![cells[0]]);
        assert(kept(cells, 1)[0] == cells[0]);
    }
}

/// Collapsing straight runs keeps a route's first and last cells.
pub proof fn collapsed_routes_keep_their_ends(cells: Seq<usize>)
    requires
        cells.len() >= 1,
    ensures
        kept(cells, cells.len() as int).len() >= 1,
        kept(cells, cells.len() as int)[0] == cells[0],
        kept(cells, cells.len() as int).last() == cells.last(),
{
    lemma_kept_ends(cells, cells.len() as int);
    assert(turns(cells, cells.len() - 1));
}

} // verus!
