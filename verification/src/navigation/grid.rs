//! Integer core of the navigation grid.
//!
//! The obstacle generator draws from a splitmix64 stream, so a seed gives
//! the same layout on every platform. Each candidate layout is kept only if
//! the key gameplay points stay walkable and mutually reachable through
//! 4-neighbour steps over walkable cells; [`key_points_connected`] decides
//! that by a flood fill proved sound and complete against [`reachable`].
use vstd::prelude::*;
use vstd::wrapping::u64_specs::{wrapping_add, wrapping_mul};

verus! {

/// Fixed map seed: the obstacle layout is identical on every run.
pub const MAP_SEED: u64 = 20260907;
/// Target obstacle count for the default map.
pub const MAP_OBSTACLES: usize = 100;
/// Weyl increment of splitmix64.
pub const SPLITMIX_GAMMA: u64 = 0x9E3779B97F4A7C15;

/// The splitmix64 output function applied to an advanced state.
pub open spec fn splitmix_mix(z: u64) -> u64 {
    let a = wrapping_mul(z ^ (z >> 30u64), 0xBF58476D1CE4E5B9u64);
    let b = wrapping_mul(a ^ (a >> 27u64), 0x94D049BB133111EBu64);
    b ^ (b >> 31u64)
}

/// Deterministic splitmix64 generator; the field is its state.
pub struct SplitMix64(pub u64);

impl SplitMix64 {
    /// Advances the state by the Weyl increment and returns the mixed state.
    pub fn next(&mut self) -> (r: u64)
        ensures
            final(self).0 == wrapping_add(old(self).0, SPLITMIX_GAMMA),
            r == splitmix_mix(final(self).0),
    {
        self.0 = self.0.wrapping_add(SPLITMIX_GAMMA);
        let mut z = self.0;
        z = (z ^ (z >> 30)).wrapping_mul(0xBF58476D1CE4E5B9);
        z = (z ^ (z >> 27)).wrapping_mul(0x94D049BB133111EB);
        z ^ (z >> 31)
    }

    /// The top 53 bits of the next output: the mantissa that a uniform draw
    /// in `[0, 1)` is made of (divided by 2^53 by the caller).
    pub fn next_unit_bits(&mut self) -> (r: u64)
        ensures
            final(self).0 == wrapping_add(old(self).0, SPLITMIX_GAMMA),
            r == splitmix_mix(final(self).0) >> 11u64,
            r < 0x20_0000_0000_0000,
    {
        let x = self.next();
        let r = x >> 11;
        assert(x >> 11u64 < 0x20_0000_0000_0000u64) by (bit_vector);
        r
    }
}

/// Replaces the dynamic tail of an obstacle list: the last
/// `previous_count` entries (the building footprints recorded last time)
/// give way to `dynamic`, the static map obstacles before them stay.
pub fn replace_dynamic<O: Copy>(obstacles: &mut Vec<O>, previous_count: usize, dynamic: &Vec<O>)
    requires
        previous_count <= old(obstacles)@.len(),
    ensures
        final(obstacles)@ == old(obstacles)@.take(old(obstacles)@.len() - previous_count) + dynamic@,
{
    let keep = obstacles.len() - previous_count;
    obstacles.truncate(keep);
    let mut i: usize = 0;
    while i < dynamic.len()
        invariant
            i <= dynamic@.len(),
            obstacles@ == old(obstacles)@.take(keep as int) + dynamic@.take(i as int),
        decreases dynamic@.len() - i,
    {
        obstacles.push(dynamic[i]);
        i = i + 1;
        proof {
            assert(obstacles@ =~= old(obstacles)@.take(keep as int) + dynamic@.take(i as int));
        }
    }
    assert(dynamic@.take(i as int) =~= dynamic@);
}

/// Number of blocked cells among the first `k` of a grid.
pub open spec fn blocked_prefix(walkable: Seq<bool>, k: int) -> nat
    decreases k,
{
    if k <= 0 {
        0
    } else {
        blocked_prefix(walkable, k - 1) + if walkable[k - 1] {
            0nat
        } else {
            1nat
        }
    }
}

proof fn lemma_blocked_bounded(walkable: Seq<bool>, k: int)
    requires
        0 <= k,
    ensures
        blocked_prefix(walkable, k) <= k,
    decreases k,
{
    if k > 0 {
        lemma_blocked_bounded(walkable, k - 1);
    }
}

/// Number of blocked cells of a grid; the generator rejects a layout that
/// blocks too large a share of the map.
pub fn count_blocked(walkable: &Vec<bool>) -> (r: usize)
    ensures
        r == blocked_prefix(walkable@, walkable@.len() as int),
{
    let mut count: usize = 0;
    let mut i: usize = 0;
    while i < walkable.len()
        invariant
            i <= walkable@.len(),
            count == blocked_prefix(walkable@, i as int),
        decreases walkable@.len() - i,
    {
        proof {
            lemma_blocked_bounded(walkable@, i as int);
        }
        if !walkable[i] {
            count = count + 1;
        }
        i = i + 1;
    }
    count
}

/// The cell one step from `c` in direction `d` (0 west, 1 east, 2 south,
/// 3 north) on a square grid of `n` cells and `width` columns, or -1 where
/// the step leaves the grid.
pub open spec fn neighbor(n: int, width: int, c: int, d: int) -> int {
    if d == 0 {
        if c % width > 0 { c - 1 } else { -1 }
    } else if d == 1 {
        if c % width + 1 < width { c + 1 } else { -1 }
    } else if d == 2 {
        if c >= width { c - width } else { -1 }
    } else {
        if c + width < n { c + width } else { -1 }
    }
}

/// `b` is one 4-neighbour step from `a`.
pub open spec fn adjacent(n: int, width: int, a: int, b: int) -> bool {
    ||| b == neighbor(n, width, a, 0)
    ||| b == neighbor(n, width, a, 1)
    ||| b == neighbor(n, width, a, 2)
    ||| b == neighbor(n, width, a, 3)
}

/// `c` is a walkable cell of the grid.
pub open spec fn open_cell(walkable: Seq<bool>, c: int) -> bool {
    0 <= c < walkable.len() && walkable[c]
}

/// A walk over walkable cells, each step to a 4-neighbour.
pub open spec fn is_walk(walkable: Seq<bool>, width: int, p: Seq<int>) -> bool {
    &&& p.len() > 0
    &&& forall|i: int| 0 <= i < p.len() ==> #[trigger] open_cell(walkable, p[i])
    &&& forall|i: int|
        0 <= i < p.len() - 1 ==> #[trigger] adjacent(walkable.len() as int, width, p[i], p[i + 1])
}

/// `to` can be reached from `from` by a walk.
pub open spec fn reachable(walkable: Seq<bool>, width: int, from: int, to: int) -> bool {
    exists|p: Seq<int>| is_walk(walkable, width, p) && p[0] == from && p.last() == to
}

/// Every key point lies on a walkable cell and all are reachable from the
/// first one.
pub open spec fn spec_key_points_connected(
    walkable: Seq<bool>,
    width: int,
    starts: Seq<Option<usize>>,
) -> bool {
    &&& forall|i: int|
        0 <= i < starts.len() ==> (#[trigger] starts[i] matches Some(c) && open_cell(
            walkable,
            c as int,
        ))
    &&& forall|i: int|
        0 <= i < starts.len() ==> reachable(
            walkable,
            width,
            starts[0]->0 as int,
            #[trigger] starts[i]->0 as int,
        )
}

/// All walkable neighbours of `c` have been seen.
pub open spec fn closed(walkable: Seq<bool>, width: int, seen: Seq<bool>, c: int) -> bool {
    let n = walkable.len() as int;
    &&& (open_cell(walkable, neighbor(n, width, c, 0)) ==> seen[neighbor(n, width, c, 0)])
    &&& (open_cell(walkable, neighbor(n, width, c, 1)) ==> seen[neighbor(n, width, c, 1)])
    &&& (open_cell(walkable, neighbor(n, width, c, 2)) ==> seen[neighbor(n, width, c, 2)])
    &&& (open_cell(walkable, neighbor(n, width, c, 3)) ==> seen[neighbor(n, width, c, 3)])
}

proof fn lemma_east_step_in_grid(c: int, w: int)
    requires
        0 < w,
        0 <= c < w * w,
        c % w + 1 < w,
    ensures
        c + 1 < w * w,
{
    assert(c + 1 < w * w) by (nonlinear_arith)
        requires
            0 < w,
            0 <= c < w * w,
            c % w + 1 < w,
    {
        assert(c == w * (c / w) + c % w);
        assert(c / w < w);
        assert(w * (c / w) <= w * (w - 1));
    }
}

/// Extending a walk to `b` by one step from its end `a`.
proof fn lemma_step(walkable: Seq<bool>, width: int, from: int, a: int, b: int)
    requires
        reachable(walkable, width, from, a),
        open_cell(walkable, b),
        adjacent(walkable.len() as int, width, a, b),
    ensures
        reachable(walkable, width, from, b),
{
    let p = choose|p: Seq<int>| is_walk(walkable, width, p) && p[0] == from && p.last() == a;
    let q = p.push(b);
    assert forall|i: int| 0 <= i < q.len() implies #[trigger] open_cell(walkable, q[i]) by {
        if i < p.len() {
            assert(open_cell(walkable, p[i]));
        }
    }
    assert forall|i: int| 0 <= i < q.len() - 1 implies #[trigger] adjacent(
        walkable.len() as int,
        width,
        q[i],
        q[i + 1],
    ) by {
        if i < p.len() - 1 {
            assert(adjacent(walkable.len() as int, width, p[i], p[i + 1]));
        }
    }
    assert(is_walk(walkable, width, q) && q[0] == from && q.last() == b);
}

/// A cell is reachable from itself when it is walkable.
proof fn lemma_here(walkable: Seq<bool>, width: int, c: int)
    requires
        open_cell(walkable, c),
    ensures
        reachable(walkable, width, c, c),
{
    let p = seq![c];
    assert(is_walk(walkable, width, p) && p[0] == c && p.last() == c);
}

/// Once every seen cell is closed, a walk that starts on a seen cell ends
/// on one.
proof fn lemma_closed_covers(walkable: Seq<bool>, width: int, seen: Seq<bool>, p: Seq<int>)
    requires
        is_walk(walkable, width, p),
        seen.len() == walkable.len(),
        seen[p[0]],
        forall|c: int| 0 <= c < seen.len() && #[trigger] seen[c] ==> closed(walkable, width, seen, c),
    ensures
        seen[p.last()],
    decreases p.len(),
{
    if p.len() > 1 {
        let q = p.drop_last();
        assert forall|i: int| 0 <= i < q.len() implies #[trigger] open_cell(walkable, q[i]) by {
            assert(open_cell(walkable, p[i]));
        }
        assert forall|i: int| 0 <= i < q.len() - 1 implies #[trigger] adjacent(
            walkable.len() as int,
            width,
            q[i],
            q[i + 1],
        ) by {
            assert(adjacent(walkable.len() as int, width, p[i], p[i + 1]));
        }
        lemma_closed_covers(walkable, width, seen, q);
        let k = p.len() - 2;
        assert(open_cell(walkable, p[k]));
        assert(adjacent(walkable.len() as int, width, p[k], p[k + 1]));
        assert(open_cell(walkable, p[k + 1]));
        assert(closed(walkable, width, seen, p[k]));
    }
}

/// Between two moments of the flood fill: nothing seen was forgotten, the
/// stack still starts with `base`, and every newly seen cell is on it.
spec fn grew(n: int, s0: Seq<bool>, base: Seq<usize>, s1: Seq<bool>, o1: Seq<usize>) -> bool {
    &&& n <= usize::MAX
    &&& s0.len() == n
    &&& s1.len() == n
    &&& forall|c: int| 0 <= c < n && #[trigger] s0[c] ==> s1[c]
    &&& o1.len() >= base.len()
    &&& forall|j: int| 0 <= j < base.len() ==> #[trigger] o1[j] == base[j]
    &&& forall|j: int| 0 <= j < o1.len() ==> #[trigger] o1[j] < n && s1[o1[j] as int]
    &&& forall|c: int| 0 <= c < n && #[trigger] s1[c] && !s0[c] ==> o1.contains(c as usize)
}

proof fn lemma_visit_keeps_growth(
    n: int,
    s0: Seq<bool>,
    base: Seq<usize>,
    s1: Seq<bool>,
    o1: Seq<usize>,
    s2: Seq<bool>,
    o2: Seq<usize>,
    next: int,
)
    requires
        grew(n, s0, base, s1, o1),
        0 <= next < n,
        (!s1[next] && s2 == s1.update(next, true) && o2 == o1.push(next as usize)) || (s2 == s1
            && o2 == o1),
    ensures
        grew(n, s0, base, s2, o2),
{
    if o2 != o1 {
        assert(o2[o1.len() as int] == next as usize);
        assert forall|c: int| 0 <= c < n && #[trigger] s2[c] && !s0[c] implies o2.contains(
            c as usize,
        ) by {
            if c != next {
                assert(o1.contains(c as usize));
                let j = choose|j: int| 0 <= j < o1.len() && o1[j] == c as usize;
                assert(o2[j] == c as usize);
            }
        }
        assert forall|j: int| 0 <= j < o2.len() implies #[trigger] o2[j] < n && s2[o2[j] as int] by {
            if j < o1.len() {
                assert(o1[j] < n && s1[o1[j] as int]);
            }
        }
    }
}

/// One round of the flood fill keeps every seen cell either scheduled or
/// closed.
proof fn lemma_closure_step(
    walkable: Seq<bool>,
    width: int,
    s0: Seq<bool>,
    o0: Seq<usize>,
    s1: Seq<bool>,
    o1: Seq<usize>,
)
    requires
        o0.len() > 0,
        grew(walkable.len() as int, s0, o0.drop_last(), s1, o1),
        closed(walkable, width, s1, o0.last() as int),
        forall|c: int|
            0 <= c < walkable.len() && #[trigger] s0[c] ==> (o0.contains(c as usize) || closed(
                walkable,
                width,
                s0,
                c,
            )),
    ensures
        forall|c: int|
            0 <= c < walkable.len() && #[trigger] s1[c] ==> (o1.contains(c as usize) || closed(
                walkable,
                width,
                s1,
                c,
            )),
{
    let n = walkable.len() as int;
    let base = o0.drop_last();
    assert forall|c: int| 0 <= c < n && #[trigger] s1[c] implies (o1.contains(c as usize) || closed(
        walkable,
        width,
        s1,
        c,
    )) by {
        if s0[c] {
            if o0.contains(c as usize) {
                let j = choose|j: int| 0 <= j < o0.len() && o0[j] == c as usize;
                if j < o0.len() - 1 {
                    assert(base[j] == c as usize);
                    assert(o1[j] == c as usize);
                }
            } else {
                assert(closed(walkable, width, s0, c));
                let n0 = neighbor(n, width, c, 0);
                let n1 = neighbor(n, width, c, 1);
                let n2 = neighbor(n, width, c, 2);
                let n3 = neighbor(n, width, c, 3);
                if open_cell(walkable, n0) {
                    assert(s1[n0]);
                }
                if open_cell(walkable, n1) {
                    assert(s1[n1]);
                }
                if open_cell(walkable, n2) {
                    assert(s1[n2]);
                }
                if open_cell(walkable, n3) {
                    assert(s1[n3]);
                }
            }
        }
    }
}

/// Marks `next` seen and schedules it when it is walkable and unseen.
fn visit(walkable: &Vec<bool>, seen: &mut Vec<bool>, open: &mut Vec<usize>, next: usize)
    requires
        next < walkable@.len(),
        old(seen)@.len() == walkable@.len(),
    ensures
        (walkable@[next as int] && !old(seen)@[next as int]) ==> (final(seen)@ == old(seen)@.update(
            next as int,
            true,
        ) && final(open)@ == old(open)@.push(next)),
        !(walkable@[next as int] && !old(seen)@[next as int]) ==> (final(seen)@ == old(seen)@
            && final(open)@ == old(open)@),
{
    if walkable[next] && !seen[next] {
        seen.set(next, true);
        open.push(next);
    }
}

/// Whether all key points are walkable and mutually reachable.
///
/// `starts` holds the cell of each key point, `None` for a point off the
/// map. The grid is `width` cells square, stored row by row.
#[verifier::rlimit(30)]
#[verifier::spinoff_prover]
pub fn key_points_connected(walkable: &Vec<bool>, width: usize, starts: &Vec<Option<usize>>) -> (r:
    bool)
    requires
        walkable@.len() == width * width,
        starts@.len() > 0,
        forall|i: int|
            0 <= i < starts@.len() ==> (#[trigger] starts@[i] matches Some(c) ==> c
                < walkable@.len()),
    ensures
        r == spec_key_points_connected(walkable@, width as int, starts@),
{
    let n = walkable.len();
    let ghost w = width as int;
    let mut i: usize = 0;
    while i < starts.len()
        invariant
            i <= starts@.len(),
            forall|j: int|
                0 <= j < starts@.len() ==> (#[trigger] starts@[j] matches Some(c) ==> c
                    < walkable@.len()),
            forall|j: int|
                0 <= j < i ==> (#[trigger] starts@[j] matches Some(c) && open_cell(
                    walkable@,
                    c as int,
                )),
        decreases starts@.len() - i,
    {
        match starts[i] {
            Some(c) => {
                if !walkable[c] {
                    return false;
                }
            },
            None => {
                return false;
            },
        }
        i = i + 1;
    }
    let first = match starts[0] {
        Some(c) => c,
        None => 0,
    };
    let mut seen: Vec<bool> = Vec::new();
    let mut k: usize = 0;
    while k < n
        invariant
            k <= n,
            seen@.len() == k,
            forall|j: int| 0 <= j < k ==> !#[trigger] seen@[j],
        decreases n - k,
    {
        seen.push(false);
        k = k + 1;
    }
    seen.set(first, true);
    let mut open: Vec<usize> = Vec::new();
    open.push(first);
    let ghost mut marked: Set<int> = Set::empty().insert(first as int);
    assert(open@[0] == first);
    assert(open@.contains(first));
    proof {
        lemma_here(walkable@, w, first as int);
        vstd::set_lib::lemma_int_range(0, n as int);
    }
    loop
        invariant
            w == width as int,
            n == walkable@.len(),
            n == width * width,
            first < n,
            walkable@[first as int],
            seen@.len() == n,
            seen@[first as int],
            marked.finite(),
            marked.subset_of(vstd::set_lib::set_int_range(0, n as int)),
            vstd::set_lib::set_int_range(0, n as int).finite(),
            vstd::set_lib::set_int_range(0, n as int).len() == n,
            forall|c: int| #[trigger] marked.contains(c) <==> (0 <= c < n && seen@[c]),
            forall|j: int| 0 <= j < open@.len() ==> #[trigger] open@[j] < n && seen@[open@[j] as int],
            forall|c: int|
                0 <= c < n && #[trigger] seen@[c] ==> reachable(walkable@, w, first as int, c),
            forall|c: int|
                0 <= c < n && #[trigger] seen@[c] ==> (open@.contains(c as usize) || closed(
                    walkable@,
                    w,
                    seen@,
                    c,
                )),
        ensures
            open@.len() == 0,
            seen@.len() == n,
            seen@[first as int],
            forall|c: int|
                0 <= c < n && #[trigger] seen@[c] ==> reachable(walkable@, w, first as int, c),
            forall|c: int|
                0 <= c < n && #[trigger] seen@[c] ==> (open@.contains(c as usize) || closed(
                    walkable@,
                    w,
                    seen@,
                    c,
                )),
        decreases 4 * (n - marked.len()) + open@.len(),
    {
        let ghost before_seen = seen@;
        let ghost before_open = open@;
        let ghost before_marked = marked;
        proof {
            vstd::set_lib::lemma_len_subset(marked, vstd::set_lib::set_int_range(0, n as int));
        }
        let current = match open.pop() {
            Some(c) => c,
            None => {
                break ;
            },
        };
        assert(before_open.last() == current);
        assert(open@ == before_open.drop_last());
        assert(current < n && seen@[current as int]);
        let ghost cur = current as int;
        let ghost base = open@;
        let ghost mut added: int = 0;
        proof {
            assert(reachable(walkable@, w, first as int, cur));
            assert(grew(n as int, before_seen, base, seen@, open@));
        }
        let x = current % width;
        assert(width > 0) by (nonlinear_arith)
            requires
                current < n,
                n == width * width,
        ;
        assert(x as int == cur % w);
        if x > 0 {
            assert(current > 0) by (nonlinear_arith)
                requires
                    x == current % width,
                    x > 0,
                    width > 0,
            ;
            assert(neighbor(n as int, w, cur, 0) == cur - 1);
            let ghost s0 = seen@;
            let ghost o0 = open@;
            visit(walkable, &mut seen, &mut open, current - 1);
            proof {
                lemma_visit_keeps_growth(n as int, before_seen, base, s0, o0, seen@, open@, cur - 1);
                if walkable@[cur - 1] && !s0[cur - 1] {
                    marked = marked.insert(cur - 1);
                    added = added + 1;
                    lemma_step(walkable@, w, first as int, cur, cur - 1);
                }
            }
        }
        if x + 1 < width {
            proof {
                lemma_east_step_in_grid(cur, w);
            }
            assert(neighbor(n as int, w, cur, 1) == cur + 1);
            let ghost s0 = seen@;
            let ghost o0 = open@;
            visit(walkable, &mut seen, &mut open, current + 1);
            proof {
                lemma_visit_keeps_growth(n as int, before_seen, base, s0, o0, seen@, open@, cur + 1);
                if walkable@[cur + 1] && !s0[cur + 1] {
                    marked = marked.insert(cur + 1);
                    added = added + 1;
                    lemma_step(walkable@, w, first as int, cur, cur + 1);
                }
            }
        }
        if current >= width {
            assert(neighbor(n as int, w, cur, 2) == cur - w);
            let ghost s0 = seen@;
            let ghost o0 = open@;
            visit(walkable, &mut seen, &mut open, current - width);
            proof {
                lemma_visit_keeps_growth(n as int, before_seen, base, s0, o0, seen@, open@, cur - w);
                if walkable@[cur - w] && !s0[cur - w] {
                    marked = marked.insert(cur - w);
                    added = added + 1;
                    lemma_step(walkable@, w, first as int, cur, cur - w);
                }
            }
        }
        if width < n - current {
            assert(neighbor(n as int, w, cur, 3) == cur + w);
            let ghost s0 = seen@;
            let ghost o0 = open@;
            visit(walkable, &mut seen, &mut open, current + width);
            proof {
                lemma_visit_keeps_growth(n as int, before_seen, base, s0, o0, seen@, open@, cur + w);
                if walkable@[cur + w] && !s0[cur + w] {
                    marked = marked.insert(cur + w);
                    added = added + 1;
                    lemma_step(walkable@, w, first as int, cur, cur + w);
                }
            }
        }
        proof {
            assert(closed(walkable@, w, seen@, cur));
            lemma_closure_step(walkable@, w, before_seen, before_open, seen@, open@);
            vstd::set_lib::lemma_len_subset(marked, vstd::set_lib::set_int_range(0, n as int));
        }
        assert(open@.len() == before_open.len() - 1 + added);
        assert(marked.len() == before_marked.len() + added);
    }
    proof {
        assert forall|c: int| 0 <= c < seen@.len() && #[trigger] seen@[c] implies closed(
            walkable@,
            w,
            seen@,
            c,
        ) by {
            assert(!open@.contains(c as usize));
        }
    }
    let mut j: usize = 0;
    while j < starts.len()
        invariant
            w == width as int,
            j <= starts@.len(),
            n == walkable@.len(),
            seen@.len() == n,
            seen@[first as int],
            starts@[0] == Some(first),
            forall|t: int|
                0 <= t < starts@.len() ==> (#[trigger] starts@[t] matches Some(c) && open_cell(
                    walkable@,
                    c as int,
                )),
            forall|c: int|
                0 <= c < n && #[trigger] seen@[c] ==> reachable(walkable@, w, first as int, c),
            forall|c: int| 0 <= c < seen@.len() && #[trigger] seen@[c] ==> closed(walkable@, w, seen@, c),
            forall|t: int|
                0 <= t < j ==> reachable(walkable@, w, first as int, #[trigger] starts@[t]->0 as int),
        decreases starts@.len() - j,
    {
        let c = match starts[j] {
            Some(c) => c,
            None => 0,
        };
        if !seen[c] {
            proof {
                if reachable(walkable@, w, first as int, c as int) {
                    let p = choose|p: Seq<int>|
                        is_walk(walkable@, w, p) && p[0] == first as int && p.last() == c as int;
                    lemma_closed_covers(walkable@, w, seen@, p);
                }
            }
            return false;
        }
        j = j + 1;
    }
    true
}

/// Prepending one step to a walk.
proof fn lemma_prepend(walkable: Seq<bool>, width: int, a: int, b: int, to: int)
    requires
        open_cell(walkable, a),
        adjacent(walkable.len() as int, width, a, b),
        reachable(walkable, width, b, to),
    ensures
        reachable(walkable, width, a, to),
{
    let p = choose|p: Seq<int>| is_walk(walkable, width, p) && p[0] == b && p.last() == to;
    let q = seq![a] + p;
    assert forall|i: int| 0 <= i < q.len() implies #[trigger] open_cell(walkable, q[i]) by {
        if i > 0 {
            assert(q[i] == p[i - 1]);
            assert(open_cell(walkable, p[i - 1]));
        }
    }
    assert forall|i: int| 0 <= i < q.len() - 1 implies #[trigger] adjacent(
        walkable.len() as int,
        width,
        q[i],
        q[i + 1],
    ) by {
        if i > 0 {
            let j = i - 1;
            assert(q[i] == p[j] && q[i + 1] == p[j + 1]);
            assert(adjacent(walkable.len() as int, width, p[j], p[j + 1]));
        }
    }
    assert(q.last() == p.last());
    assert(is_walk(walkable, width, q) && q[0] == a && q.last() == to);
}

/// Row and column of a cell given as `q * w + r`.
proof fn lemma_coords(w: int, y: int, q: int, r: int)
    requires
        w > 0,
        0 <= r < w,
        y == q * w + r,
    ensures
        y / w == q,
        y % w == r,
{
    vstd::arithmetic::div_mod::lemma_fundamental_div_mod_converse(y, w, q, r);
}

/// Grid distance between two cells.
spec fn grid_distance(w: int, x: int, b: int) -> nat {
    let dc = x % w - b % w;
    let dr = x / w - b / w;
    ((if dc >= 0 { dc } else { -dc }) + (if dr >= 0 { dr } else { -dr })) as nat
}

proof fn lemma_open_reach(walkable: Seq<bool>, w: int, x: int, b: int)
    requires
        w > 0,
        walkable.len() == w * w,
        forall|i: int| 0 <= i < walkable.len() ==> #[trigger] walkable[i],
        0 <= x < w * w,
        0 <= b < w * w,
    ensures
        reachable(walkable, w, x, b),
    decreases grid_distance(w, x, b),
{
    let n = w * w;
    vstd::arithmetic::div_mod::lemma_fundamental_div_mod(x, w);
    vstd::arithmetic::div_mod::lemma_fundamental_div_mod(b, w);
    let xr = x / w;
    let xc = x % w;
    let br = b / w;
    let bc = b % w;
    assert(0 <= xc < w && 0 <= bc < w);
    assert(0 <= xr < w && 0 <= br < w) by (nonlinear_arith)
        requires
            w > 0,
            0 <= x < w * w,
            0 <= b < w * w,
            x == w * xr + xc,
            b == w * br + bc,
            0 <= xc < w,
            0 <= bc < w,
    {
    }
    if x == b {
        lemma_here(walkable, w, x);
        return;
    }
    let y: int = if xc < bc {
        x + 1
    } else if xc > bc {
        x - 1
    } else if xr < br {
        x + w
    } else {
        x - w
    };
    assert(x == xr * w + xc) by (nonlinear_arith)
        requires
            x == w * xr + xc,
    {
    }
    if xc < bc {
        lemma_east_step_in_grid(x, w);
        lemma_coords(w, y, xr, xc + 1);
        assert(neighbor(n, w, x, 1) == y);
    } else if xc > bc {
        assert(x >= 1) by (nonlinear_arith)
            requires
                x == xr * w + xc,
                xr >= 0,
                w > 0,
                xc >= 1,
        {
        }
        lemma_coords(w, y, xr, xc - 1);
        assert(neighbor(n, w, x, 0) == y);
    } else if xr < br {
        assert(y == (xr + 1) * w + xc) by (nonlinear_arith)
            requires
                y == x + w,
                x == xr * w + xc,
        {
        }
        lemma_coords(w, y, xr + 1, xc);
        assert(y < w * w) by (nonlinear_arith)
            requires
                y == (xr + 1) * w + xc,
                xr + 1 < w,
                0 <= xc < w,
        {
        }
        assert(neighbor(n, w, x, 3) == y);
    } else {
        assert(xr > br);
        assert(y == (xr - 1) * w + xc) by (nonlinear_arith)
            requires
                y == x - w,
                x == xr * w + xc,
        {
        }
        lemma_coords(w, y, xr - 1, xc);
        assert(x >= w) by (nonlinear_arith)
            requires
                w > 0,
                x == w * xr + xc,
                xr >= 1,
                xc >= 0,
        {
        }
        assert(neighbor(n, w, x, 2) == y);
    }
    assert(0 <= y < n);
    assert(grid_distance(w, y, b) < grid_distance(w, x, b));
    lemma_open_reach(walkable, w, y, b);
    lemma_prepend(walkable, w, x, y, b);
}

/// On a map without obstacles every cell reaches every other, so the
/// obstacle generator, which only keeps layouts that leave the key points
/// connected, always has a connected layout to fall back on.
pub proof fn open_map_is_connected(width: int, a: int, b: int)
    requires
        width > 0,
        0 <= a < width * width,
        0 <= b < width * width,
    ensures
        reachable(Seq::new((width * width) as nat, |i: int| true), width, a, b),
{
    let walkable = Seq::new((width * width) as nat, |i: int| true);
    lemma_open_reach(walkable, width, a, b);
}

/// With no obstacles the connectivity check accepts any on-map key points.
pub proof fn open_map_passes_key_point_check(width: int, starts: Seq<Option<usize>>)
    requires
        width > 0,
        starts.len() > 0,
        forall|i: int|
            0 <= i < starts.len() ==> (#[trigger] starts[i] matches Some(c) && c < width * width),
    ensures
        spec_key_points_connected(Seq::new((width * width) as nat, |i: int| true), width, starts),
{
    let walkable = Seq::new((width * width) as nat, |i: int| true);
    assert(starts[0] matches Some(c) && c < width * width);
    assert forall|i: int| 0 <= i < starts.len() implies reachable(
        walkable,
        width,
        starts[0]->0 as int,
        #[trigger] starts[i]->0 as int,
    ) by {
        assert(starts[i] matches Some(c) && c < width * width);
        lemma_open_reach(walkable, width, starts[0]->0 as int, starts[i]->0 as int);
    }
}

} // verus!
