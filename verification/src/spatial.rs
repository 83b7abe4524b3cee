//! Uniform spatial hash of units and buildings, rebuilt every frame.
//!
//! One index serves avoidance and target acquisition, so neither scans
//! every entity. The engine maps positions to cells and measures distances;
//! the index files each entity's entry (`E`: position and body radius) under
//! its cell, remembers the entity's last entry, and lists the entries of a
//! rectangle of cells in a fixed order: rows from south to north, each row
//! from west to east, each cell in insertion order.
use crate::orders::UnitOrder;
use std::collections::HashMap;
use vstd::prelude::*;

verus! {

broadcast use vstd::std_specs::hash::group_hash_axioms;

/// Hash key of a cell: the two coordinates, each shifted to be
/// non-negative, in the high and the low half.
pub open spec fn cell_key(cell: (i32, i32)) -> u64 {
    ((cell.0 as int + 0x8000_0000) * 0x1_0000_0000 + (cell.1 as int + 0x8000_0000)) as u64
}

proof fn lemma_cell_key_injective(a: (i32, i32), b: (i32, i32))
    ensures
        cell_key(a) == cell_key(b) ==> a == b,
{
    let ha = a.0 as int + 0x8000_0000;
    let la = a.1 as int + 0x8000_0000;
    let hb = b.0 as int + 0x8000_0000;
    let lb = b.1 as int + 0x8000_0000;
    assert(0 <= ha * 0x1_0000_0000 + la < 0x1_0000_0000_0000_0000) by (nonlinear_arith)
        requires
            0 <= ha < 0x1_0000_0000,
            0 <= la < 0x1_0000_0000,
    ;
    assert(0 <= hb * 0x1_0000_0000 + lb < 0x1_0000_0000_0000_0000) by (nonlinear_arith)
        requires
            0 <= hb < 0x1_0000_0000,
            0 <= lb < 0x1_0000_0000,
    ;
    if ha * 0x1_0000_0000 + la == hb * 0x1_0000_0000 + lb {
        assert(ha == hb && la == lb) by (nonlinear_arith)
            requires
                ha * 0x1_0000_0000 + la == hb * 0x1_0000_0000 + lb,
                0 <= la < 0x1_0000_0000,
                0 <= lb < 0x1_0000_0000,
        ;
    }
}

fn key_of(cell: (i32, i32)) -> (r: u64)
    ensures
        r == cell_key(cell),
{
    let high = (cell.0 as i64 + 0x8000_0000) as u64;
    let low = (cell.1 as i64 + 0x8000_0000) as u64;
    assert(high * 0x1_0000_0000 + low <= u64::MAX) by (nonlinear_arith)
        requires
            high < 0x1_0000_0000,
            low < 0x1_0000_0000,
    ;
    high * 0x1_0000_0000 + low
}

/// Entities filed by cell, with the last entry of each entity.
pub struct SpatialGrid<E> {
    cells: HashMap<u64, Vec<(u64, E)>>,
    positions: HashMap<u64, E>,
}

impl<E: Copy> SpatialGrid<E> {
    /// Entries filed under `cell`, in insertion order.
    pub closed spec fn bucket(&self, cell: (i32, i32)) -> Seq<(u64, E)> {
        if self.cells@.contains_key(cell_key(cell)) {
            self.cells@[cell_key(cell)]@
        } else {
            Seq::empty()
        }
    }

    /// Last entry indexed for `entity`.
    pub closed spec fn entry_of(&self, entity: u64) -> Option<E> {
        if self.positions@.contains_key(entity) {
            Some(self.positions@[entity])
        } else {
            None
        }
    }

    /// Entries of the cells `x0..=x1` of row `z`, west to east.
    pub open spec fn row(&self, z: int, x0: int, x1: int) -> Seq<(u64, E)>
        decreases x1 - x0 + 1,
    {
        if x1 < x0 || z < i32::MIN || z > i32::MAX || x1 < i32::MIN || x1 > i32::MAX {
            Seq::empty()
        } else {
            self.row(z, x0, x1 - 1) + self.bucket((x1 as i32, z as i32))
        }
    }

    /// Entries of the rectangle of cells `min..=max`, rows south to north.
    pub open spec fn area(&self, min: (i32, i32), max: (i32, i32), z1: int) -> Seq<(u64, E)>
        decreases z1 - min.1 + 1,
    {
        if z1 < min.1 {
            Seq::empty()
        } else {
            self.area(min, max, z1 - 1) + self.row(z1, min.0 as int, max.0 as int)
        }
    }

    /// An empty index.
    pub fn new() -> (r: Self)
        ensures
            forall|c: (i32, i32)| #[trigger] r.bucket(c) == Seq::<(u64, E)>::empty(),
            forall|e: u64| #[trigger] r.entry_of(e) is None,
    {
        SpatialGrid { cells: HashMap::new(), positions: HashMap::new() }
    }

    /// Forgets every entry, for the next frame's rebuild.
    pub fn clear(&mut self)
        ensures
            forall|c: (i32, i32)| #[trigger] final(self).bucket(c) == Seq::<(u64, E)>::empty(),
            forall|e: u64| #[trigger] final(self).entry_of(e) is None,
    {
        self.cells.clear();
        self.positions.clear();
    }

    /// Files `entry` of `entity` under `cell` and makes it the entity's
    /// last entry.
    pub fn insert(&mut self, entity: u64, cell: (i32, i32), entry: E)
        ensures
            final(self).bucket(cell) == old(self).bucket(cell).push((entity, entry)),
            forall|c: (i32, i32)| c != cell ==> #[trigger] final(self).bucket(c) == old(self).bucket(c),
            final(self).entry_of(entity) == Some(entry),
            forall|e: u64| e != entity ==> #[trigger] final(self).entry_of(e) == old(self).entry_of(e),
    {
        let key = key_of(cell);
        let mut bucket = match self.cells.remove(&key) {
            Some(b) => b,
            None => Vec::new(),
        };
        bucket.push((entity, entry));
        self.cells.insert(key, bucket);
        self.positions.insert(entity, entry);
        proof {
            assert forall|c: (i32, i32)| c != cell implies #[trigger] self.bucket(c) == old(self).bucket(c) by {
                lemma_cell_key_injective(c, cell);
            }
        }
    }

    /// The last entry indexed for `entity`, if it is still present.
    pub fn position(&self, entity: u64) -> (r: Option<E>)
        ensures
            r == self.entry_of(entity),
    {
        match self.positions.get(&entity) {
            Some(e) => Some(*e),
            None => None,
        }
    }

    /// How many entries share `cell`: the crowd density the planner reads.
    pub fn bucket_count(&self, cell: (i32, i32)) -> (r: usize)
        ensures
            r == self.bucket(cell).len(),
    {
        let key = key_of(cell);
        match self.cells.get(&key) {
            Some(b) => b.len(),
            None => 0,
        }
    }

    /// Every entry filed in the rectangle of cells from `min` to `max`
    /// (inclusive), rows from south to north, each row west to east.
    pub fn nearby(&self, min: (i32, i32), max: (i32, i32)) -> (r: Vec<(u64, E)>)
        ensures
            r@ == self.area(min, max, max.1 as int),
    {
        let mut out: Vec<(u64, E)> = Vec::new();
        let mut z: i64 = min.1 as i64;
        while z <= max.1 as i64
            invariant
                min.1 <= z <= max.1 + 1 || (z == min.1 && min.1 > max.1),
                out@ == self.area(min, max, z - 1),
            decreases max.1 - z + 1,
        {
            let mut x: i64 = min.0 as i64;
            while x <= max.0 as i64
                invariant
                    min.1 <= z <= max.1,
                    min.0 <= x <= max.0 + 1 || (x == min.0 && min.0 > max.0),
                    out@ == self.area(min, max, z - 1) + self.row(z as int, min.0 as int, x - 1),
                decreases max.0 - x + 1,
            {
                let key = key_of((x as i32, z as i32));
                let ghost before = out@;
                if let Some(b) = self.cells.get(&key) {
                    let mut k: usize = 0;
                    while k < b.len()
                        invariant
                            k <= b@.len(),
                            out@ == before + b@.take(k as int),
                        decreases b@.len() - k,
                    {
                        out.push(b[k]);
                        proof {
                            assert(b@.take(k + 1) =~= b@.take(k as int).push(b@[k as int]));
                        }
                        k = k + 1;
                    }
                    proof {
                        assert(b@.take(b@.len() as int) =~= b@);
                    }
                }
                proof {
                    assert(self.bucket((x as i32, z as i32)) == if self.cells@.contains_key(key) {
                        self.cells@[key]@
                    } else {
                        Seq::<(u64, E)>::empty()
                    });
                    assert(self.row(z as int, min.0 as int, x as int) == self.row(
                        z as int,
                        min.0 as int,
                        x - 1,
                    ) + self.bucket((x as i32, z as i32)));
                    assert(out@ =~= self.area(min, max, z - 1) + self.row(z as int, min.0 as int, x as int));
                }
                x = x + 1;
            }
            proof {
                assert(self.area(min, max, z as int) == self.area(min, max, z - 1) + self.row(
                    z as int,
                    min.0 as int,
                    max.0 as int,
                ));
            }
            z = z + 1;
        }
        out
    }
}

impl<E: Copy> SpatialGrid<E> {
    proof fn lemma_row_lists(&self, z: int, x0: int, x1: int, x: int, i: int)
        requires
            i32::MIN <= z <= i32::MAX,
            i32::MIN <= x0 <= x <= x1 <= i32::MAX,
            0 <= i < self.bucket((x as i32, z as i32)).len(),
        ensures
            self.row(z, x0, x1).contains(self.bucket((x as i32, z as i32))[i]),
        decreases x1 - x0,
    {
        let b = self.bucket((x as i32, z as i32));
        if x == x1 {
            let r = self.row(z, x0, x1 - 1);
            assert((r + b)[r.len() + i] == b[i]);
        } else {
            self.lemma_row_lists(z, x0, x1 - 1, x, i);
            let r = self.row(z, x0, x1 - 1);
            let j = choose|j: int| 0 <= j < r.len() && r[j] == b[i];
            assert((r + self.bucket((x1 as i32, z as i32)))[j] == b[i]);
        }
    }

    proof fn lemma_row_only(&self, z: int, x0: int, x1: int, j: int)
        requires
            i32::MIN <= z <= i32::MAX,
            0 <= j < self.row(z, x0, x1).len(),
        ensures
            exists|x: int, i: int|
                x0 <= x <= x1 && 0 <= i < self.bucket((x as i32, z as i32)).len() && #[trigger] self.bucket(
                    (x as i32, z as i32),
                )[i] == self.row(z, x0, x1)[j] && i32::MIN <= x <= i32::MAX,
        decreases x1 - x0,
    {
        if x1 >= x0 && i32::MIN <= x1 <= i32::MAX {
            let r = self.row(z, x0, x1 - 1);
            let b = self.bucket((x1 as i32, z as i32));
            if j < r.len() {
                self.lemma_row_only(z, x0, x1 - 1, j);
                let (x, i) = choose|x: int, i: int|
                    x0 <= x <= x1 - 1 && 0 <= i < self.bucket((x as i32, z as i32)).len()
                        && #[trigger] self.bucket((x as i32, z as i32))[i] == r[j] && i32::MIN <= x <= i32::MAX;
                assert(self.row(z, x0, x1)[j] == r[j]);
            } else {
                assert(self.row(z, x0, x1)[j] == b[j - r.len()]);
            }
        }
    }
}

/// A scan lists every entry filed under a cell of its rectangle.
pub proof fn scans_list_every_entry_in_range<E: Copy>(
    index: SpatialGrid<E>,
    min: (i32, i32),
    max: (i32, i32),
    cell: (i32, i32),
    i: int,
)
    requires
        min.0 <= cell.0 <= max.0,
        min.1 <= cell.1 <= max.1,
        0 <= i < index.bucket(cell).len(),
    ensures
        index.area(min, max, max.1 as int).contains(index.bucket(cell)[i]),
{
    lemma_area_lists(index, min, max, max.1 as int, cell, i);
}

proof fn lemma_area_lists<E: Copy>(
    index: SpatialGrid<E>,
    min: (i32, i32),
    max: (i32, i32),
    z1: int,
    cell: (i32, i32),
    i: int,
)
    requires
        min.0 <= cell.0 <= max.0,
        min.1 <= cell.1 <= z1 <= i32::MAX,
        0 <= i < index.bucket(cell).len(),
    ensures
        index.area(min, max, z1).contains(index.bucket(cell)[i]),
    decreases z1 - min.1,
{
    let a = index.area(min, max, z1 - 1);
    let r = index.row(z1, min.0 as int, max.0 as int);
    let e = index.bucket(cell)[i];
    if cell.1 == z1 {
        index.lemma_row_lists(z1, min.0 as int, max.0 as int, cell.0 as int, i);
        let j = choose|j: int| 0 <= j < r.len() && r[j] == e;
        assert((a + r)[a.len() + j] == e);
    } else {
        lemma_area_lists(index, min, max, z1 - 1, cell, i);
        let j = choose|j: int| 0 <= j < a.len() && a[j] == e;
        assert((a + r)[j] == e);
    }
}

/// A scan lists nothing but entries filed under cells of its rectangle.
pub proof fn scans_list_only_entries_in_range<E: Copy>(
    index: SpatialGrid<E>,
    min: (i32, i32),
    max: (i32, i32),
    j: int,
)
    requires
        0 <= j < index.area(min, max, max.1 as int).len(),
    ensures
        exists|x: int, z: int, i: int|
            min.0 <= x <= max.0 && min.1 <= z <= max.1 && 0 <= i < index.bucket((x as i32, z as i32)).len()
                && #[trigger] index.bucket((x as i32, z as i32))[i] == index.area(min, max, max.1 as int)[j],
{
    lemma_area_only(index, min, max, max.1 as int, j);
}

proof fn lemma_area_only<E: Copy>(index: SpatialGrid<E>, min: (i32, i32), max: (i32, i32), z1: int, j: int)
    requires
        z1 <= i32::MAX,
        0 <= j < index.area(min, max, z1).len(),
    ensures
        exists|x: int, z: int, i: int|
            min.0 <= x <= max.0 && min.1 <= z <= z1 && 0 <= i < index.bucket((x as i32, z as i32)).len()
                && #[trigger] index.bucket((x as i32, z as i32))[i] == index.area(min, max, z1)[j],
    decreases z1 - min.1,
{
    if z1 >= min.1 {
        let a = index.area(min, max, z1 - 1);
        let r = index.row(z1, min.0 as int, max.0 as int);
        if j < a.len() {
            lemma_area_only(index, min, max, z1 - 1, j);
            let (x, z, i) = choose|x: int, z: int, i: int|
                min.0 <= x <= max.0 && min.1 <= z <= z1 - 1 && 0 <= i < index.bucket((x as i32, z as i32)).len()
                    && #[trigger] index.bucket((x as i32, z as i32))[i] == a[j];
            assert(index.area(min, max, z1)[j] == a[j]);
        } else {
            assert(index.area(min, max, z1)[j] == r[j - a.len()]);
            index.lemma_row_only(z1, min.0 as int, max.0 as int, j - a.len());
            let (x, i) = choose|x: int, i: int|
                min.0 <= x <= max.0 && 0 <= i < index.bucket((x as i32, z1 as i32)).len()
                    && #[trigger] index.bucket((x as i32, z1 as i32))[i] == r[j - a.len()] && i32::MIN <= x <= i32::MAX;
            assert(index.bucket((x as i32, z1 as i32))[i] == index.area(min, max, z1)[j]);
        }
    }
}

/// Crowd avoidance moves every unit except holders: a unit holding
/// position stays solid for others but is never pushed off its post.
pub fn pushed_by_crowd<P>(order: Option<&UnitOrder<P>>) -> (r: bool)
    ensures
        r == !(order matches Some(o) && *o is HoldPosition),
{
    match order {
        Some(UnitOrder::HoldPosition) => false,
        _ => true,
    }
}

} // verus!
