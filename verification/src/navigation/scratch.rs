//! Reusable search arena of the path planner.
//!
//! A search records a cost and a parent per visited cell. The buffers span
//! the whole grid and are kept between searches; instead of wiping them,
//! the arena remembers which cells a search touched and resets only those.
//! A cell without a cost is unvisited.
use vstd::prelude::*;

verus! {

/// Parent of a cell that has none.
pub const NO_PARENT: usize = usize::MAX;

/// Per-cell costs (`C`) and parents of the current search.
pub struct PathScratch<C> {
    cost: Vec<Option<C>>,
    parent: Vec<usize>,
    touched: Vec<usize>,
}

impl<C> PathScratch<C> {
    pub closed spec fn costs(&self) -> Seq<Option<C>> {
        self.cost@
    }

    pub closed spec fn parents(&self) -> Seq<usize> {
        self.parent@
    }

    /// Cells recorded for the next reset.
    pub closed spec fn touched(&self) -> Seq<usize> {
        self.touched@
    }

    /// Every visited cell is on the touched list, so a reset can find it,
    /// and only visited cells have a parent.
    pub closed spec fn wf(&self) -> bool {
        &&& self.cost@.len() == self.parent@.len()
        &&& forall|i: int|
            0 <= i < self.parent@.len() && #[trigger] self.parent@[i] != NO_PARENT ==> self.cost@[i] is Some
        &&& forall|j: int| 0 <= j < self.touched@.len() ==> #[trigger] self.touched@[j] < self.cost@.len()
        &&& forall|i: int|
            0 <= i < self.cost@.len() && #[trigger] self.cost@[i] is Some ==> self.touched@.contains(
                i as usize,
            )
    }

    /// A well-formed arena has one parent per cell.
    pub proof fn lemma_parents_span(&self)
        requires
            self.wf(),
        ensures
            self.parents().len() == self.costs().len(),
    {
    }

    /// An empty arena.
    pub fn new() -> (r: Self)
        ensures
            r.wf(),
            r.costs().len() == 0,
    {
        PathScratch { cost: Vec::new(), parent: Vec::new(), touched: Vec::new() }
    }

    /// Readies the arena for a search over `len` cells: every cell
    /// unvisited, without a parent. Buffers of the right size are reused
    /// and only the touched cells are reset.
    pub fn prepare(&mut self, len: usize)
        requires
            old(self).wf(),
        ensures
            final(self).wf(),
            final(self).costs().len() == len,
            forall|i: int| 0 <= i < len ==> #[trigger] final(self).costs()[i] is None,
            forall|i: int| 0 <= i < len ==> #[trigger] final(self).parents()[i] == NO_PARENT,
            final(self).touched().len() == 0,
    {
        if self.cost.len() != len {
            let mut cost: Vec<Option<C>> = Vec::new();
            let mut parent: Vec<usize> = Vec::new();
            let mut i: usize = 0;
            while i < len
                invariant
                    i <= len,
                    cost@.len() == i,
                    parent@.len() == i,
                    forall|k: int| 0 <= k < i ==> #[trigger] cost@[k] is None,
                    forall|k: int| 0 <= k < i ==> #[trigger] parent@[k] == NO_PARENT,
                decreases len - i,
            {
                cost.push(None);
                parent.push(NO_PARENT);
                i = i + 1;
            }
            self.cost = cost;
            self.parent = parent;
            self.touched = Vec::new();
            return;
        }
        while self.touched.len() > 0
            invariant
                self.wf(),
                self.cost@.len() == len,
            decreases self.touched@.len(),
        {
            let ghost before = self.touched@;
            let index = self.touched.pop().unwrap();
            self.cost.set(index, None);
            self.parent.set(index, NO_PARENT);
            proof {
                assert forall|i: int|
                    0 <= i < self.cost@.len() && #[trigger] self.cost@[i] is Some implies self.touched@.contains(
                    i as usize,
                ) by {
                    assert(i != index);
                    assert(before.contains(i as usize));
                    let j = choose|j: int| 0 <= j < before.len() && before[j] == i as usize;
                    assert(j != before.len() - 1);
                    assert(self.touched@[j] == i as usize);
                }
                assert forall|j: int| 0 <= j < self.touched@.len() implies #[trigger] self.touched@[j]
                    < self.cost@.len() by {
                    assert(self.touched@[j] == before[j]);
                }
            }
        }
        proof {
            assert forall|i: int| 0 <= i < len implies #[trigger] self.cost@[i] is None by {
                if self.cost@[i] is Some {
                    assert(self.touched@.contains(i as usize));
                }
            }
            assert forall|i: int| 0 <= i < len implies #[trigger] self.parent@[i] == NO_PARENT by {
                if self.parent@[i] != NO_PARENT {
                    assert(self.cost@[i] is Some);
                }
            }
        }
    }

    /// Records `cost` and `parent` for cell `index`.
    pub fn set_node(&mut self, index: usize, cost: C, parent: usize)
        requires
            old(self).wf(),
            index < old(self).costs().len(),
        ensures
            final(self).wf(),
            final(self).costs() == old(self).costs().update(index as int, Some(cost)),
            final(self).parents() == old(self).parents().update(index as int, parent),
    {
        if self.cost[index].is_none() {
            self.touched.push(index);
            proof {
                assert(self.touched@[self.touched@.len() - 1] == index);
            }
        }
        let ghost t = self.touched@;
        self.cost.set(index, Some(cost));
        self.parent.set(index, parent);
        proof {
            assert forall|i: int|
                0 <= i < self.cost@.len() && #[trigger] self.cost@[i] is Some implies self.touched@.contains(
                i as usize,
            ) by {
                if i == index {
                    if old(self).cost@[i] is Some {
                        assert(old(self).touched@.contains(i as usize));
                    }
                    assert(t.contains(index));
                } else {
                    assert(old(self).cost@[i] is Some);
                    assert(old(self).touched@.contains(i as usize));
                    let j = choose|j: int| 0 <= j < old(self).touched@.len() && old(self).touched@[j] == i as usize;
                    assert(t[j] == i as usize);
                }
            }
        }
    }

    /// Number of cells the current search has touched.
    pub fn touched_count(&self) -> (r: usize)
        ensures
            r == self.touched().len(),
    {
        self.touched.len()
    }

    /// Number of cells the arena spans.
    pub fn len(&self) -> (r: usize)
        ensures
            r == self.costs().len(),
    {
        self.cost.len()
    }
}

impl<C: Copy> PathScratch<C> {
    /// Cost recorded for cell `index`; `None` when unvisited.
    pub fn cost(&self, index: usize) -> (r: Option<C>)
        requires
            index < self.costs().len(),
        ensures
            r == self.costs()[index as int],
    {
        self.cost[index]
    }

    /// Parent recorded for cell `index`.
    pub fn parent(&self, index: usize) -> (r: usize)
        requires
            self.wf(),
            index < self.costs().len(),
        ensures
            r == self.parents()[index as int],
    {
        self.parent[index]
    }
}

} // verus!
