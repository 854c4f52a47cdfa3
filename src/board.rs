use std::collections::HashSet;
use vstd::prelude::*;
use vstd::std_specs::iter::IteratorSpec;

use crate::grid::{cell_key, cell_of, in_grid, key_cell, key_of, lemma_key_round_trip, Cell, MAX_SIDE};

verus! {

broadcast use vstd::std_specs::hash::group_hash_axioms;

/// The set of live cells of a square toroidal grid of side `size`.
pub struct Board {
    size: usize,
    keys: HashSet<u64>,
}

impl View for Board {
    type V = Set<Cell>;

    closed spec fn view(&self) -> Set<Cell> {
        Set::new(|c: Cell| self.keys@.contains(key_of(c)))
    }
}

impl Board {
    /// The side of the grid.
    pub closed spec fn side(&self) -> int {
        self.size as int
    }

    /// The side is positive and coordinates fit in `i32`, and every live
    /// cell lies in the grid.
    pub open spec fn wf(&self) -> bool {
        &&& 0 < self.side() <= MAX_SIDE
        &&& forall|c: Cell| #[trigger] self@.contains(c) ==> in_grid(c, self.side())
    }

    /// An empty board of side `size`.
    pub fn new(size: usize) -> (r: Board)
        requires
            0 < size <= MAX_SIDE,
        ensures
            r.wf(),
            r.side() == size,
            r@ == Set::<Cell>::empty(),
    {
        let r = Board { size, keys: HashSet::new() };
        assert(r@ =~= Set::<Cell>::empty());
        r
    }

    /// The side of the grid.
    pub fn size(&self) -> (r: usize)
        ensures
            r == self.side(),
    {
        self.size
    }

    /// Whether `c` is live.
    pub fn contains(&self, c: &Cell) -> (r: bool)
        ensures
            r == self@.contains(*c),
    {
        self.keys.contains(&cell_key(*c))
    }

    /// Makes `c` live.
    pub fn insert(&mut self, c: Cell)
        requires
            old(self).wf(),
            in_grid(c, old(self).side()),
        ensures
            final(self).wf(),
            final(self).side() == old(self).side(),
            final(self)@ == old(self)@.insert(c),
    {
        let k = cell_key(c);
        self.keys.insert(k);
        proof {
            assert forall|d: Cell| #[trigger] self@.contains(d) == old(self)@.insert(c).contains(d) by {
                lemma_key_round_trip(d, k);
                lemma_key_round_trip(c, k);
            }
            assert(self@ =~= old(self)@.insert(c));
        }
    }

    /// Makes `c` dead.
    pub fn remove(&mut self, c: &Cell)
        requires
            old(self).wf(),
        ensures
            final(self).wf(),
            final(self).side() == old(self).side(),
            final(self)@ == old(self)@.remove(*c),
    {
        let k = cell_key(*c);
        self.keys.remove(&k);
        proof {
            assert forall|d: Cell| #[trigger] self@.contains(d) == old(self)@.remove(*c).contains(d) by {
                lemma_key_round_trip(d, k);
                lemma_key_round_trip(*c, k);
            }
            assert(self@ =~= old(self)@.remove(*c));
        }
    }

    /// Makes every cell dead.
    pub fn clear(&mut self)
        requires
            old(self).wf(),
        ensures
            final(self).wf(),
            final(self).side() == old(self).side(),
            final(self)@ == Set::<Cell>::empty(),
    {
        self.keys.clear();
        assert(self@ =~= Set::<Cell>::empty());
    }

    /// The live cells, each once, in no particular order.
    pub fn cells(&self) -> (r: Vec<Cell>)
        requires
            self.wf(),
        ensures
            r@.no_duplicates(),
            r@.to_set() == self@,
    {
        let ghost ks = self.keys.iter().remaining();
        let mut out: Vec<Cell> = Vec::new();
        for k in it: self.keys.iter()
            invariant
                it.seq() == ks,
                ks.unref().to_set() == self.keys@,
                ks.no_duplicates(),
                out@.len() == it.index(),
                forall|j: int| 0 <= j < it.index() ==> #[trigger] out@[j] == cell_of(*ks[j]),
        {
            out.push(key_cell(*k));
        }
        proof {
            assert(out@.len() == ks.len());
            assert forall|i: int, j: int| 0 <= i < j < out@.len() implies out@[i] != out@[j] by {
                lemma_key_round_trip(out@[i], *ks[i]);
                lemma_key_round_trip(out@[j], *ks[j]);
            }
            assert forall|c: Cell| out@.to_set().contains(c) == self@.contains(c) by {
                lemma_key_round_trip(c, key_of(c));
                if self@.contains(c) {
                    assert(ks.unref().to_set().contains(key_of(c)));
                    let j = choose|j: int| 0 <= j < ks.unref().len() && ks.unref()[j] == key_of(c);
                    lemma_key_round_trip(c, *ks[j]);
                    assert(out@[j] == c);
                }
                if out@.to_set().contains(c) {
                    let j = choose|j: int| 0 <= j < out@.len() && out@[j] == c;
                    lemma_key_round_trip(c, *ks[j]);
                    assert(ks.unref()[j] == *ks[j]);
                    assert(ks.unref().to_set().contains(*ks[j]));
                }
            }
            assert(out@.to_set() =~= self@);
        }
        out
    }
}

} // verus!
