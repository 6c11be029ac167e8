//! A rectangular grid of bits, one per tile.

use vstd::prelude::*;
use crate::geometry::{
    grid_index, in_bounds, lemma_index_bounds, lemma_index_injective, spec_in_bounds, spec_index,
    spec_precedes,
};

verus! {

/// One bit per tile of a `width` by `height` grid, row by row.
pub struct BitGrid {
    pub width: i32,
    pub height: i32,
    pub bits: Vec<bool>,
}

impl BitGrid {
    /// The grid holds exactly one bit for each of its tiles.
    pub open spec fn wf(&self) -> bool {
        &&& 0 <= self.width
        &&& 0 <= self.height
        &&& self.bits.len() == self.width * self.height
    }

    /// The bit of tile `(x, y)`; tiles off the grid read as unset.
    pub open spec fn spec_get(&self, x: int, y: int) -> bool {
        spec_in_bounds(x, y, self.width as int, self.height as int) && self.bits[spec_index(
            x,
            y,
            self.width as int,
        )]
    }

    /// The set of tiles whose bit is set.
    pub open spec fn view(&self) -> Set<(int, int)> {
        Set::new(|p: (int, int)| self.spec_get(p.0, p.1))
    }

    /// Whether two grids cover the same tiles.
    pub open spec fn same_size(&self, other: &BitGrid) -> bool {
        self.width == other.width && self.height == other.height
    }

    /// A grid with every bit unset.
    pub fn new(width: i32, height: i32) -> (g: BitGrid)
        requires
            0 <= width,
            0 <= height,
            width * height <= usize::MAX,
        ensures
            g.wf(),
            g.width == width,
            g.height == height,
            g@ == Set::<(int, int)>::empty(),
    {
        assert(0 <= width * height) by (nonlinear_arith)
            requires
                0 <= width,
                0 <= height,
        ;
        let n: usize = (width as usize) * (height as usize);
        let mut bits: Vec<bool> = Vec::new();
        let mut i: usize = 0;
        while i < n
            invariant
                i <= n,
                bits.len() == i,
                forall|k: int| 0 <= k < i ==> !bits[k],
            decreases n - i,
        {
            bits.push(false);
            i = i + 1;
        }
        let g = BitGrid { width, height, bits };
        proof {
            assert forall|p: (int, int)| !g.spec_get(p.0, p.1) by {
                if spec_in_bounds(p.0, p.1, width as int, height as int) {
                    lemma_index_bounds(p.0, p.1, width as int, height as int);
                }
            }
        }
        g
    }

    /// The bit of tile `(x, y)`; tiles off the grid read as unset.
    pub fn get(&self, x: i32, y: i32) -> (b: bool)
        requires
            self.wf(),
        ensures
            b == self.spec_get(x as int, y as int),
            b == self@.contains((x as int, y as int)),
    {
        if in_bounds(x, y, self.width, self.height) {
            let i: usize = grid_index(x, y, self.width, self.height);
            self.bits[i]
        } else {
            false
        }
    }

    /// Sets or clears the bit of tile `(x, y)`; a tile off the grid is left
    /// alone.
    pub fn set(&mut self, x: i32, y: i32, value: bool)
        requires
            old(self).wf(),
        ensures
            final(self).wf(),
            final(self).same_size(old(self)),
            spec_in_bounds(x as int, y as int, old(self).width as int, old(self).height as int)
                ==> final(self)@ == (if value {
                old(self)@.insert((x as int, y as int))
            } else {
                old(self)@.remove((x as int, y as int))
            }),
            !spec_in_bounds(x as int, y as int, old(self).width as int, old(self).height as int)
                ==> *final(self) == *old(self),
    {
        if in_bounds(x, y, self.width, self.height) {
            let i: usize = grid_index(x, y, self.width, self.height);
            self.bits.set(i, value);
            proof {
                let w = self.width as int;
                let h = self.height as int;
                let target = if value {
                    old(self)@.insert((x as int, y as int))
                } else {
                    old(self)@.remove((x as int, y as int))
                };
                assert forall|p: (int, int)| self@.contains(p) == target.contains(p) by {
                    if spec_in_bounds(p.0, p.1, w, h) {
                        lemma_index_bounds(p.0, p.1, w, h);
                        if spec_index(p.0, p.1, w) == i as int {
                            lemma_index_injective(p.0, p.1, x as int, y as int, w, h);
                        }
                    }
                }
            }
        }
    }

    /// Sets every bit that is set in `other`.
    pub fn union_with(&mut self, other: &BitGrid)
        requires
            old(self).wf(),
            other.wf(),
            old(self).same_size(other),
        ensures
            final(self).wf(),
            final(self).same_size(old(self)),
            final(self)@ == old(self)@.union(other@),
    {
        let n: usize = self.bits.len();
        let ghost before = self.bits@;
        let ghost added = other.bits@;
        let mut i: usize = 0;
        while i < n
            invariant
                i <= n,
                n == self.bits.len(),
                n == before.len(),
                n == added.len(),
                added == other.bits@,
                self.width == old(self).width,
                self.height == old(self).height,
                forall|k: int| 0 <= k < i ==> #[trigger] self.bits@[k] == (before[k] || added[k]),
                forall|k: int| i <= k < n ==> #[trigger] self.bits@[k] == before[k],
            decreases n - i,
        {
            if other.bits[i] {
                self.bits.set(i, true);
            }
            i = i + 1;
        }
        proof {
            let w = self.width as int;
            let h = self.height as int;
            let target = old(self)@.union(other@);
            assert forall|p: (int, int)| self@.contains(p) == target.contains(p) by {
                if spec_in_bounds(p.0, p.1, w, h) {
                    lemma_index_bounds(p.0, p.1, w, h);
                }
            }
        }
    }

    /// The tiles whose bit is set, each once, row by row and each row from
    /// the left.
    pub fn tiles(&self) -> (v: Vec<(i32, i32)>)
        requires
            self.wf(),
        ensures
            forall|k: int| 0 <= k < v.len() ==> self@.contains((v[k].0 as int, v[k].1 as int)),
            forall|j: int, k: int|
                0 <= j < k < v.len() ==> spec_precedes(
                    (v[j].0 as int, v[j].1 as int),
                    (v[k].0 as int, v[k].1 as int),
                ),
            forall|p: (int, int)| self@.contains(p) ==> exists|k: int|
                0 <= k < v.len() && #[trigger] v[k] == (p.0 as i32, p.1 as i32),
    {
        let mut v: Vec<(i32, i32)> = Vec::new();
        let mut y: i32 = 0;
        while y < self.height
            invariant
                self.wf(),
                0 <= y <= self.height,
                forall|k: int| 0 <= k < v.len() ==> self@.contains((v[k].0 as int, v[k].1 as int)),
                forall|k: int| 0 <= k < v.len() ==> (#[trigger] v[k]).1 < y,
                forall|j: int, k: int|
                    0 <= j < k < v.len() ==> spec_precedes(
                        (v[j].0 as int, v[j].1 as int),
                        (v[k].0 as int, v[k].1 as int),
                    ),
                forall|p: (int, int)| self@.contains(p) && p.1 < y ==> exists|k: int|
                    0 <= k < v.len() && #[trigger] v[k] == (p.0 as i32, p.1 as i32),
            decreases self.height - y,
        {
            let mut x: i32 = 0;
            while x < self.width
                invariant
                    self.wf(),
                    0 <= y < self.height,
                    0 <= x <= self.width,
                    forall|k: int|
                        0 <= k < v.len() ==> self@.contains((v[k].0 as int, v[k].1 as int)),
                    forall|k: int|
                        0 <= k < v.len() ==> (#[trigger] v[k]).1 < y || (v[k].1 == y && v[k].0 < x),
                    forall|j: int, k: int|
                        0 <= j < k < v.len() ==> spec_precedes(
                            (v[j].0 as int, v[j].1 as int),
                            (v[k].0 as int, v[k].1 as int),
                        ),
                    forall|p: (int, int)|
                        self@.contains(p) && (p.1 < y || (p.1 == y && p.0 < x)) ==> exists|k: int|
                            0 <= k < v.len() && #[trigger] v[k] == (p.0 as i32, p.1 as i32),
                decreases self.width - x,
            {
                let ghost before = v@;
                if self.get(x, y) {
                    v.push((x, y));
                    assert(v[v.len() - 1] == (x, y));
                }
                proof {
                    assert forall|p: (int, int)|
                        self@.contains(p) && (p.1 < y || (p.1 == y && p.0 < x + 1)) implies exists|
                        k: int,
                    | 0 <= k < v.len() && #[trigger] v[k] == (p.0 as i32, p.1 as i32) by {
                        if p.1 != y || p.0 != x {
                            let k = choose|k: int|
                                0 <= k < before.len() && #[trigger] before[k] == (
                                    p.0 as i32,
                                    p.1 as i32,
                                );
                            assert(v[k] == before[k]);
                        }
                    }
                }
                x = x + 1;
            }
            y = y + 1;
        }
        v
    }
}

} // verus!
