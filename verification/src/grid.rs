use vstd::prelude::*;
use crate::material::{empty_cell, Cell, MaterialKind};

verus! {

/// Failure of a direct, coordinate-taking grid access.
#[derive(Clone, Copy, PartialEq, Eq, Structural, Debug)]
pub enum GridError {
    OutOfBounds,
}

/// A fixed-size 2D field of cells, stored row-major: slot (x, y) lives at
/// flat index `x + y * width`.
pub struct Grid {
    pub width: usize,
    pub height: usize,
    pub cells: Vec<Cell>,
}

/// Every slot of `s` has its per-tick `moved` flag cleared.
pub open spec fn all_unmoved(s: Seq<Cell>) -> bool {
    forall|i: int| 0 <= i < s.len() ==> !(#[trigger] s[i]).moved
}

/// A flat row-major index stays inside the cell store.
pub proof fn lemma_flat_index_bounds(w: int, h: int, x: int, y: int)
    requires
        0 <= x < w,
        0 <= y < h,
    ensures
        0 <= x + y * w < w * h,
{
    assert(x + y * w < w * h) by (nonlinear_arith)
        requires
            0 <= x < w,
            0 <= y < h,
    ;
}

/// A flat index below `w * h` decomposes into in-bounds coordinates.
pub proof fn lemma_flat_index_decompose(w: int, h: int, p: int)
    requires
        w >= 1,
        h >= 1,
        0 <= p < w * h,
    ensures
        0 <= p % w < w,
        0 <= p / w < h,
        p == (p % w) + (p / w) * w,
{
    assert(0 <= p % w < w && p == (p % w) + (p / w) * w) by (nonlinear_arith)
        requires
            w >= 1,
            0 <= p,
    ;
    assert(0 <= p / w < h) by (nonlinear_arith)
        requires
            w >= 1,
            h >= 1,
            0 <= p < w * h,
            p == (p % w) + (p / w) * w,
            0 <= p % w < w,
    ;
}

impl Grid {
    /// The cell store matches the declared dimensions.
    pub open spec fn wf(&self) -> bool {
        &&& self.width >= 1
        &&& self.height >= 1
        &&& self.cells@.len() == self.width * self.height
    }

    /// Both coordinates lie inside `[0, width) x [0, height)`.
    pub open spec fn spec_in_bounds(&self, x: int, y: int) -> bool {
        0 <= x < self.width && 0 <= y < self.height
    }

    /// The slot at (x, y).
    pub open spec fn cell_at(&self, x: int, y: int) -> Cell {
        self.cells@[x + y * self.width]
    }

    /// A grid of the given dimensions with every slot empty and unmoved.
    pub fn new(width: usize, height: usize) -> (g: Grid)
        requires
            width >= 1,
            height >= 1,
            width * height <= usize::MAX,
        ensures
            g.wf(),
            g.width == width,
            g.height == height,
            forall|i: int| 0 <= i < g.cells@.len() ==> g.cells@[i] == empty_cell(),
    {
        let total = width * height;
        let mut cells: Vec<Cell> = Vec::new();
        let mut i: usize = 0;
        while i < total
            invariant
                i <= total,
                cells@.len() == i,
                forall|j: int| 0 <= j < i ==> cells@[j] == empty_cell(),
            decreases total - i,
        {
            cells.push(Cell::new_empty());
            i = i + 1;
        }
        Grid { width, height, cells }
    }

    /// Whether (x, y) addresses a slot of this grid.
    pub fn in_bounds(&self, x: usize, y: usize) -> (b: bool)
        ensures
            b == self.spec_in_bounds(x as int, y as int),
    {
        x < self.width && y < self.height
    }

    /// The flat row-major index of the in-bounds slot (x, y).
    pub(crate) fn flat_index(&self, x: usize, y: usize) -> (p: usize)
        requires
            self.wf(),
            self.spec_in_bounds(x as int, y as int),
        ensures
            p == x + y * self.width,
            p < self.cells@.len(),
    {
        proof {
            lemma_flat_index_bounds(self.width as int, self.height as int, x as int, y as int);
        }
        // A Vec's length fits in a machine word, so the flat index does too.
        let _n = self.cells.len();
        x + y * self.width
    }

    /// The material at (x, y); `OutOfBounds` exactly when the coordinates
    /// leave the grid.
    pub fn get(&self, x: usize, y: usize) -> (r: Result<MaterialKind, GridError>)
        requires
            self.wf(),
        ensures
            match r {
                Ok(k) => self.spec_in_bounds(x as int, y as int) && k == self.cell_at(
                    x as int,
                    y as int,
                ).kind,
                Err(e) => !self.spec_in_bounds(x as int, y as int) && e == GridError::OutOfBounds,
            },
    {
        if x < self.width && y < self.height {
            let p = self.flat_index(x, y);
            Ok(self.cells[p].kind)
        } else {
            Err(GridError::OutOfBounds)
        }
    }

    /// Overwrite the slot at (x, y) with `kind`, unmoved; `OutOfBounds`
    /// exactly when the coordinates leave the grid, leaving it unchanged.
    pub fn set(&mut self, x: usize, y: usize, kind: MaterialKind) -> (r: Result<(), GridError>)
        requires
            old(self).wf(),
        ensures
            final(self).wf(),
            final(self).width == old(self).width,
            final(self).height == old(self).height,
            match r {
                Ok(()) => old(self).spec_in_bounds(x as int, y as int) && final(self).cells@ == old(
                    self,
                ).cells@.update(x + y * old(self).width, Cell { kind, moved: false }),
                Err(e) => {
                    &&& !old(self).spec_in_bounds(x as int, y as int)
                    &&& e == GridError::OutOfBounds
                    &&& *final(self) == *old(self)
                },
            },
    {
        if x < self.width && y < self.height {
            let p = self.flat_index(x, y);
            self.cells.set(p, Cell { kind, moved: false });
            Ok(())
        } else {
            Err(GridError::OutOfBounds)
        }
    }

    /// Bounds-checked single-neighbor lookup: the flat index of the slot at
    /// (x + dx, y + dy), or nothing if either axis leaves the grid.
    pub fn offset(&self, x: usize, y: usize, dx: i32, dy: i32) -> (r: Option<usize>)
        requires
            self.wf(),
            self.spec_in_bounds(x as int, y as int),
        ensures
            match r {
                Some(p) => {
                    &&& self.spec_in_bounds(x as int + dx as int, y as int + dy as int)
                    &&& p == crate::circle::flat(
                        self.width as int,
                        x as int + dx as int,
                        y as int + dy as int,
                    )
                    &&& p < self.cells@.len()
                },
                None => !self.spec_in_bounds(x as int + dx as int, y as int + dy as int),
            },
    {
        let nx_opt: Option<usize> = if dx >= 0 {
            let d = dx as usize;
            if d < self.width - x {
                Some(x + d)
            } else {
                None
            }
        } else {
            let d = (-(dx as i64)) as usize;
            if d <= x {
                Some(x - d)
            } else {
                None
            }
        };
        let ny_opt: Option<usize> = if dy >= 0 {
            let d = dy as usize;
            if d < self.height - y {
                Some(y + d)
            } else {
                None
            }
        } else {
            let d = (-(dy as i64)) as usize;
            if d <= y {
                Some(y - d)
            } else {
                None
            }
        };
        match (nx_opt, ny_opt) {
            (Some(nx), Some(ny)) => Some(self.flat_index(nx, ny)),
            _ => None,
        }
    }

    /// Direct read of the slot at flat index `p`.
    pub(crate) fn cell_idx(&self, p: usize) -> (c: Cell)
        requires
            p < self.cells@.len(),
        ensures
            c == self.cells@[p as int],
    {
        self.cells[p]
    }

    /// Direct overwrite of the slot at flat index `p`.
    pub(crate) fn set_idx(&mut self, p: usize, c: Cell)
        requires
            p < old(self).cells@.len(),
        ensures
            final(self).width == old(self).width,
            final(self).height == old(self).height,
            final(self).cells@ == old(self).cells@.update(p as int, c),
    {
        self.cells.set(p, c);
    }
}

} // verus!
