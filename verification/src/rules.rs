use vstd::prelude::*;
use crate::circle::{flat, in_disk};
use crate::grid::Grid;
use crate::material::{
    empty_cell, grain_passable, is_grain_passable, is_stone_passable, stone_passable, Cell,
    MaterialKind,
};
use crate::rng::{draw_of, SeededRng};

verus! {

/// Blast radius of a detonating bomb, in cells.
pub const BOMB_RADIUS: i32 = 5;

/// The state one scan threads from cell to cell: the grid contents and the
/// bounds of the tie-break draws served so far.
pub struct ScanState {
    pub cells: Seq<Cell>,
    pub hist: Seq<u64>,
}

/// (x, y) lies on the grid.
pub open spec fn inb(w: int, h: int, x: int, y: int) -> bool {
    0 <= x < w && 0 <= y < h
}

/// The material at (x, y).
pub open spec fn kind_at(s: Seq<Cell>, w: int, x: int, y: int) -> MaterialKind {
    s[flat(w, x, y)].kind
}

/// A grain of `kind` moves from `src` into `dst`: the destination is marked
/// moved, and the source keeps displaced water, else becomes empty.
pub open spec fn grain_move(s: Seq<Cell>, src: int, dst: int, kind: MaterialKind) -> Seq<Cell> {
    let vacated = if s[dst].kind is Water {
        Cell { kind: MaterialKind::Water, moved: false }
    } else {
        empty_cell()
    };
    s.update(dst, Cell { kind, moved: true }).update(src, vacated)
}

/// A liquid of `kind` flows from `src` into an empty `dst`.
pub open spec fn liquid_move(s: Seq<Cell>, src: int, dst: int, kind: MaterialKind) -> Seq<Cell> {
    s.update(dst, Cell { kind, moved: true }).update(src, empty_cell())
}

/// The diagonal-down slots a grain at (x, y) may fall into (down-left
/// first, then down-right): in bounds and holding vacancy or water.
pub open spec fn grain_diag_candidates(s: Seq<Cell>, w: int, h: int, x: int, y: int) -> Seq<
    usize,
> {
    let base = Seq::<usize>::empty();
    let with_l = if x - 1 >= 0 && y + 1 < h && grain_passable(kind_at(s, w, x - 1, y + 1)) {
        base.push(flat(w, x - 1, y + 1) as usize)
    } else {
        base
    };
    if x + 1 < w && y + 1 < h && grain_passable(kind_at(s, w, x + 1, y + 1)) {
        with_l.push(flat(w, x + 1, y + 1) as usize)
    } else {
        with_l
    }
}

/// The diagonal-down slots a liquid at (x, y) may flow into (down-left
/// first, then down-right): in bounds and empty.
pub open spec fn empty_diag_candidates(s: Seq<Cell>, w: int, h: int, x: int, y: int) -> Seq<
    usize,
> {
    let base = Seq::<usize>::empty();
    let with_l = if x - 1 >= 0 && y + 1 < h && kind_at(s, w, x - 1, y + 1) is Empty {
        base.push(flat(w, x - 1, y + 1) as usize)
    } else {
        base
    };
    if x + 1 < w && y + 1 < h && kind_at(s, w, x + 1, y + 1) is Empty {
        with_l.push(flat(w, x + 1, y + 1) as usize)
    } else {
        with_l
    }
}

/// The horizontal slots a liquid at (x, y) may spread into (left first,
/// then right): in bounds and empty.
pub open spec fn empty_side_candidates(s: Seq<Cell>, w: int, h: int, x: int, y: int) -> Seq<
    usize,
> {
    let base = Seq::<usize>::empty();
    let with_l = if x - 1 >= 0 && kind_at(s, w, x - 1, y) is Empty {
        base.push(flat(w, x - 1, y) as usize)
    } else {
        base
    };
    if x + 1 < w && kind_at(s, w, x + 1, y) is Empty {
        with_l.push(flat(w, x + 1, y) as usize)
    } else {
        with_l
    }
}

/// The index the tie-break source picks among `len` candidates: one draw
/// below `len`, which always lands inside the range; the clamp only makes
/// the choice total as a mathematical function.
pub open spec fn pick(seed: u64, hist: Seq<u64>, len: nat) -> int {
    let k = draw_of(seed, hist, len as u64);
    if k < len {
        k as int
    } else {
        0
    }
}

/// A grain (Sand, or Ice once past its melt check) falls: straight down
/// into vacancy or water, else into one of the free diagonal-down slots,
/// chosen uniformly by one tie-break draw; a grain on the bottom row rests.
pub open spec fn grain_fall_step(
    s: Seq<Cell>,
    w: int,
    h: int,
    x: int,
    y: int,
    seed: u64,
    hist: Seq<u64>,
    kind: MaterialKind,
) -> ScanState {
    let p = flat(w, x, y);
    if y + 1 < h {
        let below = flat(w, x, y + 1);
        if grain_passable(s[below].kind) {
            ScanState { cells: grain_move(s, p, below, kind), hist }
        } else {
            let cands = grain_diag_candidates(s, w, h, x, y);
            if cands.len() > 0 {
                ScanState {
                    cells: grain_move(s, p, cands[pick(seed, hist, cands.len())] as int, kind),
                    hist: hist.push(cands.len() as u64),
                }
            } else {
                ScanState { cells: s, hist }
            }
        }
    } else {
        ScanState { cells: s, hist }
    }
}

/// A liquid (Water past its reaction checks, or Lava) flows: straight down
/// into vacancy, else into a free diagonal-down slot chosen uniformly by
/// one tie-break draw, else spreads to a free side slot chosen the same
/// way; a liquid on the bottom row rests.
pub open spec fn liquid_flow_step(
    s: Seq<Cell>,
    w: int,
    h: int,
    x: int,
    y: int,
    seed: u64,
    hist: Seq<u64>,
    kind: MaterialKind,
) -> ScanState {
    let p = flat(w, x, y);
    let below = flat(w, x, y + 1);
    if s[below].kind is Empty {
        ScanState { cells: liquid_move(s, p, below, kind), hist }
    } else {
        let dc = empty_diag_candidates(s, w, h, x, y);
        if dc.len() > 0 {
            ScanState {
                cells: liquid_move(s, p, dc[pick(seed, hist, dc.len())] as int, kind),
                hist: hist.push(dc.len() as u64),
            }
        } else {
            let sc = empty_side_candidates(s, w, h, x, y);
            if sc.len() > 0 {
                ScanState {
                    cells: liquid_move(s, p, sc[pick(seed, hist, sc.len())] as int, kind),
                    hist: hist.push(sc.len() as u64),
                }
            } else {
                ScanState { cells: s, hist }
            }
        }
    }
}

/// The first Lava slot among the four neighbors of (x, y), scanned in the
/// order up, down, left, right.
pub open spec fn first_lava_neighbor(s: Seq<Cell>, w: int, h: int, x: int, y: int) -> Option<
    int,
> {
    if inb(w, h, x, y - 1) && kind_at(s, w, x, y - 1) is Lava {
        Some(flat(w, x, y - 1))
    } else if inb(w, h, x, y + 1) && kind_at(s, w, x, y + 1) is Lava {
        Some(flat(w, x, y + 1))
    } else if inb(w, h, x - 1, y) && kind_at(s, w, x - 1, y) is Lava {
        Some(flat(w, x - 1, y))
    } else if inb(w, h, x + 1, y) && kind_at(s, w, x + 1, y) is Lava {
        Some(flat(w, x + 1, y))
    } else {
        None
    }
}

/// Some four-neighbor of (x, y) holds Ice.
pub open spec fn touches_ice(s: Seq<Cell>, w: int, h: int, x: int, y: int) -> bool {
    ||| inb(w, h, x, y - 1) && kind_at(s, w, x, y - 1) is Ice
    ||| inb(w, h, x, y + 1) && kind_at(s, w, x, y + 1) is Ice
    ||| inb(w, h, x - 1, y) && kind_at(s, w, x - 1, y) is Ice
    ||| inb(w, h, x + 1, y) && kind_at(s, w, x + 1, y) is Ice
}

/// Some eight-neighbor of (x, y) holds Lava.
pub open spec fn touches_lava_8(s: Seq<Cell>, w: int, h: int, x: int, y: int) -> bool {
    ||| inb(w, h, x - 1, y - 1) && kind_at(s, w, x - 1, y - 1) is Lava
    ||| inb(w, h, x, y - 1) && kind_at(s, w, x, y - 1) is Lava
    ||| inb(w, h, x + 1, y - 1) && kind_at(s, w, x + 1, y - 1) is Lava
    ||| inb(w, h, x - 1, y) && kind_at(s, w, x - 1, y) is Lava
    ||| inb(w, h, x + 1, y) && kind_at(s, w, x + 1, y) is Lava
    ||| inb(w, h, x - 1, y + 1) && kind_at(s, w, x - 1, y + 1) is Lava
    ||| inb(w, h, x, y + 1) && kind_at(s, w, x, y + 1) is Lava
    ||| inb(w, h, x + 1, y + 1) && kind_at(s, w, x + 1, y + 1) is Lava
}

/// Sand falls as a grain keeps its kind.
pub open spec fn sand_step(
    s: Seq<Cell>,
    w: int,
    h: int,
    x: int,
    y: int,
    seed: u64,
    hist: Seq<u64>,
) -> ScanState {
    grain_fall_step(s, w, h, x, y, seed, hist, MaterialKind::Sand)
}

/// Water above the bottom row: quench the first Lava neighbor (water turns
/// to Stone, that Lava slot empties) before anything else; else freeze to
/// Ice beside Ice; else flow as a liquid.
pub open spec fn water_step(
    s: Seq<Cell>,
    w: int,
    h: int,
    x: int,
    y: int,
    seed: u64,
    hist: Seq<u64>,
) -> ScanState {
    let p = flat(w, x, y);
    if y + 1 < h {
        if first_lava_neighbor(s, w, h, x, y) is Some {
            let lp = first_lava_neighbor(s, w, h, x, y)->0;
            ScanState {
                cells: s.update(p, Cell { kind: MaterialKind::Stone, moved: false }).update(
                    lp,
                    empty_cell(),
                ),
                hist,
            }
        } else if touches_ice(s, w, h, x, y) {
            ScanState { cells: s.update(p, Cell { kind: MaterialKind::Ice, moved: false }), hist }
        } else {
            liquid_flow_step(s, w, h, x, y, seed, hist, MaterialKind::Water)
        }
    } else {
        ScanState { cells: s, hist }
    }
}

/// Stone falls straight down only, sinking through vacancy, water (pushed
/// up) and lava (destroyed).
pub open spec fn stone_step(
    s: Seq<Cell>,
    w: int,
    h: int,
    x: int,
    y: int,
    hist: Seq<u64>,
) -> ScanState {
    let p = flat(w, x, y);
    if y + 1 < h {
        let below = flat(w, x, y + 1);
        if stone_passable(s[below].kind) {
            ScanState { cells: grain_move(s, p, below, MaterialKind::Stone), hist }
        } else {
            ScanState { cells: s, hist }
        }
    } else {
        ScanState { cells: s, hist }
    }
}

/// Lava above the bottom row flows as a liquid into empty slots only.
pub open spec fn lava_step(
    s: Seq<Cell>,
    w: int,
    h: int,
    x: int,
    y: int,
    seed: u64,
    hist: Seq<u64>,
) -> ScanState {
    if y + 1 < h {
        liquid_flow_step(s, w, h, x, y, seed, hist, MaterialKind::Lava)
    } else {
        ScanState { cells: s, hist }
    }
}

/// Ice above the bottom row: melt to Water beside Lava (eight-neighbor
/// scan, no move this tick), else fall as a grain keeping its kind.
pub open spec fn ice_step(
    s: Seq<Cell>,
    w: int,
    h: int,
    x: int,
    y: int,
    seed: u64,
    hist: Seq<u64>,
) -> ScanState {
    let p = flat(w, x, y);
    if y + 1 < h {
        if touches_lava_8(s, w, h, x, y) {
            ScanState { cells: s.update(p, Cell { kind: MaterialKind::Water, moved: false }), hist }
        } else {
            grain_fall_step(s, w, h, x, y, seed, hist, MaterialKind::Ice)
        }
    } else {
        ScanState { cells: s, hist }
    }
}

/// Every in-bounds cell within the blast radius of (x, y), the bomb's own
/// slot included, becomes empty and unmoved.
pub open spec fn detonate(s: Seq<Cell>, w: int, x: int, y: int) -> Seq<Cell> {
    Seq::new(
        s.len(),
        |i: int|
            if in_disk(x, y, i % w, i / w, BOMB_RADIUS as int) {
                empty_cell()
            } else {
                s[i]
            },
    )
}

/// A bomb detonates unconditionally on the tick it is scanned.
pub open spec fn bomb_step(s: Seq<Cell>, w: int, x: int, y: int, hist: Seq<u64>) -> ScanState {
    ScanState { cells: detonate(s, w, x, y), hist }
}

/// An airplane moves one slot right into vacancy; blocked, or at the
/// rightmost column, it converts in place to a Bomb that fires on a later
/// tick's scan.
pub open spec fn airplane_step(s: Seq<Cell>, w: int, x: int, y: int, hist: Seq<u64>) -> ScanState {
    let p = flat(w, x, y);
    if x + 1 < w && s[flat(w, x + 1, y)].kind is Empty {
        ScanState {
            cells: s.update(flat(w, x + 1, y), Cell { kind: MaterialKind::Airplane, moved: true })
                .update(p, empty_cell()),
            hist,
        }
    } else {
        ScanState { cells: s.update(p, Cell { kind: MaterialKind::Bomb, moved: false }), hist }
    }
}

/// Every grain diagonal candidate is a slot of the grid.
pub proof fn lemma_grain_diag_candidates_in_range(s: Seq<Cell>, w: int, h: int, x: int, y: int)
    requires
        w >= 1,
        h >= 1,
        w * h <= usize::MAX,
        0 <= x < w,
        0 <= y < h,
    ensures
        forall|i: int|
            0 <= i < grain_diag_candidates(s, w, h, x, y).len() ==> 0 <= (
            #[trigger] grain_diag_candidates(s, w, h, x, y)[i]) < w * h,
{
    if x - 1 >= 0 && y + 1 < h && grain_passable(kind_at(s, w, x - 1, y + 1)) {
        crate::grid::lemma_flat_index_bounds(w, h, x - 1, y + 1);
    }
    if x + 1 < w && y + 1 < h && grain_passable(kind_at(s, w, x + 1, y + 1)) {
        crate::grid::lemma_flat_index_bounds(w, h, x + 1, y + 1);
    }
}

/// Every empty diagonal candidate is a slot of the grid.
pub proof fn lemma_empty_diag_candidates_in_range(s: Seq<Cell>, w: int, h: int, x: int, y: int)
    requires
        w >= 1,
        h >= 1,
        w * h <= usize::MAX,
        0 <= x < w,
        0 <= y < h,
    ensures
        forall|i: int|
            0 <= i < empty_diag_candidates(s, w, h, x, y).len() ==> 0 <= (
            #[trigger] empty_diag_candidates(s, w, h, x, y)[i]) < w * h,
{
    if x - 1 >= 0 && y + 1 < h && kind_at(s, w, x - 1, y + 1) is Empty {
        crate::grid::lemma_flat_index_bounds(w, h, x - 1, y + 1);
    }
    if x + 1 < w && y + 1 < h && kind_at(s, w, x + 1, y + 1) is Empty {
        crate::grid::lemma_flat_index_bounds(w, h, x + 1, y + 1);
    }
}

/// Every empty side candidate is a slot of the grid.
pub proof fn lemma_empty_side_candidates_in_range(s: Seq<Cell>, w: int, h: int, x: int, y: int)
    requires
        w >= 1,
        h >= 1,
        w * h <= usize::MAX,
        0 <= x < w,
        0 <= y < h,
    ensures
        forall|i: int|
            0 <= i < empty_side_candidates(s, w, h, x, y).len() ==> 0 <= (
            #[trigger] empty_side_candidates(s, w, h, x, y)[i]) < w * h,
{
    if x - 1 >= 0 && kind_at(s, w, x - 1, y) is Empty {
        crate::grid::lemma_flat_index_bounds(w, h, x - 1, y);
    }
    if x + 1 < w && kind_at(s, w, x + 1, y) is Empty {
        crate::grid::lemma_flat_index_bounds(w, h, x + 1, y);
    }
}

/// A quench target returned by the neighbor scan is a slot of the grid.
pub proof fn lemma_first_lava_in_range(s: Seq<Cell>, w: int, h: int, x: int, y: int)
    requires
        w >= 1,
        h >= 1,
    ensures
        (first_lava_neighbor(s, w, h, x, y) matches Some(v) ==> 0 <= v < w * h),
{
    if inb(w, h, x, y - 1) {
        crate::grid::lemma_flat_index_bounds(w, h, x, y - 1);
    }
    if inb(w, h, x, y + 1) {
        crate::grid::lemma_flat_index_bounds(w, h, x, y + 1);
    }
    if inb(w, h, x - 1, y) {
        crate::grid::lemma_flat_index_bounds(w, h, x - 1, y);
    }
    if inb(w, h, x + 1, y) {
        crate::grid::lemma_flat_index_bounds(w, h, x + 1, y);
    }
}

/// Dispatch one scan visit to the slot at flat index `p`: a slot already
/// marked moved is skipped, Empty and Steel are inert, every other kind
/// follows its material rule.
pub open spec fn step_at(
    s: Seq<Cell>,
    w: int,
    h: int,
    seed: u64,
    hist: Seq<u64>,
    p: int,
) -> ScanState {
    let x = p % w;
    let y = p / w;
    let c = s[p];
    if c.moved {
        ScanState { cells: s, hist }
    } else {
        match c.kind {
            MaterialKind::Empty => ScanState { cells: s, hist },
            MaterialKind::Steel => ScanState { cells: s, hist },
            MaterialKind::Sand => sand_step(s, w, h, x, y, seed, hist),
            MaterialKind::Water => water_step(s, w, h, x, y, seed, hist),
            MaterialKind::Stone => stone_step(s, w, h, x, y, hist),
            MaterialKind::Lava => lava_step(s, w, h, x, y, seed, hist),
            MaterialKind::Ice => ice_step(s, w, h, x, y, seed, hist),
            MaterialKind::Bomb => bomb_step(s, w, x, y, hist),
            MaterialKind::Airplane => airplane_step(s, w, x, y, hist),
        }
    }
}

impl Grid {
    /// Carry out a grain move from `src` into `dst`.
    fn apply_grain_move(&mut self, src: usize, dst: usize, kind: MaterialKind)
        requires
            src < old(self).cells@.len(),
            dst < old(self).cells@.len(),
        ensures
            final(self).width == old(self).width,
            final(self).height == old(self).height,
            final(self).cells@ == grain_move(old(self).cells@, src as int, dst as int, kind),
    {
        let dc = self.cell_idx(dst);
        let vac = if dc.kind == MaterialKind::Water {
            Cell { kind: MaterialKind::Water, moved: false }
        } else {
            Cell::new_empty()
        };
        self.set_idx(dst, Cell { kind, moved: true });
        self.set_idx(src, vac);
    }

    /// Carry out a liquid move from `src` into `dst`.
    fn apply_liquid_move(&mut self, src: usize, dst: usize, kind: MaterialKind)
        requires
            src < old(self).cells@.len(),
            dst < old(self).cells@.len(),
        ensures
            final(self).width == old(self).width,
            final(self).height == old(self).height,
            final(self).cells@ == liquid_move(old(self).cells@, src as int, dst as int, kind),
    {
        self.set_idx(dst, Cell { kind, moved: true });
        self.set_idx(src, Cell::new_empty());
    }

    /// Collect the grain diagonal-down candidates at (x, y).
    fn grain_diags(&self, x: usize, y: usize) -> (v: Vec<usize>)
        requires
            self.wf(),
            self.spec_in_bounds(x as int, y as int),
        ensures
            v@ == grain_diag_candidates(
                self.cells@,
                self.width as int,
                self.height as int,
                x as int,
                y as int,
            ),
            forall|i: int| 0 <= i < v@.len() ==> v@[i] < self.cells@.len(),
    {
        let mut v: Vec<usize> = Vec::new();
        if y + 1 < self.height {
            if x >= 1 {
                let q = self.flat_index(x - 1, y + 1);
                if is_grain_passable(self.cell_idx(q).kind) {
                    v.push(q);
                }
            }
            if x + 1 < self.width {
                let q = self.flat_index(x + 1, y + 1);
                if is_grain_passable(self.cell_idx(q).kind) {
                    v.push(q);
                }
            }
        }
        v
    }

    /// Collect the empty diagonal-down candidates at (x, y).
    fn empty_diags(&self, x: usize, y: usize) -> (v: Vec<usize>)
        requires
            self.wf(),
            self.spec_in_bounds(x as int, y as int),
        ensures
            v@ == empty_diag_candidates(
                self.cells@,
                self.width as int,
                self.height as int,
                x as int,
                y as int,
            ),
            forall|i: int| 0 <= i < v@.len() ==> v@[i] < self.cells@.len(),
    {
        let mut v: Vec<usize> = Vec::new();
        if y + 1 < self.height {
            if x >= 1 {
                let q = self.flat_index(x - 1, y + 1);
                if self.cell_idx(q).kind == MaterialKind::Empty {
                    v.push(q);
                }
            }
            if x + 1 < self.width {
                let q = self.flat_index(x + 1, y + 1);
                if self.cell_idx(q).kind == MaterialKind::Empty {
                    v.push(q);
                }
            }
        }
        v
    }

    /// One grain-fall visit at (x, y).
    fn fall_as_grain(&mut self, x: usize, y: usize, rng: &mut SeededRng, kind: MaterialKind)
        requires
            old(self).wf(),
            old(self).spec_in_bounds(x as int, y as int),
        ensures
            final(self).wf(),
            final(self).width == old(self).width,
            final(self).height == old(self).height,
            final(rng).seed_val() == old(rng).seed_val(),
            (ScanState { cells: final(self).cells@, hist: final(rng).drawn() } == grain_fall_step(
                old(self).cells@,
                old(self).width as int,
                old(self).height as int,
                x as int,
                y as int,
                old(rng).seed_val(),
                old(rng).drawn(),
                kind,
            )),
    {
        if y + 1 < self.height {
            let p = self.flat_index(x, y);
            let below = self.flat_index(x, y + 1);
            if is_grain_passable(self.cell_idx(below).kind) {
                self.apply_grain_move(p, below, kind);
            } else {
                let cands = self.grain_diags(x, y);
                if cands.len() > 0 {
                    let k = rng.pick_index(cands.len());
                    let t = cands[k];
                    self.apply_grain_move(p, t, kind);
                }
            }
        }
    }

    /// One liquid-flow visit at (x, y), for a liquid above the bottom row.
    fn flow_as_liquid(&mut self, x: usize, y: usize, rng: &mut SeededRng, kind: MaterialKind)
        requires
            old(self).wf(),
            old(self).spec_in_bounds(x as int, y as int),
            y as int + 1 < old(self).height,
        ensures
            final(self).wf(),
            final(self).width == old(self).width,
            final(self).height == old(self).height,
            final(rng).seed_val() == old(rng).seed_val(),
            (ScanState { cells: final(self).cells@, hist: final(rng).drawn() } == liquid_flow_step(
                old(self).cells@,
                old(self).width as int,
                old(self).height as int,
                x as int,
                y as int,
                old(rng).seed_val(),
                old(rng).drawn(),
                kind,
            )),
    {
        let p = self.flat_index(x, y);
        let below = self.flat_index(x, y + 1);
        if self.cell_idx(below).kind == MaterialKind::Empty {
            self.apply_liquid_move(p, below, kind);
        } else {
            let dc = self.empty_diags(x, y);
            if dc.len() > 0 {
                let k = rng.pick_index(dc.len());
                let t = dc[k];
                self.apply_liquid_move(p, t, kind);
            } else {
                let sc = self.empty_sides(x, y);
                if sc.len() > 0 {
                    let k = rng.pick_index(sc.len());
                    let t = sc[k];
                    self.apply_liquid_move(p, t, kind);
                }
            }
        }
    }

    /// The first Lava neighbor of (x, y), scanned up, down, left, right.
    fn find_lava_neighbor(&self, x: usize, y: usize) -> (r: Option<usize>)
        requires
            self.wf(),
            self.spec_in_bounds(x as int, y as int),
        ensures
            match r {
                Some(q) => first_lava_neighbor(
                    self.cells@,
                    self.width as int,
                    self.height as int,
                    x as int,
                    y as int,
                ) == Some(q as int) && q < self.cells@.len(),
                None => (first_lava_neighbor(
                    self.cells@,
                    self.width as int,
                    self.height as int,
                    x as int,
                    y as int,
                ) is None),
            },
    {
        if let Some(q) = self.offset(x, y, 0, -1) {
            if self.cell_idx(q).kind == MaterialKind::Lava {
                return Some(q);
            }
        }
        if let Some(q) = self.offset(x, y, 0, 1) {
            if self.cell_idx(q).kind == MaterialKind::Lava {
                return Some(q);
            }
        }
        if let Some(q) = self.offset(x, y, -1, 0) {
            if self.cell_idx(q).kind == MaterialKind::Lava {
                return Some(q);
            }
        }
        if let Some(q) = self.offset(x, y, 1, 0) {
            if self.cell_idx(q).kind == MaterialKind::Lava {
                return Some(q);
            }
        }
        None
    }

    /// Whether some four-neighbor of (x, y) holds Ice.
    fn scan_ice_4(&self, x: usize, y: usize) -> (b: bool)
        requires
            self.wf(),
            self.spec_in_bounds(x as int, y as int),
        ensures
            b == touches_ice(
                self.cells@,
                self.width as int,
                self.height as int,
                x as int,
                y as int,
            ),
    {
        let mut b = false;
        if let Some(q) = self.offset(x, y, 0, -1) {
            if self.cell_idx(q).kind == MaterialKind::Ice {
                b = true;
            }
        }
        if let Some(q) = self.offset(x, y, 0, 1) {
            if self.cell_idx(q).kind == MaterialKind::Ice {
                b = true;
            }
        }
        if let Some(q) = self.offset(x, y, -1, 0) {
            if self.cell_idx(q).kind == MaterialKind::Ice {
                b = true;
            }
        }
        if let Some(q) = self.offset(x, y, 1, 0) {
            if self.cell_idx(q).kind == MaterialKind::Ice {
                b = true;
            }
        }
        b
    }

    /// Whether some eight-neighbor of (x, y) holds Lava.
    fn scan_lava_8(&self, x: usize, y: usize) -> (b: bool)
        requires
            self.wf(),
            self.spec_in_bounds(x as int, y as int),
        ensures
            b == touches_lava_8(
                self.cells@,
                self.width as int,
                self.height as int,
                x as int,
                y as int,
            ),
    {
        let mut b = false;
        if let Some(q) = self.offset(x, y, -1, -1) {
            if self.cell_idx(q).kind == MaterialKind::Lava {
                b = true;
            }
        }
        if let Some(q) = self.offset(x, y, 0, -1) {
            if self.cell_idx(q).kind == MaterialKind::Lava {
                b = true;
            }
        }
        if let Some(q) = self.offset(x, y, 1, -1) {
            if self.cell_idx(q).kind == MaterialKind::Lava {
                b = true;
            }
        }
        if let Some(q) = self.offset(x, y, -1, 0) {
            if self.cell_idx(q).kind == MaterialKind::Lava {
                b = true;
            }
        }
        if let Some(q) = self.offset(x, y, 1, 0) {
            if self.cell_idx(q).kind == MaterialKind::Lava {
                b = true;
            }
        }
        if let Some(q) = self.offset(x, y, -1, 1) {
            if self.cell_idx(q).kind == MaterialKind::Lava {
                b = true;
            }
        }
        if let Some(q) = self.offset(x, y, 0, 1) {
            if self.cell_idx(q).kind == MaterialKind::Lava {
                b = true;
            }
        }
        if let Some(q) = self.offset(x, y, 1, 1) {
            if self.cell_idx(q).kind == MaterialKind::Lava {
                b = true;
            }
        }
        b
    }

    /// Collect the empty side candidates at (x, y).
    fn empty_sides(&self, x: usize, y: usize) -> (v: Vec<usize>)
        requires
            self.wf(),
            self.spec_in_bounds(x as int, y as int),
        ensures
            v@ == empty_side_candidates(
                self.cells@,
                self.width as int,
                self.height as int,
                x as int,
                y as int,
            ),
            forall|i: int| 0 <= i < v@.len() ==> v@[i] < self.cells@.len(),
    {
        let mut v: Vec<usize> = Vec::new();
        if x >= 1 {
            let q = self.flat_index(x - 1, y);
            if self.cell_idx(q).kind == MaterialKind::Empty {
                v.push(q);
            }
        }
        if x + 1 < self.width {
            let q = self.flat_index(x + 1, y);
            if self.cell_idx(q).kind == MaterialKind::Empty {
                v.push(q);
            }
        }
        v
    }

    /// One Sand visit at (x, y).
    pub fn visit_sand(&mut self, x: usize, y: usize, rng: &mut SeededRng)
        requires
            old(self).wf(),
            old(self).spec_in_bounds(x as int, y as int),
        ensures
            final(self).wf(),
            final(self).width == old(self).width,
            final(self).height == old(self).height,
            final(rng).seed_val() == old(rng).seed_val(),
            (ScanState { cells: final(self).cells@, hist: final(rng).drawn() } == sand_step(
                old(self).cells@,
                old(self).width as int,
                old(self).height as int,
                x as int,
                y as int,
                old(rng).seed_val(),
                old(rng).drawn(),
            )),
    {
        self.fall_as_grain(x, y, rng, MaterialKind::Sand);
    }

    /// One Water visit at (x, y).
    pub fn visit_water(&mut self, x: usize, y: usize, rng: &mut SeededRng)
        requires
            old(self).wf(),
            old(self).spec_in_bounds(x as int, y as int),
        ensures
            final(self).wf(),
            final(self).width == old(self).width,
            final(self).height == old(self).height,
            final(rng).seed_val() == old(rng).seed_val(),
            (ScanState { cells: final(self).cells@, hist: final(rng).drawn() } == water_step(
                old(self).cells@,
                old(self).width as int,
                old(self).height as int,
                x as int,
                y as int,
                old(rng).seed_val(),
                old(rng).drawn(),
            )),
    {
        if y + 1 < self.height {
            match self.find_lava_neighbor(x, y) {
                Some(lp) => {
                    let p = self.flat_index(x, y);
                    self.set_idx(p, Cell { kind: MaterialKind::Stone, moved: false });
                    self.set_idx(lp, Cell::new_empty());
                },
                None => {
                    if self.scan_ice_4(x, y) {
                        let p = self.flat_index(x, y);
                        self.set_idx(p, Cell { kind: MaterialKind::Ice, moved: false });
                    } else {
                        self.flow_as_liquid(x, y, rng, MaterialKind::Water);
                    }
                },
            }
        }
    }

    /// One Stone visit at (x, y).
    pub fn visit_stone(&mut self, x: usize, y: usize)
        requires
            old(self).wf(),
            old(self).spec_in_bounds(x as int, y as int),
        ensures
            final(self).wf(),
            final(self).width == old(self).width,
            final(self).height == old(self).height,
            final(self).cells@ == stone_step(
                old(self).cells@,
                old(self).width as int,
                old(self).height as int,
                x as int,
                y as int,
                Seq::<u64>::empty(),
            ).cells,
    {
        if y + 1 < self.height {
            let p = self.flat_index(x, y);
            let below = self.flat_index(x, y + 1);
            if is_stone_passable(self.cell_idx(below).kind) {
                self.apply_grain_move(p, below, MaterialKind::Stone);
            }
        }
    }

    /// One Lava visit at (x, y).
    pub fn visit_lava(&mut self, x: usize, y: usize, rng: &mut SeededRng)
        requires
            old(self).wf(),
            old(self).spec_in_bounds(x as int, y as int),
        ensures
            final(self).wf(),
            final(self).width == old(self).width,
            final(self).height == old(self).height,
            final(rng).seed_val() == old(rng).seed_val(),
            (ScanState { cells: final(self).cells@, hist: final(rng).drawn() } == lava_step(
                old(self).cells@,
                old(self).width as int,
                old(self).height as int,
                x as int,
                y as int,
                old(rng).seed_val(),
                old(rng).drawn(),
            )),
    {
        if y + 1 < self.height {
            self.flow_as_liquid(x, y, rng, MaterialKind::Lava);
        }
    }

    /// One Ice visit at (x, y).
    pub fn visit_ice(&mut self, x: usize, y: usize, rng: &mut SeededRng)
        requires
            old(self).wf(),
            old(self).spec_in_bounds(x as int, y as int),
        ensures
            final(self).wf(),
            final(self).width == old(self).width,
            final(self).height == old(self).height,
            final(rng).seed_val() == old(rng).seed_val(),
            (ScanState { cells: final(self).cells@, hist: final(rng).drawn() } == ice_step(
                old(self).cells@,
                old(self).width as int,
                old(self).height as int,
                x as int,
                y as int,
                old(rng).seed_val(),
                old(rng).drawn(),
            )),
    {
        if y + 1 < self.height {
            if self.scan_lava_8(x, y) {
                let p = self.flat_index(x, y);
                self.set_idx(p, Cell { kind: MaterialKind::Water, moved: false });
            } else {
                self.fall_as_grain(x, y, rng, MaterialKind::Ice);
            }
        }
    }

    /// One Airplane visit at (x, y).
    pub fn visit_airplane(&mut self, x: usize, y: usize)
        requires
            old(self).wf(),
            old(self).spec_in_bounds(x as int, y as int),
        ensures
            final(self).wf(),
            final(self).width == old(self).width,
            final(self).height == old(self).height,
            final(self).cells@ == airplane_step(
                old(self).cells@,
                old(self).width as int,
                x as int,
                y as int,
                Seq::<u64>::empty(),
            ).cells,
    {
        let p = self.flat_index(x, y);
        if x + 1 < self.width {
            let right = self.flat_index(x + 1, y);
            if self.cell_idx(right).kind == MaterialKind::Empty {
                self.set_idx(right, Cell { kind: MaterialKind::Airplane, moved: true });
                self.set_idx(p, Cell::new_empty());
            } else {
                self.set_idx(p, Cell { kind: MaterialKind::Bomb, moved: false });
            }
        } else {
            self.set_idx(p, Cell { kind: MaterialKind::Bomb, moved: false });
        }
    }

    /// One Bomb visit at (x, y): detonate.
    pub fn visit_bomb(&mut self, x: usize, y: usize)
        requires
            old(self).wf(),
            old(self).spec_in_bounds(x as int, y as int),
        ensures
            final(self).wf(),
            final(self).width == old(self).width,
            final(self).height == old(self).height,
            final(self).cells@ == detonate(
                old(self).cells@,
                old(self).width as int,
                x as int,
                y as int,
            ),
    {
        let ghost s0 = self.cells@;
        let ghost wg = self.width as int;
        let ghost hg = self.height as int;
        // A Vec's length fits in a machine word, so every flat index does.
        let _n = self.cells.len();
        let p = self.flat_index(x, y);
        proof {
            crate::circle::lemma_flat_unique(wg, x as int, y as int);
            crate::circle::lemma_disk_index_seq_membership(
                x as int,
                y as int,
                BOMB_RADIUS as int,
                wg,
                hg,
            );
        }
        let idxs = crate::circle::indices_in_circle(p, BOMB_RADIUS, self.width, self.height);
        let ghost dseq = idxs@;
        let m = idxs.len();
        let mut i: usize = 0;
        while i < m
            invariant
                self.wf(),
                self.width as int == wg,
                self.height as int == hg,
                self.cells@.len() == s0.len(),
                s0.len() == wg * hg,
                wg >= 1,
                hg >= 1,
                wg * hg <= usize::MAX,
                i <= m,
                m == dseq.len(),
                idxs@ == dseq,
                forall|q: usize| #[trigger]
                    dseq.contains(q) ==> q < wg * hg && in_disk(
                        x as int,
                        y as int,
                        q as int % wg,
                        q as int / wg,
                        BOMB_RADIUS as int,
                    ),
                forall|a: int, b: int|
                    0 <= a < wg && 0 <= b < hg && #[trigger] in_disk(
                        x as int,
                        y as int,
                        a,
                        b,
                        BOMB_RADIUS as int,
                    ) ==> dseq.contains(flat(wg, a, b) as usize),
                forall|j: int|
                    0 <= j < s0.len() ==> self.cells@[j] == (if dseq.subrange(
                        0,
                        i as int,
                    ).contains(j as usize) {
                        empty_cell()
                    } else {
                        s0[j]
                    }),
            decreases m - i,
        {
            let q = idxs[i];
            proof {
                assert(dseq.contains(q)) by {
                    assert(dseq[i as int] == q);
                }
            }
            let ghost before = self.cells@;
            self.set_idx(q, Cell::new_empty());
            proof {
                let sub0 = dseq.subrange(0, i as int);
                let sub1 = dseq.subrange(0, i as int + 1);
                assert(sub1 =~= sub0.push(q));
                assert forall|j: int| 0 <= j < s0.len() implies self.cells@[j] == (if sub1.contains(
                    j as usize,
                ) {
                    empty_cell()
                } else {
                    s0[j]
                }) by {
                    let e = j as usize;
                    if j == q as int {
                        assert(sub1[sub0.len() as int] == q);
                        assert(sub1.contains(e));
                    } else {
                        if sub1.contains(e) {
                            let k = choose|k: int| 0 <= k < sub1.len() && sub1[k] == e;
                            assert(sub0[k] == e);
                            assert(sub0.contains(e));
                        }
                        if sub0.contains(e) {
                            let k = choose|k: int| 0 <= k < sub0.len() && sub0[k] == e;
                            assert(sub1[k] == e);
                            assert(sub1.contains(e));
                        }
                    }
                }
            }
            i += 1;
        }
        proof {
            assert(dseq.subrange(0, m as int) =~= dseq);
            assert forall|j: int| 0 <= j < s0.len() implies self.cells@[j] == detonate(
                s0,
                wg,
                x as int,
                y as int,
            )[j] by {
                vstd::arithmetic::div_mod::lemma_fundamental_div_mod(j, wg);
                crate::grid::lemma_flat_index_decompose(wg, hg, j);
                if in_disk(x as int, y as int, j % wg, j / wg, BOMB_RADIUS as int) {
                    assert(dseq.contains(flat(wg, j % wg, j / wg) as usize));
                    assert(flat(wg, j % wg, j / wg) == j);
                    assert(dseq.contains(j as usize));
                } else {
                    if dseq.contains(j as usize) {
                        assert(in_disk(
                            x as int,
                            y as int,
                            j as usize as int % wg,
                            j as usize as int / wg,
                            BOMB_RADIUS as int,
                        ));
                        assert(false);
                    }
                }
            }
            assert(self.cells@ =~= detonate(s0, wg, x as int, y as int));
        }
    }
}

} // verus!
