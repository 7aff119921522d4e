use vstd::prelude::*;
use crate::grid::{all_unmoved, Grid};
use crate::material::{Cell, MaterialKind};
use crate::rng::SeededRng;
use crate::rules::{
    empty_diag_candidates, empty_side_candidates, first_lava_neighbor, grain_diag_candidates,
    step_at, ScanState,
};

verus! {

/// The scan state after visiting the flat slots `p`, `p - 1`, ..., 0, in
/// that order: bottom row first, right to left within a row.
pub open spec fn scan_down(
    s: Seq<Cell>,
    w: int,
    h: int,
    seed: u64,
    hist: Seq<u64>,
    p: int,
) -> ScanState
    decreases p + 1,
{
    if p < 0 {
        ScanState { cells: s, hist }
    } else {
        let st = step_at(s, w, h, seed, hist, p);
        scan_down(st.cells, w, h, seed, st.hist, p - 1)
    }
}

/// Every per-tick moved flag cleared, materials untouched.
pub open spec fn clear_flags(s: Seq<Cell>) -> Seq<Cell> {
    s.map(|i: int, c: Cell| Cell { kind: c.kind, moved: false })
}

/// One full tick over a `w` by `h` grid: one scan visit per slot, bottom
/// row first and right to left within a row, then every moved flag
/// cleared.
pub open spec fn spec_tick(s: Seq<Cell>, w: int, h: int, seed: u64, hist: Seq<u64>) -> ScanState {
    let st = scan_down(s, w, h, seed, hist, w * h - 1);
    ScanState { cells: clear_flags(st.cells), hist: st.hist }
}

impl Grid {
    /// Visit the slot at flat index `p` once, as the tick's scan does.
    fn step_cell(&mut self, p: usize, rng: &mut SeededRng)
        requires
            old(self).wf(),
            p < old(self).cells@.len(),
        ensures
            final(self).wf(),
            final(self).width == old(self).width,
            final(self).height == old(self).height,
            final(rng).seed_val() == old(rng).seed_val(),
            (ScanState { cells: final(self).cells@, hist: final(rng).drawn() } == step_at(
                old(self).cells@,
                old(self).width as int,
                old(self).height as int,
                old(rng).seed_val(),
                old(rng).drawn(),
                p as int,
            )),
    {
        proof {
            crate::grid::lemma_flat_index_decompose(
                self.width as int,
                self.height as int,
                p as int,
            );
        }
        let x = p % self.width;
        let y = p / self.width;
        let c = self.cell_idx(p);
        if c.moved {
            return ;
        }
        match c.kind {
            MaterialKind::Empty => {},
            MaterialKind::Steel => {},
            MaterialKind::Sand => self.visit_sand(x, y, rng),
            MaterialKind::Water => self.visit_water(x, y, rng),
            MaterialKind::Stone => self.visit_stone(x, y),
            MaterialKind::Lava => self.visit_lava(x, y, rng),
            MaterialKind::Ice => self.visit_ice(x, y, rng),
            MaterialKind::Bomb => self.visit_bomb(x, y),
            MaterialKind::Airplane => self.visit_airplane(x, y),
        }
    }

    /// Advance the simulation by exactly one generation: scan every slot
    /// bottom row first and right to left within a row, dispatching each
    /// unmoved cell to its material rule, then clear all moved flags.
    pub fn tick(&mut self, rng: &mut SeededRng)
        requires
            old(self).wf(),
            all_unmoved(old(self).cells@),
        ensures
            final(self).wf(),
            final(self).width == old(self).width,
            final(self).height == old(self).height,
            final(rng).seed_val() == old(rng).seed_val(),
            final(self).cells@ == spec_tick(
                old(self).cells@,
                old(self).width as int,
                old(self).height as int,
                old(rng).seed_val(),
                old(rng).drawn(),
            ).cells,
            final(rng).drawn() == spec_tick(
                old(self).cells@,
                old(self).width as int,
                old(self).height as int,
                old(rng).seed_val(),
                old(rng).drawn(),
            ).hist,
            all_unmoved(final(self).cells@),
    {
        let ghost s0 = self.cells@;
        let ghost h0 = rng.drawn();
        let ghost seedg = rng.seed_val();
        let ghost wg = self.width as int;
        let ghost hg = self.height as int;
        let n = self.cells.len();
        let mut p = n;
        while p > 0
            invariant
                self.wf(),
                self.width as int == wg,
                self.height as int == hg,
                self.cells@.len() == n,
                n == s0.len(),
                p <= n,
                rng.seed_val() == seedg,
                scan_down(self.cells@, wg, hg, seedg, rng.drawn(), p as int - 1) == scan_down(
                    s0,
                    wg,
                    hg,
                    seedg,
                    h0,
                    n as int - 1,
                ),
            decreases p,
        {
            p = p - 1;
            self.step_cell(p, rng);
        }
        proof {
            assert(scan_down(self.cells@, wg, hg, seedg, rng.drawn(), -1) == (ScanState {
                cells: self.cells@,
                hist: rng.drawn(),
            }));
        }
        let ghost smid = self.cells@;
        let mut i: usize = 0;
        while i < n
            invariant
                self.wf(),
                self.width as int == wg,
                self.height as int == hg,
                self.cells@.len() == n,
                n == smid.len(),
                i <= n,
                forall|j: int|
                    0 <= j < i ==> self.cells@[j] == (Cell { kind: smid[j].kind, moved: false }),
                forall|j: int| i <= j < n ==> self.cells@[j] == smid[j],
            decreases n - i,
        {
            let c = self.cell_idx(i);
            self.set_idx(i, Cell { kind: c.kind, moved: false });
            i += 1;
        }
        proof {
            assert(self.cells@ =~= clear_flags(smid));
        }
    }
}

/// A slot that became the destination of a move earlier in the current
/// tick's scan carries the moved flag, and the scan skips it outright when
/// its own turn comes: its dispatch changes no cell and draws nothing.
/// Since the scan visits each slot exactly once per tick, no slot sources
/// more than one successful move or swap within a tick.
pub proof fn lemma_moved_slot_is_skipped(
    s: Seq<Cell>,
    w: int,
    h: int,
    seed: u64,
    hist: Seq<u64>,
    p: int,
)
    requires
        0 <= p < s.len(),
        s[p].moved,
    ensures
        step_at(s, w, h, seed, hist, p) == (ScanState { cells: s, hist }),
{
}

/// One scan visit anywhere on the grid keeps a passive slot passive: a
/// slot that is flagged moved, or empty, is afterwards still flagged or
/// empty. The rules write a fresh unflagged material only into the very
/// slot they are dispatched on, and that slot was unflagged and non-empty.
#[verifier::rlimit(60)]
pub proof fn lemma_step_keeps_destinations_passive(
    s: Seq<Cell>,
    w: int,
    h: int,
    seed: u64,
    hist: Seq<u64>,
    p: int,
    q: int,
)
    requires
        w >= 1,
        h >= 1,
        s.len() == w * h,
        w * h <= usize::MAX,
        0 <= p < s.len(),
        0 <= q < s.len(),
        s[q].moved || s[q].kind is Empty,
    ensures
        step_at(s, w, h, seed, hist, p).cells[q].moved || step_at(
            s,
            w,
            h,
            seed,
            hist,
            p,
        ).cells[q].kind is Empty,
{
    lemma_step_case_setup(s, w, h, p);
    let x = p % w;
    let y = p / w;
    let c = s[p];
    let r = step_at(s, w, h, seed, hist, p).cells;
    if !c.moved {
        match c.kind {
            MaterialKind::Empty => {},
            MaterialKind::Steel => {},
            MaterialKind::Sand => {
                assert(r[q].moved || r[q].kind is Empty);
            },
            MaterialKind::Water => {
                assert(r[q].moved || r[q].kind is Empty);
            },
            MaterialKind::Stone => {
                assert(r[q].moved || r[q].kind is Empty);
            },
            MaterialKind::Lava => {
                assert(r[q].moved || r[q].kind is Empty);
            },
            MaterialKind::Ice => {
                assert(r[q].moved || r[q].kind is Empty);
            },
            MaterialKind::Bomb => {
                assert(r[q].moved || r[q].kind is Empty);
            },
            MaterialKind::Airplane => {
                assert(r[q].moved || r[q].kind is Empty);
            },
        }
    }
}

/// The remainder of a scan keeps a passive slot passive; with
/// `lemma_moved_slot_is_skipped` this is the single-move guarantee: a slot
/// that became the destination of a move is flagged, stays flagged or
/// empty for the rest of the tick's scan, and in either state its own
/// dispatch acts on nothing.
pub proof fn lemma_scan_keeps_destinations_passive(
    s: Seq<Cell>,
    w: int,
    h: int,
    seed: u64,
    hist: Seq<u64>,
    p: int,
    q: int,
)
    requires
        w >= 1,
        h >= 1,
        s.len() == w * h,
        w * h <= usize::MAX,
        p < s.len(),
        0 <= q < s.len(),
        s[q].moved || s[q].kind is Empty,
    ensures
        scan_down(s, w, h, seed, hist, p).cells[q].moved || scan_down(
            s,
            w,
            h,
            seed,
            hist,
            p,
        ).cells[q].kind is Empty,
    decreases p + 1,
{
    if p >= 0 {
        lemma_step_keeps_destinations_passive(s, w, h, seed, hist, p, q);
        let st = step_at(s, w, h, seed, hist, p);
        lemma_step_preserves_len(s, w, h, seed, hist, p);
        lemma_scan_keeps_destinations_passive(st.cells, w, h, seed, st.hist, p - 1, q);
    }
}

/// The facts the per-branch reasoning about one scan visit rests on: the
/// decomposition of `p` into coordinates, and that every slot a rule may
/// write to — straight below, a chosen candidate, a scanned lava
/// neighbor, the slot to the right — lies on the grid.
proof fn lemma_step_case_setup(s: Seq<Cell>, w: int, h: int, p: int)
    requires
        w >= 1,
        h >= 1,
        s.len() == w * h,
        w * h <= usize::MAX,
        0 <= p < s.len(),
    ensures
        0 <= p % w < w,
        0 <= p / w < h,
        p == (p % w) + (p / w) * w,
        (p / w) + 1 < h ==> 0 <= crate::circle::flat(w, p % w, p / w + 1) < w * h,
        (p % w) + 1 < w ==> 0 <= crate::circle::flat(w, p % w + 1, p / w) < w * h,
        forall|i: int|
            0 <= i < grain_diag_candidates(s, w, h, p % w, p / w).len() ==> 0 <= (
            #[trigger] grain_diag_candidates(s, w, h, p % w, p / w)[i]) < w * h,
        forall|i: int|
            0 <= i < empty_diag_candidates(s, w, h, p % w, p / w).len() ==> 0 <= (
            #[trigger] empty_diag_candidates(s, w, h, p % w, p / w)[i]) < w * h,
        forall|i: int|
            0 <= i < empty_side_candidates(s, w, h, p % w, p / w).len() ==> 0 <= (
            #[trigger] empty_side_candidates(s, w, h, p % w, p / w)[i]) < w * h,
        (first_lava_neighbor(s, w, h, p % w, p / w) matches Some(v) ==> 0 <= v < w * h),
{
    crate::grid::lemma_flat_index_decompose(w, h, p);
    let x = p % w;
    let y = p / w;
    if y + 1 < h {
        crate::grid::lemma_flat_index_bounds(w, h, x, y + 1);
    }
    if x + 1 < w {
        crate::grid::lemma_flat_index_bounds(w, h, x + 1, y);
    }
    crate::rules::lemma_grain_diag_candidates_in_range(s, w, h, x, y);
    crate::rules::lemma_empty_diag_candidates_in_range(s, w, h, x, y);
    crate::rules::lemma_empty_side_candidates_in_range(s, w, h, x, y);
    crate::rules::lemma_first_lava_in_range(s, w, h, x, y);
}

/// One scan visit never changes the number of slots.
pub proof fn lemma_step_preserves_len(
    s: Seq<Cell>,
    w: int,
    h: int,
    seed: u64,
    hist: Seq<u64>,
    p: int,
)
    requires
        w >= 1,
        h >= 1,
        s.len() == w * h,
        w * h <= usize::MAX,
        0 <= p < s.len(),
    ensures
        step_at(s, w, h, seed, hist, p).cells.len() == s.len(),
{
    lemma_step_case_setup(s, w, h, p);
}

/// Every cell of `s` is Steel or Empty.
pub open spec fn inert_only(s: Seq<Cell>) -> bool {
    forall|i: int|
        0 <= i < s.len() ==> ((#[trigger] s[i]).kind is Empty || s[i].kind is Steel)
}

proof fn lemma_inert_scan(s: Seq<Cell>, w: int, h: int, seed: u64, hist: Seq<u64>, p: int)
    requires
        inert_only(s),
        all_unmoved(s),
        p < s.len(),
    ensures
        scan_down(s, w, h, seed, hist, p) == (ScanState { cells: s, hist }),
    decreases p + 1,
{
    if p >= 0 {
        assert(step_at(s, w, h, seed, hist, p) == (ScanState { cells: s, hist }));
        lemma_inert_scan(s, w, h, seed, hist, p - 1);
    }
}

/// A grid holding only Steel and Empty cells, all unmoved, is bit for bit
/// unchanged by a tick, and the tick draws nothing; since the result
/// equals the input, the same holds for any number of ticks.
pub proof fn lemma_tick_inert(s: Seq<Cell>, w: int, h: int, seed: u64, hist: Seq<u64>)
    requires
        inert_only(s),
        all_unmoved(s),
        s.len() == w * h,
    ensures
        spec_tick(s, w, h, seed, hist) == (ScanState { cells: s, hist }),
{
    lemma_inert_scan(s, w, h, seed, hist, w * h - 1);
    assert(clear_flags(s) =~= s);
}

} // verus!
