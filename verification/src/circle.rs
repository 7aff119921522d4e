use vstd::prelude::*;

verus! {

/// The square of `a`.
pub open spec fn sq(a: int) -> int {
    a * a
}

/// The flat row-major index of (x, y) in a grid `w` cells wide.
pub open spec fn flat(w: int, x: int, y: int) -> int {
    x + y * w
}

/// (x, y) lies within Euclidean distance `rad` of (cx, cy), inclusive.
pub open spec fn in_disk(cx: int, cy: int, x: int, y: int, rad: int) -> bool {
    sq(x - cx) + sq(y - cy) <= sq(rad)
}

/// The in-bounds flat indices of column offset `dx`, scanning `dy` from
/// `dy0` up to `rad`, that fall inside the disk of radius `rad` around
/// (cx, cy).
pub open spec fn disk_col(cx: int, cy: int, rad: int, w: int, h: int, dx: int, dy: int) -> Seq<
    usize,
>
    decreases rad + 1 - dy,
{
    if dy > rad {
        Seq::empty()
    } else {
        let rest = disk_col(cx, cy, rad, w, h, dx, dy + 1);
        if sq(dx) + sq(dy) <= sq(rad) && 0 <= cx + dx < w && 0 <= cy + dy < h {
            seq![flat(w, cx + dx, cy + dy) as usize] + rest
        } else {
            rest
        }
    }
}

/// The in-bounds flat indices of the disk of radius `rad` around (cx, cy),
/// scanning `dx` from `dx0` up to `rad`, each column top to bottom.
pub open spec fn disk_rows(cx: int, cy: int, rad: int, w: int, h: int, dx: int) -> Seq<usize>
    decreases rad + 1 - dx,
{
    if dx > rad {
        Seq::empty()
    } else {
        disk_col(cx, cy, rad, w, h, dx, -rad) + disk_rows(cx, cy, rad, w, h, dx + 1)
    }
}

/// All in-bounds flat indices within Euclidean distance `rad` of (cx, cy),
/// in scan order.
pub open spec fn disk_index_seq(cx: int, cy: int, rad: int, w: int, h: int) -> Seq<usize> {
    disk_rows(cx, cy, rad, w, h, -rad)
}

/// A square is monotone on magnitudes.
proof fn lemma_square_bound(a: int, b: int)
    requires
        -b <= a <= b,
    ensures
        0 <= a * a <= b * b,
{
    assert(0 <= a * a <= b * b) by (nonlinear_arith)
        requires
            -b <= a <= b,
    ;
}

/// Magnitudes are recovered from squares.
proof fn lemma_square_inv(a: int, b: int)
    requires
        b >= 0,
        a * a <= b * b,
    ensures
        -b <= a <= b,
{
    assert(-b <= a <= b) by (nonlinear_arith)
        requires
            b >= 0,
            a * a <= b * b,
    ;
}

/// Row-major decomposition of a flat index is unique.
pub proof fn lemma_flat_unique(w: int, x: int, y: int)
    requires
        w >= 1,
        0 <= x < w,
        0 <= y,
    ensures
        flat(w, x, y) % w == x,
        flat(w, x, y) / w == y,
{
    vstd::arithmetic::div_mod::lemma_fundamental_div_mod_converse(x + y * w, w, y, x);
}

proof fn lemma_disk_col_sound(
    cx: int,
    cy: int,
    rad: int,
    w: int,
    h: int,
    dx: int,
    dy0: int,
    q: usize,
)
    requires
        w >= 1,
        h >= 1,
        w * h <= usize::MAX,
        disk_col(cx, cy, rad, w, h, dx, dy0).contains(q),
    ensures
        q < w * h,
        in_disk(cx, cy, q as int % w, q as int / w, rad),
    decreases rad + 1 - dy0,
{
    let s = disk_col(cx, cy, rad, w, h, dx, dy0);
    if dy0 > rad {
        assert(false);
    } else {
        let rest = disk_col(cx, cy, rad, w, h, dx, dy0 + 1);
        let i = choose|i: int| 0 <= i < s.len() && s[i] == q;
        if sq(dx) + sq(dy0) <= sq(rad) && 0 <= cx + dx < w && 0 <= cy + dy0 < h {
            if i == 0 {
                crate::grid::lemma_flat_index_bounds(w, h, cx + dx, cy + dy0);
                lemma_flat_unique(w, cx + dx, cy + dy0);
                assert(q == flat(w, cx + dx, cy + dy0));
            } else {
                assert(rest.contains(q)) by {
                    assert(rest[i - 1] == q);
                }
                lemma_disk_col_sound(cx, cy, rad, w, h, dx, dy0 + 1, q);
            }
        } else {
            lemma_disk_col_sound(cx, cy, rad, w, h, dx, dy0 + 1, q);
        }
    }
}

proof fn lemma_disk_rows_sound(
    cx: int,
    cy: int,
    rad: int,
    w: int,
    h: int,
    dx0: int,
    q: usize,
)
    requires
        w >= 1,
        h >= 1,
        w * h <= usize::MAX,
        disk_rows(cx, cy, rad, w, h, dx0).contains(q),
    ensures
        q < w * h,
        in_disk(cx, cy, q as int % w, q as int / w, rad),
    decreases rad + 1 - dx0,
{
    let s = disk_rows(cx, cy, rad, w, h, dx0);
    if dx0 > rad {
        assert(false);
    } else {
        let col = disk_col(cx, cy, rad, w, h, dx0, -rad);
        let rest = disk_rows(cx, cy, rad, w, h, dx0 + 1);
        let i = choose|i: int| 0 <= i < s.len() && s[i] == q;
        if i < col.len() {
            assert(col.contains(q)) by {
                assert(col[i] == q);
            }
            lemma_disk_col_sound(cx, cy, rad, w, h, dx0, -rad, q);
        } else {
            assert(rest.contains(q)) by {
                assert(rest[i - col.len()] == q);
            }
            lemma_disk_rows_sound(cx, cy, rad, w, h, dx0 + 1, q);
        }
    }
}

proof fn lemma_disk_col_complete(
    cx: int,
    cy: int,
    rad: int,
    w: int,
    h: int,
    dx: int,
    dy0: int,
    dy: int,
)
    requires
        w >= 1,
        h >= 1,
        w * h <= usize::MAX,
        dy0 <= dy <= rad,
        sq(dx) + sq(dy) <= sq(rad),
        0 <= cx + dx < w,
        0 <= cy + dy < h,
    ensures
        disk_col(cx, cy, rad, w, h, dx, dy0).contains(flat(w, cx + dx, cy + dy) as usize),
    decreases rad + 1 - dy0,
{
    let s = disk_col(cx, cy, rad, w, h, dx, dy0);
    let rest = disk_col(cx, cy, rad, w, h, dx, dy0 + 1);
    let e = flat(w, cx + dx, cy + dy) as usize;
    if dy == dy0 {
        assert(s[0] == e);
        assert(s.contains(e));
    } else {
        lemma_disk_col_complete(cx, cy, rad, w, h, dx, dy0 + 1, dy);
        let i = choose|i: int| 0 <= i < rest.len() && rest[i] == e;
        if sq(dx) + sq(dy0) <= sq(rad) && 0 <= cx + dx < w && 0 <= cy + dy0 < h {
            assert(s[i + 1] == e);
            assert(s.contains(e));
        } else {
            assert(s.contains(e));
        }
    }
}

proof fn lemma_disk_rows_complete(
    cx: int,
    cy: int,
    rad: int,
    w: int,
    h: int,
    dx0: int,
    dx: int,
    dy: int,
)
    requires
        w >= 1,
        h >= 1,
        w * h <= usize::MAX,
        rad >= 0,
        dx0 <= dx <= rad,
        -rad <= dy <= rad,
        sq(dx) + sq(dy) <= sq(rad),
        0 <= cx + dx < w,
        0 <= cy + dy < h,
    ensures
        disk_rows(cx, cy, rad, w, h, dx0).contains(flat(w, cx + dx, cy + dy) as usize),
    decreases rad + 1 - dx0,
{
    let s = disk_rows(cx, cy, rad, w, h, dx0);
    let col = disk_col(cx, cy, rad, w, h, dx0, -rad);
    let rest = disk_rows(cx, cy, rad, w, h, dx0 + 1);
    let e = flat(w, cx + dx, cy + dy) as usize;
    if dx == dx0 {
        lemma_disk_col_complete(cx, cy, rad, w, h, dx, -rad, dy);
        let i = choose|i: int| 0 <= i < col.len() && col[i] == e;
        assert(s[i] == e);
        assert(s.contains(e));
    } else {
        lemma_disk_rows_complete(cx, cy, rad, w, h, dx0 + 1, dx, dy);
        let i = choose|i: int| 0 <= i < rest.len() && rest[i] == e;
        assert(s[col.len() + i] == e);
        assert(s.contains(e));
    }
}

/// The disk index sequence holds exactly the flat indices of the in-bounds
/// cells within Euclidean distance `rad` (inclusive) of (cx, cy).
pub proof fn lemma_disk_index_seq_membership(cx: int, cy: int, rad: int, w: int, h: int)
    requires
        w >= 1,
        h >= 1,
        w * h <= usize::MAX,
        rad >= 0,
    ensures
        forall|q: usize| #[trigger]
            disk_index_seq(cx, cy, rad, w, h).contains(q) ==> q < w * h && in_disk(
                cx,
                cy,
                q as int % w,
                q as int / w,
                rad,
            ),
        forall|x: int, y: int|
            0 <= x < w && 0 <= y < h && #[trigger] in_disk(cx, cy, x, y, rad)
                ==> disk_index_seq(cx, cy, rad, w, h).contains(flat(w, x, y) as usize),
{
    assert forall|q: usize| #[trigger]
        disk_index_seq(cx, cy, rad, w, h).contains(q) implies q < w * h && in_disk(
        cx,
        cy,
        q as int % w,
        q as int / w,
        rad,
    ) by {
        lemma_disk_rows_sound(cx, cy, rad, w, h, -rad, q);
    }
    assert forall|x: int, y: int|
        0 <= x < w && 0 <= y < h && #[trigger] in_disk(cx, cy, x, y, rad) implies disk_index_seq(
        cx,
        cy,
        rad,
        w,
        h,
    ).contains(flat(w, x, y) as usize) by {
        assert((x - cx) * (x - cx) >= 0) by (nonlinear_arith);
        assert((y - cy) * (y - cy) >= 0) by (nonlinear_arith);
        lemma_square_inv(x - cx, rad);
        lemma_square_inv(y - cy, rad);
        lemma_disk_rows_complete(cx, cy, rad, w, h, -rad, x - cx, y - cy);
    }
}

/// The indices of every grid cell whose squared Euclidean distance to the
/// cell at flat index `pos_idx` is at most `radius` squared, restricted to
/// the grid `win_cell_w` cells wide and `win_cell_h` cells high, in scan
/// order over the bounding square.
pub fn indices_in_circle(pos_idx: usize, radius: i32, win_cell_w: usize, win_cell_h: usize) -> (out:
    Vec<usize>)
    requires
        win_cell_w >= 1,
        win_cell_h >= 1,
        win_cell_w * win_cell_h <= usize::MAX,
        pos_idx < win_cell_w * win_cell_h,
    ensures
        out@ == disk_index_seq(
            (pos_idx % win_cell_w) as int,
            (pos_idx / win_cell_w) as int,
            radius as int,
            win_cell_w as int,
            win_cell_h as int,
        ),
{
    let w = win_cell_w;
    let h = win_cell_h;
    let ghost cxg: int = (pos_idx % w) as int;
    let ghost cyg: int = (pos_idx / w) as int;
    let ghost radg: int = radius as int;
    let ghost target: Seq<usize> = disk_index_seq(cxg, cyg, radg, w as int, h as int);
    let mut out: Vec<usize> = Vec::new();
    if radius < 0 {
        proof {
            assert(disk_rows(cxg, cyg, radg, w as int, h as int, -radg) == Seq::<usize>::empty());
            assert(out@ =~= target);
        }
        return out;
    }
    let cx = pos_idx % w;
    let cy = pos_idx / w;
    proof {
        crate::grid::lemma_flat_index_decompose(w as int, h as int, pos_idx as int);
    }
    let rad: i64 = radius as i64;
    proof {
        lemma_square_bound(rad as int, 0x7fff_ffff);
    }
    let r2: i64 = rad * rad;
    let mut dx: i64 = -rad;
    while dx <= rad
        invariant
            w == win_cell_w,
            h == win_cell_h,
            w >= 1,
            h >= 1,
            w * h <= usize::MAX,
            cx == cxg,
            cy == cyg,
            cx < w,
            cy < h,
            0 <= radg <= i32::MAX,
            rad == radg,
            r2 == sq(radg),
            -rad <= dx <= rad + 1,
            target == out@ + disk_rows(cxg, cyg, radg, w as int, h as int, dx as int),
        decreases rad + 1 - dx,
    {
        let mut dy: i64 = -rad;
        while dy <= rad
            invariant
                w == win_cell_w,
                h == win_cell_h,
                w >= 1,
                h >= 1,
                w * h <= usize::MAX,
                cx == cxg,
                cy == cyg,
                cx < w,
                cy < h,
                0 <= radg <= i32::MAX,
                rad == radg,
                r2 == sq(radg),
                -rad <= dx <= rad,
                -rad <= dy <= rad + 1,
                target == out@ + disk_col(cxg, cyg, radg, w as int, h as int, dx as int, dy as int)
                    + disk_rows(cxg, cyg, radg, w as int, h as int, dx as int + 1),
            decreases rad + 1 - dy,
        {
            proof {
                lemma_square_bound(dx as int, rad as int);
                lemma_square_bound(dy as int, rad as int);
                lemma_square_bound(rad as int, 0x7fff_ffff);
            }
            let d2: i64 = dx * dx + dy * dy;
            if d2 <= r2 {
                // Bounds-check both the lower and the upper edge on both axes.
                let x_ok: bool = if dx >= 0 {
                    let d = dx as usize;
                    d < w - cx
                } else {
                    let d = (-dx) as usize;
                    d <= cx
                };
                let y_ok: bool = if dy >= 0 {
                    let d = dy as usize;
                    d < h - cy
                } else {
                    let d = (-dy) as usize;
                    d <= cy
                };
                if x_ok && y_ok {
                    let nx: usize = if dx >= 0 {
                        cx + (dx as usize)
                    } else {
                        cx - ((-dx) as usize)
                    };
                    let ny: usize = if dy >= 0 {
                        cy + (dy as usize)
                    } else {
                        cy - ((-dy) as usize)
                    };
                    proof {
                        crate::grid::lemma_flat_index_bounds(w as int, h as int, nx as int, ny as int);
                    }
                    let ghost old_out = out@;
                    out.push(nx + ny * w);
                    proof {
                        assert(out@ + disk_col(
                            cxg,
                            cyg,
                            radg,
                            w as int,
                            h as int,
                            dx as int,
                            dy as int + 1,
                        ) =~= old_out + disk_col(
                            cxg,
                            cyg,
                            radg,
                            w as int,
                            h as int,
                            dx as int,
                            dy as int,
                        ));
                    }
                }
            }
            dy = dy + 1;
        }
        dx = dx + 1;
    }
    proof {
        assert(out@ =~= target);
    }
    out
}

} // verus!
