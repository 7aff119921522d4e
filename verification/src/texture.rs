use vstd::prelude::*;
use crate::circle::sq;
use crate::rng::{draw_of, SeededRng};

verus! {

/// The bounds history of `k` draws that all used the bound `b`.
pub open spec fn const_hist(b: u64, k: nat) -> Seq<u64> {
    Seq::new(k, |i: int| b)
}

/// Rock shading: each cell's brightness is an independent draw from the
/// band covering twenty to fifty percent of full intensity, taken from the
/// seeded source in column-major order.
pub open spec fn rock_brightness(seed: u64, h: int, x: int, y: int) -> u8 {
    (51 + draw_of(seed, const_hist(77, (x * h + y) as nat), 77)) as u8
}

/// The bounds history of the first `k` site-coordinate draws: x draws use
/// the texture width, y draws the height, alternating.
pub open spec fn site_hist(w: u64, h: u64, k: nat) -> Seq<u64> {
    Seq::new(
        k,
        |i: int|
            if i % 2 == 0 {
                w
            } else {
                h
            },
    )
}

/// The x coordinate of Voronoi site `i`.
pub open spec fn site_x(seed: u64, w: u64, h: u64, i: nat) -> u64 {
    draw_of(seed, site_hist(w, h, 2 * i), w)
}

/// The y coordinate of Voronoi site `i`.
pub open spec fn site_y(seed: u64, w: u64, h: u64, i: nat) -> u64 {
    draw_of(seed, site_hist(w, h, 2 * i + 1), h)
}

/// The squared Euclidean distances from cell (x, y) to each of the `n`
/// Voronoi sites.
pub open spec fn cell_sq_dists(seed: u64, w: u64, h: u64, n: nat, x: int, y: int) -> Seq<int> {
    Seq::new(
        n,
        |i: int| sq(site_x(seed, w, h, i as nat) as int - x) + sq(
            site_y(seed, w, h, i as nat) as int - y,
        ),
    )
}

/// Fold the elements of `s` from index `i` on into the two smallest seen
/// so far, kept ordered as `m1 <= m2`.
pub open spec fn two_min_from(s: Seq<int>, i: int, m1: int, m2: int) -> (int, int)
    decreases s.len() - i,
{
    if i >= s.len() {
        (m1, m2)
    } else {
        let v = s[i];
        if v < m1 {
            two_min_from(s, i + 1, v, m1)
        } else if v < m2 {
            two_min_from(s, i + 1, m1, v)
        } else {
            two_min_from(s, i + 1, m1, m2)
        }
    }
}

/// The smallest and second-smallest values of `s`, which must have at
/// least two elements.
pub open spec fn two_min(s: Seq<int>) -> (int, int)
    recommends
        s.len() >= 2,
{
    if s[0] <= s[1] {
        two_min_from(s, 2, s[0], s[1])
    } else {
        two_min_from(s, 2, s[1], s[0])
    }
}

/// Cell (x, y) lies on a crack: its edge strength, the clamped scaled gap
/// between the nearest and second-nearest site distances, is below the
/// crack threshold.
pub open spec fn is_crack(seed: u64, w: u64, h: u64, n: nat, x: int, y: int) -> bool {
    let dd = two_min(cell_sq_dists(seed, w, h, n, x, y));
    let strength = if (dd.1 - dd.0) * 4 <= 255 {
        (dd.1 - dd.0) * 4
    } else {
        255
    };
    strength < 20
}

/// The bounds history once all `2 * n` site draws and the first `k`
/// per-cell jitter draws are done.
pub open spec fn jitter_hist(w: u64, h: u64, n: nat, k: nat) -> Seq<u64> {
    site_hist(w, h, 2 * n) + const_hist(30, k)
}

/// Ice shattering: a crack cell shows full brightness; any other cell
/// shows the base ice brightness plus its own small jitter draw, taken in
/// column-major order after the site draws.
pub open spec fn ice_brightness(seed: u64, w: u64, h: u64, n: nat, x: int, y: int) -> u8 {
    if is_crack(seed, w, h, n, x, y) {
        255
    } else {
        (180 + draw_of(seed, jitter_hist(w, h, n, (x * h + y) as nat), 30)) as u8
    }
}

/// Texture determinism: any two ice textures whose cells follow
/// `ice_brightness` for the same seed, dimensions and site count — as
/// `generate_ice_texture` ensures of its result — are identical.
pub proof fn lemma_ice_texture_deterministic(
    a: Seq<Seq<u8>>,
    b: Seq<Seq<u8>>,
    seed: u64,
    w: u64,
    h: u64,
    n: nat,
)
    requires
        a.len() == w,
        b.len() == w,
        forall|x: int| 0 <= x < w ==> (#[trigger] a[x]).len() == h,
        forall|x: int| 0 <= x < w ==> (#[trigger] b[x]).len() == h,
        forall|x: int, y: int|
            0 <= x < w && 0 <= y < h ==> (#[trigger] a[x][y]) == ice_brightness(
                seed,
                w,
                h,
                n,
                x,
                y,
            ),
        forall|x: int, y: int|
            0 <= x < w && 0 <= y < h ==> (#[trigger] b[x][y]) == ice_brightness(
                seed,
                w,
                h,
                n,
                x,
                y,
            ),
    ensures
        a =~~= b,
{
    assert forall|x: int| 0 <= x < a.len() implies a[x] =~= b[x] by {
        assert(forall|y: int| 0 <= y < h ==> a[x][y] == b[x][y]);
    }
}

/// The squared distance from cell (x, y) to the site at (sx, sy).
fn sq_dist_to_site(sx: u64, sy: u64, x: usize, y: usize) -> (d: u128)
    requires
        sx <= 0xffff_ffff,
        sy <= 0xffff_ffff,
        x <= 0xffff_ffff,
        y <= 0xffff_ffff,
    ensures
        d as int == sq(sx as int - x as int) + sq(sy as int - y as int),
        d <= 0x2_0000_0000_0000_0000,
{
    let dx: u64 = if sx >= x as u64 {
        sx - x as u64
    } else {
        x as u64 - sx
    };
    let dy: u64 = if sy >= y as u64 {
        sy - y as u64
    } else {
        y as u64 - sy
    };
    proof {
        assert(dx as int * dx as int == (sx as int - x as int) * (sx as int - x as int)
            && dx as int * dx as int <= 0x1_0000_0000_0000_0000) by (nonlinear_arith)
            requires
                (dx as int == sx as int - x as int || dx as int == x as int - sx as int),
                dx <= 0xffff_ffff,
        ;
        assert(dy as int * dy as int == (sy as int - y as int) * (sy as int - y as int)
            && dy as int * dy as int <= 0x1_0000_0000_0000_0000) by (nonlinear_arith)
            requires
                (dy as int == sy as int - y as int || dy as int == y as int - sy as int),
                dy <= 0xffff_ffff,
        ;
    }
    (dx as u128) * (dx as u128) + (dy as u128) * (dy as u128)
}

/// The rock shading texture, `width` columns of `height` brightness
/// values, deterministic in the seed.
pub fn generate_rock_texture(width: usize, height: usize, seed: u64) -> (t: Vec<Vec<u8>>)
    ensures
        t@.len() == width,
        forall|x: int| 0 <= x < width ==> (#[trigger] t@[x])@.len() == height,
        forall|x: int, y: int|
            0 <= x < width && 0 <= y < height ==> (#[trigger] t@[x]@[y]) == rock_brightness(
                seed,
                height as int,
                x,
                y,
            ),
{
    let mut rng = SeededRng::from_seed(seed);
    let mut t: Vec<Vec<u8>> = Vec::new();
    let mut x: usize = 0;
    proof {
        assert(rng.drawn() =~= const_hist(77, (0 * height + 0) as nat));
    }
    while x < width
        invariant
            x <= width,
            rng.seed_val() == seed,
            rng.drawn() == const_hist(77, (x * height) as nat),
            t@.len() == x,
            forall|c: int| 0 <= c < x ==> (#[trigger] t@[c])@.len() == height,
            forall|c: int, y: int|
                0 <= c < x && 0 <= y < height ==> (#[trigger] t@[c]@[y]) == rock_brightness(
                    seed,
                    height as int,
                    c,
                    y,
                ),
        decreases width - x,
    {
        let mut col: Vec<u8> = Vec::new();
        let mut y: usize = 0;
        while y < height
            invariant
                y <= height,
                rng.seed_val() == seed,
                rng.drawn() == const_hist(77, (x as int * height + y) as nat),
                col@.len() == y,
                forall|r: int|
                    0 <= r < y ==> (#[trigger] col@[r]) == rock_brightness(
                        seed,
                        height as int,
                        x as int,
                        r,
                    ),
            decreases height - y,
        {
            let d = rng.draw_below(77);
            col.push(51 + d as u8);
            proof {
                assert(rng.drawn() =~= const_hist(77, (x as int * height + y + 1) as nat));
            }
            y = y + 1;
        }
        t.push(col);
        proof {
            assert((x as int + 1) * height == x as int * height + height) by (nonlinear_arith);
        }
        x = x + 1;
    }
    t
}

/// The ice crack texture, `width` columns of `height` brightness values:
/// `cell_count` Voronoi sites are drawn from the seeded source, then each
/// cell's brightness follows from its nearest and second-nearest sites.
/// Deterministic in the seed and site count.
pub fn generate_ice_texture(width: usize, height: usize, seed: u64, cell_count: usize) -> (t: Vec<
    Vec<u8>,
>)
    requires
        width >= 1,
        height >= 1,
        width <= 0xffff_ffff,
        height <= 0xffff_ffff,
        cell_count >= 2,
    ensures
        t@.len() == width,
        forall|x: int| 0 <= x < width ==> (#[trigger] t@[x])@.len() == height,
        forall|x: int, y: int|
            0 <= x < width && 0 <= y < height ==> (#[trigger] t@[x]@[y]) == ice_brightness(
                seed,
                width as u64,
                height as u64,
                cell_count as nat,
                x,
                y,
            ),
{
    let w64 = width as u64;
    let h64 = height as u64;
    let ghost ng: nat = cell_count as nat;
    let mut rng = SeededRng::from_seed(seed);
    let mut xs: Vec<u64> = Vec::new();
    let mut ys: Vec<u64> = Vec::new();
    let mut i: usize = 0;
    proof {
        assert(rng.drawn() =~= site_hist(w64, h64, (2 * i) as nat));
    }
    while i < cell_count
        invariant
            i <= cell_count,
            w64 == width as u64,
            h64 == height as u64,
            width >= 1,
            height >= 1,
            width <= 0xffff_ffff,
            height <= 0xffff_ffff,
            rng.seed_val() == seed,
            rng.drawn() == site_hist(w64, h64, (2 * i) as nat),
            xs@.len() == i,
            ys@.len() == i,
            forall|j: int|
                0 <= j < i ==> (#[trigger] xs@[j]) == site_x(seed, w64, h64, j as nat) && xs@[j]
                    < w64,
            forall|j: int|
                0 <= j < i ==> (#[trigger] ys@[j]) == site_y(seed, w64, h64, j as nat) && ys@[j]
                    < h64,
        decreases cell_count - i,
    {
        let sx = rng.draw_below(w64);
        proof {
            assert(rng.drawn() =~= site_hist(w64, h64, (2 * i + 1) as nat));
        }
        let sy = rng.draw_below(h64);
        proof {
            assert(rng.drawn() =~= site_hist(w64, h64, (2 * (i + 1)) as nat));
        }
        xs.push(sx);
        ys.push(sy);
        i = i + 1;
    }
    let mut t: Vec<Vec<u8>> = Vec::new();
    let mut x: usize = 0;
    proof {
        assert(rng.drawn() =~= jitter_hist(w64, h64, ng, (0 * height + 0) as nat));
    }
    while x < width
        invariant
            x <= width,
            w64 == width as u64,
            h64 == height as u64,
            width >= 1,
            height >= 1,
            width <= 0xffff_ffff,
            height <= 0xffff_ffff,
            cell_count >= 2,
            ng == cell_count as nat,
            rng.seed_val() == seed,
            rng.drawn() == jitter_hist(w64, h64, ng, (x * height) as nat),
            xs@.len() == cell_count,
            ys@.len() == cell_count,
            forall|j: int|
                0 <= j < cell_count ==> (#[trigger] xs@[j]) == site_x(seed, w64, h64, j as nat)
                    && xs@[j] < w64,
            forall|j: int|
                0 <= j < cell_count ==> (#[trigger] ys@[j]) == site_y(seed, w64, h64, j as nat)
                    && ys@[j] < h64,
            t@.len() == x,
            forall|c: int| 0 <= c < x ==> (#[trigger] t@[c])@.len() == height,
            forall|c: int, y: int|
                0 <= c < x && 0 <= y < height ==> (#[trigger] t@[c]@[y]) == ice_brightness(
                    seed,
                    w64,
                    h64,
                    ng,
                    c,
                    y,
                ),
        decreases width - x,
    {
        let mut col: Vec<u8> = Vec::new();
        let mut y: usize = 0;
        while y < height
            invariant
                y <= height,
                x < width,
                w64 == width as u64,
                h64 == height as u64,
                width >= 1,
                height >= 1,
                width <= 0xffff_ffff,
                height <= 0xffff_ffff,
                cell_count >= 2,
                ng == cell_count as nat,
                rng.seed_val() == seed,
                rng.drawn() == jitter_hist(w64, h64, ng, (x as int * height + y) as nat),
                xs@.len() == cell_count,
                ys@.len() == cell_count,
                forall|j: int|
                    0 <= j < cell_count ==> (#[trigger] xs@[j]) == site_x(seed, w64, h64, j as nat)
                        && xs@[j] < w64,
                forall|j: int|
                    0 <= j < cell_count ==> (#[trigger] ys@[j]) == site_y(seed, w64, h64, j as nat)
                        && ys@[j] < h64,
                col@.len() == y,
                forall|r: int|
                    0 <= r < y ==> (#[trigger] col@[r]) == ice_brightness(
                        seed,
                        w64,
                        h64,
                        ng,
                        x as int,
                        r,
                    ),
            decreases height - y,
        {
            let ghost dists = cell_sq_dists(seed, w64, h64, ng, x as int, y as int);
            let dist0 = sq_dist_to_site(xs[0], ys[0], x, y);
            let dist1 = sq_dist_to_site(xs[1], ys[1], x, y);
            let mut d1: u128;
            let mut d2: u128;
            if dist0 <= dist1 {
                d1 = dist0;
                d2 = dist1;
            } else {
                d1 = dist1;
                d2 = dist0;
            }
            let mut si: usize = 2;
            while si < cell_count
                invariant
                    2 <= si <= cell_count,
                    x < width,
                    y < height,
                    w64 == width as u64,
                    h64 == height as u64,
                    width <= 0xffff_ffff,
                    height <= 0xffff_ffff,
                    ng == cell_count as nat,
                    dists == cell_sq_dists(seed, w64, h64, ng, x as int, y as int),
                    dists.len() == cell_count,
                    xs@.len() == cell_count,
                    ys@.len() == cell_count,
                    forall|j: int|
                        0 <= j < cell_count ==> (#[trigger] xs@[j]) == site_x(
                            seed,
                            w64,
                            h64,
                            j as nat,
                        ) && xs@[j] < w64,
                    forall|j: int|
                        0 <= j < cell_count ==> (#[trigger] ys@[j]) == site_y(
                            seed,
                            w64,
                            h64,
                            j as nat,
                        ) && ys@[j] < h64,
                    d1 <= d2,
                    d1 <= 0x2_0000_0000_0000_0000,
                    d2 <= 0x2_0000_0000_0000_0000,
                    two_min(dists) == two_min_from(dists, si as int, d1 as int, d2 as int),
                decreases cell_count - si,
            {
                let v = sq_dist_to_site(xs[si], ys[si], x, y);
                if v < d1 {
                    d2 = d1;
                    d1 = v;
                } else if v < d2 {
                    d2 = v;
                }
                si = si + 1;
            }
            let gap: u128 = d2 - d1;
            let strength: u128 = if gap * 4 <= 255 {
                gap * 4
            } else {
                255
            };
            let jit = rng.draw_below(30);
            proof {
                assert(rng.drawn() =~= jitter_hist(
                    w64,
                    h64,
                    ng,
                    (x as int * height + y + 1) as nat,
                ));
            }
            let b: u8 = if strength < 20 {
                255
            } else {
                180 + jit as u8
            };
            col.push(b);
            y = y + 1;
        }
        t.push(col);
        proof {
            assert((x as int + 1) * height == x as int * height + height) by (nonlinear_arith);
        }
        x = x + 1;
    }
    t
}

} // verus!
