use vstd::prelude::*;
use crate::circle::flat;
use crate::grid::{all_unmoved, Grid, GridError};
use crate::material::{empty_cell, Cell, MaterialKind};
use crate::rng::SeededRng;
use crate::sim::spec_tick;
use crate::texture::{generate_ice_texture, generate_rock_texture, ice_brightness, rock_brightness};

verus! {

/// Rejected session configuration.
#[derive(Clone, Copy, PartialEq, Eq, Structural, Debug)]
pub enum ConfigError {
    /// The Voronoi site count is below two, so no second-nearest site
    /// exists.
    TooFewSites,
    /// A grid dimension is zero, or the grid is too large to address.
    BadDimensions,
}

/// The number of placeable materials the brush can cycle through (Empty is
/// excluded from the cycle).
pub const PLACEABLE_COUNT: usize = 8;

/// The placeable material at index `i` of the brush cycle.
pub open spec fn placeable_kind(i: int) -> MaterialKind {
    if i == 0 {
        MaterialKind::Sand
    } else if i == 1 {
        MaterialKind::Water
    } else if i == 2 {
        MaterialKind::Stone
    } else if i == 3 {
        MaterialKind::Lava
    } else if i == 4 {
        MaterialKind::Steel
    } else if i == 5 {
        MaterialKind::Ice
    } else if i == 6 {
        MaterialKind::Bomb
    } else {
        MaterialKind::Airplane
    }
}

/// Dimensions a session accepts: nonzero on both axes, each axis
/// addressable in 32 bits, and the whole grid addressable in a `usize`.
pub open spec fn valid_dims(w: int, h: int) -> bool {
    &&& 1 <= w <= 0xffff_ffff
    &&& 1 <= h <= 0xffff_ffff
    &&& w * h <= usize::MAX
}

/// Clamp `v` into `[0, hi)`.
pub open spec fn clamped(v: int, hi: int) -> int {
    if v < hi {
        v
    } else {
        hi - 1
    }
}

/// One simulation session: the grid, the two cosmetic textures generated
/// once at start, the brush selection, and the tie-break random source.
pub struct Session {
    pub grid: Grid,
    pub rock: Vec<Vec<u8>>,
    pub ice: Vec<Vec<u8>>,
    pub selected: usize,
    pub rng: SeededRng,
}

impl Session {
    /// Structural health: grid well-formed with cleared flags between
    /// ticks, textures sized like the grid, selection inside the cycle.
    pub open spec fn wf(&self) -> bool {
        &&& self.grid.wf()
        &&& all_unmoved(self.grid.cells@)
        &&& self.rock@.len() == self.grid.width
        &&& forall|x: int| 0 <= x < self.grid.width ==> (#[trigger] self.rock@[x])@.len() == self.grid.height
        &&& self.ice@.len() == self.grid.width
        &&& forall|x: int| 0 <= x < self.grid.width ==> (#[trigger] self.ice@[x])@.len() == self.grid.height
        &&& self.selected < PLACEABLE_COUNT
    }

    /// Start a session: an all-empty grid of the given dimensions, both
    /// textures generated from `texture_seed`, and the tie-break source
    /// seeded from `tie_seed`. Rejects a site count below two and
    /// unusable dimensions, in that order of checks.
    pub fn new(
        width: usize,
        height: usize,
        texture_seed: u64,
        tie_seed: u64,
        site_count: usize,
    ) -> (r: Result<Session, ConfigError>)
        ensures
            match r {
                Ok(s) => {
                    &&& site_count >= 2
                    &&& valid_dims(width as int, height as int)
                    &&& s.wf()
                    &&& s.grid.width == width
                    &&& s.grid.height == height
                    &&& forall|i: int|
                        0 <= i < s.grid.cells@.len() ==> s.grid.cells@[i] == empty_cell()
                    &&& s.selected == 0
                    &&& s.rng.seed_val() == tie_seed
                    &&& s.rng.drawn() == Seq::<u64>::empty()
                    &&& forall|x: int, y: int|
                        0 <= x < width && 0 <= y < height ==> (#[trigger] s.rock@[x]@[y])
                            == rock_brightness(texture_seed, height as int, x, y)
                    &&& forall|x: int, y: int|
                        0 <= x < width && 0 <= y < height ==> (#[trigger] s.ice@[x]@[y])
                            == ice_brightness(
                            texture_seed,
                            width as u64,
                            height as u64,
                            site_count as nat,
                            x,
                            y,
                        )
                },
                Err(e) => {
                    ||| (e == ConfigError::TooFewSites && site_count < 2)
                    ||| (e == ConfigError::BadDimensions && site_count >= 2 && !valid_dims(
                        width as int,
                        height as int,
                    ))
                },
            },
    {
        if site_count < 2 {
            return Err(ConfigError::TooFewSites);
        }
        if width < 1 || height < 1 || width > 0xffff_ffff || height > 0xffff_ffff {
            return Err(ConfigError::BadDimensions);
        }
        if width > usize::MAX / height {
            proof {
                assert(width as int * height as int > usize::MAX) by (nonlinear_arith)
                    requires
                        height >= 1,
                        width > usize::MAX as int / height as int,
                ;
            }
            return Err(ConfigError::BadDimensions);
        }
        proof {
            assert(width as int * height as int <= usize::MAX) by (nonlinear_arith)
                requires
                    height >= 1,
                    width <= usize::MAX as int / height as int,
            ;
        }
        let grid = Grid::new(width, height);
        let rock = generate_rock_texture(width, height, texture_seed);
        let ice = generate_ice_texture(width, height, texture_seed, site_count);
        let rng = SeededRng::from_seed(tie_seed);
        Ok(Session { grid, rock, ice, selected: 0, rng })
    }

    /// Overwrite one cell with `kind`, clamping both coordinates onto the
    /// grid first; everything else is untouched.
    pub fn place(&mut self, kind: MaterialKind, x: usize, y: usize)
        requires
            old(self).wf(),
        ensures
            final(self).wf(),
            final(self).grid.width == old(self).grid.width,
            final(self).grid.height == old(self).grid.height,
            final(self).grid.cells@ == old(self).grid.cells@.update(
                flat(
                    old(self).grid.width as int,
                    clamped(x as int, old(self).grid.width as int),
                    clamped(y as int, old(self).grid.height as int),
                ),
                Cell { kind, moved: false },
            ),
            final(self).rock == old(self).rock,
            final(self).ice == old(self).ice,
            final(self).selected == old(self).selected,
            final(self).rng == old(self).rng,
    {
        let cx = if x < self.grid.width {
            x
        } else {
            self.grid.width - 1
        };
        let cy = if y < self.grid.height {
            y
        } else {
            self.grid.height - 1
        };
        match self.grid.set(cx, cy, kind) {
            Ok(()) => {},
            Err(_) => {
                proof {
                    assert(false);
                }
            },
        }
        proof {
            crate::grid::lemma_flat_index_bounds(
                self.grid.width as int,
                self.grid.height as int,
                cx as int,
                cy as int,
            );
            assert forall|i: int| 0 <= i < self.grid.cells@.len() implies !(
            #[trigger] self.grid.cells@[i]).moved by {
                if i != cx + cy * old(self).grid.width {
                    assert(self.grid.cells@[i] == old(self).grid.cells@[i]);
                }
            }
        }
    }

    /// Clear one cell; equivalent to placing Empty there.
    pub fn erase(&mut self, x: usize, y: usize)
        requires
            old(self).wf(),
        ensures
            final(self).wf(),
            final(self).grid.width == old(self).grid.width,
            final(self).grid.height == old(self).grid.height,
            final(self).grid.cells@ == old(self).grid.cells@.update(
                flat(
                    old(self).grid.width as int,
                    clamped(x as int, old(self).grid.width as int),
                    clamped(y as int, old(self).grid.height as int),
                ),
                empty_cell(),
            ),
            final(self).rock == old(self).rock,
            final(self).ice == old(self).ice,
            final(self).selected == old(self).selected,
            final(self).rng == old(self).rng,
    {
        self.place(MaterialKind::Empty, x, y);
    }

    /// Advance the brush selection by a signed delta, wrapping modulo the
    /// number of placeable kinds.
    pub fn cycle_selection(&mut self, delta: i32)
        requires
            old(self).wf(),
        ensures
            final(self).wf(),
            final(self).selected == (old(self).selected + delta) % (PLACEABLE_COUNT as int),
            final(self).grid == old(self).grid,
            final(self).rock == old(self).rock,
            final(self).ice == old(self).ice,
            final(self).rng == old(self).rng,
    {
        let step: usize = if delta >= 0 {
            (delta as usize) % PLACEABLE_COUNT
        } else {
            (PLACEABLE_COUNT - ((-(delta as i64)) as usize) % PLACEABLE_COUNT) % PLACEABLE_COUNT
        };
        let sel = (self.selected + step) % PLACEABLE_COUNT;
        proof {
            let m = PLACEABLE_COUNT as int;
            let a = old(self).selected as int;
            let d = delta as int;
            let s = step as int;
            vstd::arithmetic::div_mod::lemma_fundamental_div_mod(a + s, m);
            if delta >= 0 {
                vstd::arithmetic::div_mod::lemma_fundamental_div_mod(d, m);
                // a + d differs from a + s by a multiple of m
                vstd::arithmetic::div_mod::lemma_fundamental_div_mod_converse_mod(
                    a + d,
                    m,
                    d / m + (a + s) / m,
                    sel as int,
                );
            } else {
                let dabs = -d;
                vstd::arithmetic::div_mod::lemma_fundamental_div_mod(dabs, m);
                if dabs % m == 0 {
                    vstd::arithmetic::div_mod::lemma_fundamental_div_mod_converse_mod(
                        a + d,
                        m,
                        (a + s) / m - dabs / m,
                        sel as int,
                    );
                } else {
                    vstd::arithmetic::div_mod::lemma_fundamental_div_mod_converse_mod(
                        a + d,
                        m,
                        (a + s) / m - dabs / m - 1,
                        sel as int,
                    );
                }
            }
        }
        self.selected = sel;
    }

    /// The material the brush currently places.
    pub fn selected_kind(&self) -> (k: MaterialKind)
        requires
            self.wf(),
        ensures
            k == placeable_kind(self.selected as int),
    {
        if self.selected == 0 {
            MaterialKind::Sand
        } else if self.selected == 1 {
            MaterialKind::Water
        } else if self.selected == 2 {
            MaterialKind::Stone
        } else if self.selected == 3 {
            MaterialKind::Lava
        } else if self.selected == 4 {
            MaterialKind::Steel
        } else if self.selected == 5 {
            MaterialKind::Ice
        } else if self.selected == 6 {
            MaterialKind::Bomb
        } else {
            MaterialKind::Airplane
        }
    }

    /// Advance the simulation by exactly one tick, drawing tie-breaks from
    /// the session's own random source.
    pub fn tick(&mut self)
        requires
            old(self).wf(),
        ensures
            final(self).wf(),
            final(self).grid.width == old(self).grid.width,
            final(self).grid.height == old(self).grid.height,
            final(self).grid.cells@ == spec_tick(
                old(self).grid.cells@,
                old(self).grid.width as int,
                old(self).grid.height as int,
                old(self).rng.seed_val(),
                old(self).rng.drawn(),
            ).cells,
            final(self).rng.drawn() == spec_tick(
                old(self).grid.cells@,
                old(self).grid.width as int,
                old(self).grid.height as int,
                old(self).rng.seed_val(),
                old(self).rng.drawn(),
            ).hist,
            final(self).rng.seed_val() == old(self).rng.seed_val(),
            final(self).rock == old(self).rock,
            final(self).ice == old(self).ice,
            final(self).selected == old(self).selected,
    {
        self.grid.tick(&mut self.rng);
    }

    /// Read-only per-cell view for rendering: the material plus the two
    /// stored brightness values; `OutOfBounds` exactly when the
    /// coordinates leave the grid.
    pub fn cell_view(&self, x: usize, y: usize) -> (r: Result<(MaterialKind, u8, u8), GridError>)
        requires
            self.wf(),
        ensures
            match r {
                Ok(v) => {
                    &&& self.grid.spec_in_bounds(x as int, y as int)
                    &&& v.0 == self.grid.cell_at(x as int, y as int).kind
                    &&& v.1 == self.rock@[x as int]@[y as int]
                    &&& v.2 == self.ice@[x as int]@[y as int]
                },
                Err(e) => {
                    &&& !self.grid.spec_in_bounds(x as int, y as int)
                    &&& e == GridError::OutOfBounds
                },
            },
    {
        if x < self.grid.width && y < self.grid.height {
            let p = self.grid.flat_index(x, y);
            let k = self.grid.cell_idx(p).kind;
            let rb = self.rock[x][y];
            let ib = self.ice[x][y];
            Ok((k, rb, ib))
        } else {
            Err(GridError::OutOfBounds)
        }
    }
}

} // verus!
