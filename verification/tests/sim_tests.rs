use sandsim::grid::Grid;
use sandsim::material::MaterialKind;
use sandsim::rng::SeededRng;
use sandsim::session::Session;

fn session(w: usize, h: usize) -> Session {
    Session::new(w, h, 12345, 67890, 4).unwrap()
}

fn kind(s: &Session, x: usize, y: usize) -> MaterialKind {
    s.cell_view(x, y).unwrap().0
}

#[test]
fn steel_and_empty_grids_never_change() {
    let mut s = session(6, 6);
    s.place(MaterialKind::Steel, 1, 1);
    s.place(MaterialKind::Steel, 4, 2);
    s.place(MaterialKind::Steel, 3, 5);
    let before = s.grid.cells.clone();
    for _ in 0..10 {
        s.tick();
    }
    assert_eq!(s.grid.cells, before);
}

#[test]
fn sand_falls_one_row_per_tick() {
    let mut s = session(3, 5);
    s.place(MaterialKind::Sand, 1, 0);
    s.tick();
    assert_eq!(kind(&s, 1, 0), MaterialKind::Empty);
    assert_eq!(kind(&s, 1, 1), MaterialKind::Sand);
    s.tick();
    assert_eq!(kind(&s, 1, 2), MaterialKind::Sand);
}

#[test]
fn sand_settles_after_height_minus_one_ticks() {
    // A single sand grain atop an otherwise-empty column of height 5,
    // with a solid steel floor beneath: after exactly 4 ticks it sits on
    // the bottom-most open row and stays there.
    let mut s = session(3, 6);
    for x in 0..3 {
        s.place(MaterialKind::Steel, x, 5);
    }
    s.place(MaterialKind::Sand, 1, 0);
    for t in 0..4 {
        assert_eq!(kind(&s, 1, t), MaterialKind::Sand);
        s.tick();
    }
    assert_eq!(kind(&s, 1, 4), MaterialKind::Sand);
    let before = s.grid.cells.clone();
    for _ in 0..5 {
        s.tick();
    }
    assert_eq!(s.grid.cells, before);
}

#[test]
fn sand_swaps_with_water_below() {
    // Water resting on the bottom row is displaced upward by sand.
    let mut s = session(3, 3);
    s.place(MaterialKind::Water, 1, 2);
    s.place(MaterialKind::Sand, 1, 1);
    s.tick();
    assert_eq!(kind(&s, 1, 1), MaterialKind::Water);
    assert_eq!(kind(&s, 1, 2), MaterialKind::Sand);
}

#[test]
fn sand_takes_a_free_diagonal_when_blocked_below() {
    let mut s = session(3, 4);
    s.place(MaterialKind::Steel, 1, 2);
    s.place(MaterialKind::Sand, 1, 1);
    s.tick();
    assert_eq!(kind(&s, 1, 1), MaterialKind::Empty);
    let left = kind(&s, 0, 2) == MaterialKind::Sand;
    let right = kind(&s, 2, 2) == MaterialKind::Sand;
    assert!(left ^ right);
}

#[test]
fn water_quenches_lava_below() {
    // Water at (2,2) directly above lava at (2,3) on the bottom row:
    // after one tick the water is stone and the lava slot is empty.
    let mut s = session(5, 4);
    s.place(MaterialKind::Water, 2, 2);
    s.place(MaterialKind::Lava, 2, 3);
    s.tick();
    assert_eq!(kind(&s, 2, 2), MaterialKind::Stone);
    assert_eq!(kind(&s, 2, 3), MaterialKind::Empty);
}

#[test]
fn water_freezes_beside_ice() {
    let mut s = session(5, 4);
    s.place(MaterialKind::Water, 2, 2);
    s.place(MaterialKind::Ice, 2, 3);
    s.tick();
    assert_eq!(kind(&s, 2, 2), MaterialKind::Ice);
    assert_eq!(kind(&s, 2, 3), MaterialKind::Ice);
}

#[test]
fn water_falls_into_vacancy() {
    let mut s = session(3, 4);
    s.place(MaterialKind::Water, 1, 0);
    s.tick();
    assert_eq!(kind(&s, 1, 0), MaterialKind::Empty);
    assert_eq!(kind(&s, 1, 1), MaterialKind::Water);
}

#[test]
fn bottom_row_liquids_rest() {
    // Liquid cells on the bottom row take no action at all, so side-by-
    // side water and lava on the floor do not react or spread.
    let mut s = session(4, 3);
    s.place(MaterialKind::Water, 1, 2);
    s.place(MaterialKind::Lava, 2, 2);
    let before = s.grid.cells.clone();
    s.tick();
    assert_eq!(s.grid.cells, before);
}

#[test]
fn stone_sinks_through_and_destroys_lava() {
    let mut s = session(3, 3);
    s.place(MaterialKind::Lava, 1, 2);
    s.place(MaterialKind::Stone, 1, 1);
    s.tick();
    assert_eq!(kind(&s, 1, 1), MaterialKind::Empty);
    assert_eq!(kind(&s, 1, 2), MaterialKind::Stone);
}

#[test]
fn stone_displaces_water_upward() {
    let mut s = session(3, 3);
    s.place(MaterialKind::Water, 1, 2);
    s.place(MaterialKind::Stone, 1, 1);
    s.tick();
    assert_eq!(kind(&s, 1, 1), MaterialKind::Water);
    assert_eq!(kind(&s, 1, 2), MaterialKind::Stone);
}

#[test]
fn stone_never_moves_diagonally() {
    let mut s = session(3, 4);
    s.place(MaterialKind::Steel, 1, 2);
    s.place(MaterialKind::Stone, 1, 1);
    s.tick();
    assert_eq!(kind(&s, 1, 1), MaterialKind::Stone);
    assert_eq!(kind(&s, 0, 2), MaterialKind::Empty);
    assert_eq!(kind(&s, 2, 2), MaterialKind::Empty);
}

#[test]
fn lava_falls_into_vacancy() {
    let mut s = session(3, 4);
    s.place(MaterialKind::Lava, 1, 0);
    s.tick();
    assert_eq!(kind(&s, 1, 0), MaterialKind::Empty);
    assert_eq!(kind(&s, 1, 1), MaterialKind::Lava);
}

#[test]
fn ice_melts_beside_diagonal_lava() {
    // The melt check scans the full eight-neighborhood; the lava itself
    // falls onward during the same scan.
    let mut s = session(4, 4);
    s.place(MaterialKind::Lava, 1, 1);
    s.place(MaterialKind::Ice, 2, 2);
    s.tick();
    assert_eq!(kind(&s, 2, 2), MaterialKind::Water);
    assert_eq!(kind(&s, 1, 1), MaterialKind::Empty);
    assert_eq!(kind(&s, 1, 2), MaterialKind::Lava);
}

#[test]
fn ice_falls_keeping_its_kind() {
    let mut s = session(3, 4);
    s.place(MaterialKind::Ice, 1, 0);
    s.tick();
    assert_eq!(kind(&s, 1, 0), MaterialKind::Empty);
    assert_eq!(kind(&s, 1, 1), MaterialKind::Ice);
}

#[test]
fn airplane_moves_one_cell_right() {
    let mut s = session(4, 3);
    s.place(MaterialKind::Airplane, 0, 1);
    s.tick();
    assert_eq!(kind(&s, 0, 1), MaterialKind::Empty);
    assert_eq!(kind(&s, 1, 1), MaterialKind::Airplane);
}

#[test]
fn airplane_blocked_becomes_a_bomb() {
    let mut s = session(4, 3);
    s.place(MaterialKind::Airplane, 0, 1);
    s.place(MaterialKind::Steel, 1, 1);
    s.tick();
    assert_eq!(kind(&s, 0, 1), MaterialKind::Bomb);
    assert_eq!(kind(&s, 1, 1), MaterialKind::Steel);
}

#[test]
fn airplane_at_the_right_edge_becomes_a_bomb_in_place() {
    // The rightmost column: the airplane converts rather than leaving the
    // grid, and the bomb does not fire on the same tick.
    let mut s = session(4, 3);
    s.place(MaterialKind::Airplane, 3, 1);
    s.tick();
    assert_eq!(kind(&s, 3, 1), MaterialKind::Bomb);
    for y in 0..3 {
        for x in 0..3 {
            assert_eq!(kind(&s, x, y), MaterialKind::Empty);
        }
    }
}

#[test]
fn bomb_rule_clears_exactly_the_radius_five_disk() {
    // The detonation rule applied on its own: bomb at (5,5) of a 20x20
    // grid with sand filling the radius-5 disk around it. Every cell with
    // squared distance at most 25 ends empty; everything else is
    // untouched.
    let mut g = Grid::new(20, 20);
    for y in 0..20 {
        for x in 0..20 {
            g.set(x, y, MaterialKind::Sand).unwrap();
        }
    }
    g.set(5, 5, MaterialKind::Bomb).unwrap();
    g.visit_bomb(5, 5);
    for y in 0..20i64 {
        for x in 0..20i64 {
            let k = g.get(x as usize, y as usize).unwrap();
            if (x - 5) * (x - 5) + (y - 5) * (y - 5) <= 25 {
                assert_eq!(k, MaterialKind::Empty);
            } else {
                assert_eq!(k, MaterialKind::Sand);
            }
        }
    }
}

#[test]
fn bomb_tick_clears_a_steel_disk_and_leaves_the_rest() {
    // A full tick of the same scenario with immobile steel in the disk:
    // after one tick every cell within squared distance 25 of (5,5) is
    // empty and every cell at squared distance 26 or more is unchanged.
    let mut s = session(20, 20);
    for y in 0..20 {
        for x in 0..20 {
            s.place(MaterialKind::Steel, x, y);
        }
    }
    s.place(MaterialKind::Bomb, 5, 5);
    s.tick();
    for y in 0..20i64 {
        for x in 0..20i64 {
            let k = kind(&s, x as usize, y as usize);
            if (x - 5) * (x - 5) + (y - 5) * (y - 5) <= 25 {
                assert_eq!(k, MaterialKind::Empty);
            } else {
                assert_eq!(k, MaterialKind::Steel);
            }
        }
    }
}

#[test]
fn tick_on_a_single_cell_grid_changes_nothing() {
    let mut g = Grid::new(1, 1);
    g.set(0, 0, MaterialKind::Water).unwrap();
    let mut rng = SeededRng::from_seed(5);
    g.tick(&mut rng);
    assert_eq!(g.get(0, 0), Ok(MaterialKind::Water));
}
