use sandsim::grid::{Grid, GridError};
use sandsim::material::MaterialKind;

#[test]
fn new_grid_is_all_empty() {
    let g = Grid::new(4, 3);
    for y in 0..3 {
        for x in 0..4 {
            assert_eq!(g.get(x, y), Ok(MaterialKind::Empty));
        }
    }
}

#[test]
fn set_then_get_round_trips() {
    let mut g = Grid::new(4, 3);
    assert_eq!(g.set(2, 1, MaterialKind::Lava), Ok(()));
    assert_eq!(g.get(2, 1), Ok(MaterialKind::Lava));
    assert_eq!(g.get(1, 2), Ok(MaterialKind::Empty));
}

#[test]
fn out_of_bounds_access_is_an_error() {
    let mut g = Grid::new(4, 3);
    assert_eq!(g.get(4, 0), Err(GridError::OutOfBounds));
    assert_eq!(g.get(0, 3), Err(GridError::OutOfBounds));
    assert_eq!(g.set(9, 9, MaterialKind::Sand), Err(GridError::OutOfBounds));
    // The failed set left the grid unchanged.
    assert_eq!(g.get(0, 0), Ok(MaterialKind::Empty));
}

#[test]
fn in_bounds_matches_the_dimensions() {
    let g = Grid::new(4, 3);
    assert!(g.in_bounds(0, 0));
    assert!(g.in_bounds(3, 2));
    assert!(!g.in_bounds(4, 0));
    assert!(!g.in_bounds(0, 3));
}

#[test]
fn offset_finds_neighbors_and_rejects_edges() {
    let g = Grid::new(4, 3);
    // (1,1) is index 5; down is (1,2) = index 9.
    assert_eq!(g.offset(1, 1, 0, 1), Some(9));
    assert_eq!(g.offset(1, 1, -1, -1), Some(0));
    assert_eq!(g.offset(0, 0, -1, 0), None);
    assert_eq!(g.offset(3, 2, 1, 0), None);
    assert_eq!(g.offset(3, 2, 0, 1), None);
}
