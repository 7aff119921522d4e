use sandsim::material::MaterialKind;
use sandsim::session::{ConfigError, Session};

#[test]
fn too_few_sites_is_a_config_error() {
    assert!(matches!(
        Session::new(10, 10, 1, 2, 1),
        Err(ConfigError::TooFewSites)
    ));
    assert!(matches!(
        Session::new(10, 10, 1, 2, 0),
        Err(ConfigError::TooFewSites)
    ));
}

#[test]
fn zero_dimensions_are_a_config_error() {
    assert!(matches!(
        Session::new(0, 10, 1, 2, 4),
        Err(ConfigError::BadDimensions)
    ));
    assert!(matches!(
        Session::new(10, 0, 1, 2, 4),
        Err(ConfigError::BadDimensions)
    ));
}

#[test]
fn a_new_session_is_all_empty_with_sand_selected() {
    let s = Session::new(8, 6, 11, 22, 3).unwrap();
    for y in 0..6 {
        for x in 0..8 {
            assert_eq!(s.cell_view(x, y).unwrap().0, MaterialKind::Empty);
        }
    }
    assert_eq!(s.selected_kind(), MaterialKind::Sand);
}

#[test]
fn place_and_erase_overwrite_cells() {
    let mut s = Session::new(8, 6, 11, 22, 3).unwrap();
    s.place(MaterialKind::Lava, 3, 4);
    assert_eq!(s.cell_view(3, 4).unwrap().0, MaterialKind::Lava);
    s.erase(3, 4);
    assert_eq!(s.cell_view(3, 4).unwrap().0, MaterialKind::Empty);
}

#[test]
fn place_clamps_out_of_range_coordinates() {
    let mut s = Session::new(8, 6, 11, 22, 3).unwrap();
    s.place(MaterialKind::Steel, 1000, 1000);
    assert_eq!(s.cell_view(7, 5).unwrap().0, MaterialKind::Steel);
}

#[test]
fn cycle_selection_wraps_in_both_directions() {
    let mut s = Session::new(8, 6, 11, 22, 3).unwrap();
    s.cycle_selection(1);
    assert_eq!(s.selected_kind(), MaterialKind::Water);
    s.cycle_selection(6);
    assert_eq!(s.selected_kind(), MaterialKind::Airplane);
    s.cycle_selection(1);
    assert_eq!(s.selected_kind(), MaterialKind::Sand);
    s.cycle_selection(-1);
    assert_eq!(s.selected_kind(), MaterialKind::Airplane);
    s.cycle_selection(-15);
    assert_eq!(s.selected_kind(), MaterialKind::Sand);
    s.cycle_selection(17);
    assert_eq!(s.selected_kind(), MaterialKind::Water);
}

#[test]
fn cell_view_reports_out_of_bounds() {
    let s = Session::new(8, 6, 11, 22, 3).unwrap();
    assert!(s.cell_view(8, 0).is_err());
    assert!(s.cell_view(0, 6).is_err());
}

#[test]
fn cell_view_brightness_matches_the_stored_textures() {
    let s = Session::new(8, 6, 11, 22, 3).unwrap();
    let (_, rb, ib) = s.cell_view(2, 3).unwrap();
    assert_eq!(rb, s.rock[2][3]);
    assert_eq!(ib, s.ice[2][3]);
    assert!((51..=127).contains(&rb));
    assert!(ib == 255 || (180..=209).contains(&ib));
}
