use sandsim::circle::indices_in_circle;

fn sorted(mut v: Vec<usize>) -> Vec<usize> {
    v.sort();
    v
}

#[test]
fn radius_zero_is_just_the_cell() {
    // 5x5 grid, center cell.
    let v = indices_in_circle(12, 0, 5, 5);
    assert_eq!(v, vec![12]);
}

#[test]
fn negative_radius_is_empty() {
    let v = indices_in_circle(12, -3, 5, 5);
    assert!(v.is_empty());
    let v = indices_in_circle(12, i32::MIN, 5, 5);
    assert!(v.is_empty());
}

#[test]
fn radius_one_is_a_cross() {
    // 5x5 grid, center (2,2) = index 12; radius 1 keeps the 4-neighborhood.
    let v = sorted(indices_in_circle(12, 1, 5, 5));
    assert_eq!(v, vec![7, 11, 12, 13, 17]);
}

#[test]
fn clips_at_the_origin_corner() {
    let v = sorted(indices_in_circle(0, 1, 5, 5));
    assert_eq!(v, vec![0, 1, 5]);
}

#[test]
fn clips_at_the_far_corner() {
    // Bottom-right cell of a 5x5 grid: the upper-edge checks must clip
    // both axes rather than wrap or overrun.
    let v = sorted(indices_in_circle(24, 1, 5, 5));
    assert_eq!(v, vec![19, 23, 24]);
}

#[test]
fn clips_on_the_right_edge_of_a_wide_radius() {
    // Center (4,2) of a 5x5 grid, radius 2: nothing beyond column 4 and
    // nothing below row 4 may appear.
    let v = indices_in_circle(14, 2, 5, 5);
    for &q in &v {
        assert!(q < 25);
        let (x, y) = (q % 5, q / 5);
        let (dx, dy) = (x as i64 - 4, y as i64 - 2);
        assert!(dx * dx + dy * dy <= 4);
    }
    // Exactly the in-bounds disk members appear.
    let mut expect: Vec<usize> = Vec::new();
    for y in 0..5i64 {
        for x in 0..5i64 {
            if (x - 4) * (x - 4) + (y - 2) * (y - 2) <= 4 {
                expect.push((x + y * 5) as usize);
            }
        }
    }
    assert_eq!(sorted(v), sorted(expect));
}

#[test]
fn disk_of_radius_five_has_81_cells_far_from_edges() {
    // On a 20x20 grid around (10,10): the full discrete disk of radius 5.
    let v = indices_in_circle(10 + 10 * 20, 5, 20, 20);
    assert_eq!(v.len(), 81);
}
