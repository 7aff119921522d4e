use sandsim::texture::{generate_ice_texture, generate_rock_texture};

#[test]
fn ice_texture_is_deterministic() {
    let a = generate_ice_texture(16, 12, 424242, 10);
    let b = generate_ice_texture(16, 12, 424242, 10);
    assert_eq!(a, b);
}

#[test]
fn ice_texture_differs_across_seeds() {
    let a = generate_ice_texture(16, 12, 1, 10);
    let b = generate_ice_texture(16, 12, 2, 10);
    assert_ne!(a, b);
}

#[test]
fn ice_texture_has_the_declared_shape() {
    let t = generate_ice_texture(7, 5, 99, 4);
    assert_eq!(t.len(), 7);
    for col in &t {
        assert_eq!(col.len(), 5);
    }
}

#[test]
fn ice_brightness_is_crack_or_jittered_base() {
    let t = generate_ice_texture(16, 12, 31337, 20);
    let mut cracks = 0usize;
    for col in &t {
        for &b in col {
            assert!(b == 255 || (180..=209).contains(&b));
            if b == 255 {
                cracks += 1;
            }
        }
    }
    // A 20-site pattern on a 16x12 sheet always has some boundary cells.
    assert!(cracks > 0);
}

#[test]
fn rock_texture_is_deterministic() {
    let a = generate_rock_texture(10, 8, 7);
    let b = generate_rock_texture(10, 8, 7);
    assert_eq!(a, b);
}

#[test]
fn rock_texture_differs_across_seeds() {
    let a = generate_rock_texture(10, 8, 7);
    let b = generate_rock_texture(10, 8, 8);
    assert_ne!(a, b);
}

#[test]
fn rock_brightness_stays_in_the_twenty_to_fifty_percent_band() {
    let t = generate_rock_texture(10, 8, 123);
    assert_eq!(t.len(), 10);
    let mut distinct = std::collections::BTreeSet::new();
    for col in &t {
        assert_eq!(col.len(), 8);
        for &b in col {
            assert!((51..=127).contains(&b));
            distinct.insert(b);
        }
    }
    // A real random source gives more than one value over 80 cells.
    assert!(distinct.len() > 1);
}
