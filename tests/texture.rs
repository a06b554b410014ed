use pathtracer::{checker_even, random_i32_ranged, ImageTexture, Perlin, SolidColor, POINT_COUNT};

#[test]
fn solid_color_returns_its_albedo() {
    let t = SolidColor::from_vec((0.7f64, 0.8f64, 1.0f64));
    assert_eq!(t.value(), (0.7, 0.8, 1.0));
    assert_eq!(t.albedo, (0.7, 0.8, 1.0));
}

#[test]
fn checker_parity_of_cells() {
    assert!(checker_even(0, 0, 0));
    assert!(!checker_even(1, 0, 0));
    assert!(!checker_even(-1, 0, 0));
    assert!(checker_even(-1, -1, 0));
    assert!(checker_even(3, 4, 5));
    assert!(checker_even(i32::MAX, i32::MAX, 0));
    assert!(!checker_even(i32::MIN, i32::MAX, 0));
}

#[test]
fn image_texture_reads_bgr_as_rgb() {
    // 2 x 1 image: a blue pixel, then a red one.
    let t = ImageTexture::from_bgr(2, 1, vec![255, 0, 0, 0, 0, 255]).unwrap();
    assert_eq!(t.width(), 2);
    assert_eq!(t.height(), 1);
    assert!(!t.is_empty());
    assert_eq!(t.texel(0, 0), (0, 0, 255));
    assert_eq!(t.texel(0, 1), (255, 0, 0));
}

#[test]
fn image_texture_rows_are_stored_one_after_another() {
    let t = ImageTexture::from_bgr(1, 2, vec![1, 2, 3, 4, 5, 6]).unwrap();
    assert_eq!(t.texel(0, 0), (3, 2, 1));
    assert_eq!(t.texel(1, 0), (6, 5, 4));
}

#[test]
fn image_texture_rejects_wrong_byte_count() {
    assert!(ImageTexture::from_bgr(2, 2, vec![0; 11]).is_none());
    assert!(ImageTexture::from_bgr(2, 2, vec![0; 13]).is_none());
    assert!(ImageTexture::from_bgr(u32::MAX, u32::MAX, vec![0; 3]).is_none());
}

#[test]
fn empty_image_texture_is_flagged() {
    let t = ImageTexture::from_bgr(0, 5, vec![]).unwrap();
    assert!(t.is_empty());
}

#[test]
fn random_integers_stay_in_range() {
    for _ in 0..1000 {
        let r = random_i32_ranged(-3, 4);
        assert!((-3..=4).contains(&r));
    }
    assert_eq!(random_i32_ranged(7, 7), 7);
}

#[test]
fn random_integers_reach_both_ends() {
    let mut seen = [false; 3];
    for _ in 0..2000 {
        seen[random_i32_ranged(0, 2) as usize] = true;
    }
    assert!(seen.iter().all(|&s| s));
}

fn lattice() -> Perlin<u32> {
    Perlin::new((0..POINT_COUNT as u32).map(|i| i * 10).collect())
}

#[test]
fn lattice_indices_are_in_range_and_gradients_match() {
    let p = lattice();
    for i in -300..300 {
        let idx = p.lattice_index(i, 2 * i, -i);
        assert!(idx < POINT_COUNT);
        assert_eq!(p.gradient(i, 2 * i, -i), 10 * idx as u32);
    }
}

#[test]
fn lattice_index_wraps_every_256() {
    let p = lattice();
    assert_eq!(p.lattice_index(-1, 5, 9), p.lattice_index(255, 5, 9));
    assert_eq!(p.lattice_index(3, 256 + 5, 9), p.lattice_index(3, 5, 9));
    assert_eq!(p.lattice_index(3, 5, i32::MIN), p.lattice_index(3, 5, 0));
}

#[test]
fn lattice_index_along_one_axis_is_a_permutation() {
    let p = lattice();
    let mut seen = [false; 256];
    for i in 0..256 {
        seen[p.lattice_index(i, 17, 42)] = true;
    }
    assert!(seen.iter().all(|&s| s));
}

#[test]
fn lattice_tables_are_shuffled() {
    // The chance that two independent shuffles of 256 entries agree is nil.
    let a = lattice();
    let b = lattice();
    let differ = (0..256).any(|i| a.lattice_index(i, 0, 0) != b.lattice_index(i, 0, 0));
    assert!(differ);
}
