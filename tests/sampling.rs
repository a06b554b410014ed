use pathtracer::{stratum_offset, sub_pixel_count};

#[test]
fn sub_pixel_count_is_ceiling_square_root() {
    assert_eq!(sub_pixel_count(0), 0);
    assert_eq!(sub_pixel_count(1), 1);
    assert_eq!(sub_pixel_count(2), 2);
    assert_eq!(sub_pixel_count(4), 2);
    assert_eq!(sub_pixel_count(5), 3);
    assert_eq!(sub_pixel_count(64), 8);
    assert_eq!(sub_pixel_count(65), 9);
    assert_eq!(sub_pixel_count(10000), 100);
    assert_eq!(sub_pixel_count(u32::MAX), 65536);
}

#[test]
fn sub_pixel_count_large_non_square() {
    // 1_000_001 is just above 1000^2: a rounding shortcut through 0.999 would give 1000.
    assert_eq!(sub_pixel_count(1_000_001), 1001);
}

#[test]
fn stratum_offsets_are_cell_centres() {
    assert_eq!(stratum_offset(0, 1), (0, 2));
    assert_eq!(stratum_offset(0, 2), (-1, 4));
    assert_eq!(stratum_offset(1, 2), (1, 4));
    let (n, d) = stratum_offset(2, 3);
    assert!((n as f64 / d as f64 - (5.0 / 6.0 - 0.5)).abs() < 1e-12);
}
