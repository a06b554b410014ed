use pathtracer::{Raster, TileRect};

#[test]
fn new_raster_is_black() {
    let r = Raster::new(3, 2);
    assert_eq!(r.width(), 3);
    assert_eq!(r.height(), 2);
    for y in 0..2 {
        for x in 0..3 {
            assert_eq!(r.pixel(x, y), (0, 0, 0));
        }
    }
    assert_eq!(r.to_rgb_bytes(), vec![0u8; 18]);
}

#[test]
fn write_tile_places_pixels_and_keeps_the_rest() {
    let mut r = Raster::new(4, 3);
    let rect = TileRect { xmin: 1, xmax: 3, ymin: 1, ymax: 3 };
    let tile = vec![(1, 2, 3), (4, 5, 6), (7, 8, 9), (10, 11, 12)];
    r.write_tile(rect, &tile);
    assert_eq!(r.pixel(1, 1), (1, 2, 3));
    assert_eq!(r.pixel(2, 1), (4, 5, 6));
    assert_eq!(r.pixel(1, 2), (7, 8, 9));
    assert_eq!(r.pixel(2, 2), (10, 11, 12));
    assert_eq!(r.pixel(0, 0), (0, 0, 0));
    assert_eq!(r.pixel(3, 2), (0, 0, 0));
    assert_eq!(r.pixel(0, 1), (0, 0, 0));
    let bytes = r.to_rgb_bytes();
    let at = |x: usize, y: usize| 3 * (y * 4 + x);
    assert_eq!(&bytes[at(2, 1)..at(2, 1) + 3], &[4, 5, 6]);
    assert_eq!(&bytes[at(1, 2)..at(1, 2) + 3], &[7, 8, 9]);
}

#[test]
fn tiles_written_in_any_order_assemble_the_image() {
    let mut r = Raster::new(2, 2);
    r.write_tile(TileRect { xmin: 1, xmax: 2, ymin: 1, ymax: 2 }, &vec![(40, 41, 42)]);
    r.write_tile(TileRect { xmin: 0, xmax: 1, ymin: 0, ymax: 1 }, &vec![(10, 11, 12)]);
    r.write_tile(TileRect { xmin: 0, xmax: 1, ymin: 1, ymax: 2 }, &vec![(30, 31, 32)]);
    r.write_tile(TileRect { xmin: 1, xmax: 2, ymin: 0, ymax: 1 }, &vec![(20, 21, 22)]);
    assert_eq!(
        r.to_rgb_bytes(),
        vec![10, 11, 12, 20, 21, 22, 30, 31, 32, 40, 41, 42]
    );
}

#[test]
fn empty_tile_changes_nothing() {
    let mut r = Raster::new(2, 2);
    r.write_tile(TileRect { xmin: 1, xmax: 1, ymin: 0, ymax: 2 }, &vec![]);
    assert_eq!(r.to_rgb_bytes(), vec![0u8; 12]);
}
