use pathtracer::{Admission, Admit, RenderPlan, TileRect};

#[test]
fn plan_derives_tile_sizes() {
    let plan = RenderPlan::new(800, 600, 25, 20, 100, true, 16);
    assert_eq!(plan.part_width, 32);
    assert_eq!(plan.part_height, 30);
    assert_eq!(plan.sub_pixel_cnt, 10);
    assert_eq!(plan.tile_count(), 500);
}

#[test]
fn tiles_are_numbered_row_by_row() {
    let plan = RenderPlan::new(6, 4, 3, 2, 1, false, 1);
    assert_eq!(plan.tile(0), TileRect { xmin: 0, xmax: 2, ymin: 0, ymax: 2 });
    assert_eq!(plan.tile(1), TileRect { xmin: 2, xmax: 4, ymin: 0, ymax: 2 });
    assert_eq!(plan.tile(3), TileRect { xmin: 0, xmax: 2, ymin: 2, ymax: 4 });
    assert_eq!(plan.tile(5), TileRect { xmin: 4, xmax: 6, ymin: 2, ymax: 4 });
}

#[test]
fn tiles_cover_every_pixel_once() {
    let plan = RenderPlan::new(12, 9, 4, 3, 4, true, 4);
    let mut seen = vec![0u32; 12 * 9];
    for t in 0..plan.tile_count() {
        let r = plan.tile(t);
        for y in r.ymin..r.ymax {
            for x in r.xmin..r.xmax {
                seen[(y * 12 + x) as usize] += 1;
            }
        }
    }
    assert!(seen.iter().all(|&c| c == 1));
}

#[test]
fn samples_taken_under_ssaa_is_full_grid() {
    assert_eq!(RenderPlan::new(4, 4, 1, 1, 10, true, 1).samples_taken(), 16);
    assert_eq!(RenderPlan::new(4, 4, 1, 1, 10, false, 1).samples_taken(), 10);
    assert_eq!(RenderPlan::new(4, 4, 1, 1, 64, true, 1).samples_taken(), 64);
}

#[test]
fn admission_bounds_outstanding_workers() {
    let mut a = Admission::new(2, 4);
    assert_eq!(a.next(), Admit::Spawn(0));
    assert_eq!(a.next(), Admit::Spawn(1));
    assert_eq!(a.outstanding(), 2);
    assert_eq!(a.next(), Admit::Wait);
    assert_eq!(a.next(), Admit::Wait);
    a.finish();
    assert_eq!(a.outstanding(), 1);
    assert_eq!(a.next(), Admit::Spawn(2));
    assert_eq!(a.next(), Admit::Wait);
    a.finish();
    a.finish();
    assert_eq!(a.next(), Admit::Spawn(3));
    assert_eq!(a.next(), Admit::Done);
    a.finish();
    assert_eq!(a.outstanding(), 0);
    assert_eq!(a.next(), Admit::Done);
}

#[test]
fn admission_with_no_tiles_is_done() {
    let mut a = Admission::new(3, 0);
    assert_eq!(a.next(), Admit::Done);
}
