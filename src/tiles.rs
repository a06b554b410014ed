use crate::sampling::{is_ceil_sqrt, sub_pixel_count};
use vstd::prelude::*;

verus! {

/// A rectangle of pixels: columns `xmin .. xmax`, rows `ymin .. ymax`.
#[derive(Clone, Copy, Debug, PartialEq, Eq, Structural)]
pub struct TileRect {
    pub xmin: u32,
    pub xmax: u32,
    pub ymin: u32,
    pub ymax: u32,
}

impl TileRect {
    pub open spec fn contains(self, x: int, y: int) -> bool {
        self.xmin <= x < self.xmax && self.ymin <= y < self.ymax
    }

    pub open spec fn width(self) -> int {
        self.xmax - self.xmin
    }

    pub open spec fn height(self) -> int {
        self.ymax - self.ymin
    }
}

/// Rectangle of tile `t` in a grid `nx` tiles wide whose tiles measure
/// `pw` by `ph` pixels, tiles being numbered row by row.
pub open spec fn tile_rect_spec(nx: int, pw: int, ph: int, t: int) -> TileRect {
    TileRect {
        xmin: ((t % nx) * pw) as u32,
        xmax: ((t % nx + 1) * pw) as u32,
        ymin: ((t / nx) * ph) as u32,
        ymax: ((t / nx + 1) * ph) as u32,
    }
}

/// The integer side of a render: image size, tile grid, sampling plan and
/// the bound on tiles rendered at once.
#[derive(Clone, Copy, Debug)]
pub struct RenderPlan {
    pub image_width: u32,
    pub image_height: u32,
    pub part_num_x: u32,
    pub part_num_y: u32,
    pub part_width: u32,
    pub part_height: u32,
    pub sample_per_pixel: u32,
    pub sub_pixel_cnt: u32,
    pub enable_ssaa: bool,
    pub thread_limit: u32,
}

/// What a render asks of its settings: a tile grid that divides the image
/// exactly and, under stratified sampling, at least one sample per pixel.
pub open spec fn settings_ok(image_width: u32, image_height: u32, part_num_x: u32, part_num_y: u32, sample_per_pixel: u32, enable_ssaa: bool) -> bool {
    &&& part_num_x > 0
    &&& part_num_y > 0
    &&& image_width % part_num_x == 0
    &&& image_height % part_num_y == 0
    &&& (enable_ssaa ==> sample_per_pixel > 0)
}

impl RenderPlan {
    pub open spec fn wf(self) -> bool {
        &&& settings_ok(self.image_width, self.image_height, self.part_num_x, self.part_num_y, self.sample_per_pixel, self.enable_ssaa)
        &&& self.part_width == self.image_width / self.part_num_x
        &&& self.part_height == self.image_height / self.part_num_y
        &&& is_ceil_sqrt(self.sample_per_pixel as int, self.sub_pixel_cnt as int)
    }

    pub open spec fn tile_count_spec(self) -> int {
        self.part_num_x * self.part_num_y
    }

    pub open spec fn tile_spec(self, t: int) -> TileRect {
        tile_rect_spec(self.part_num_x as int, self.part_width as int, self.part_height as int, t)
    }

    /// Number of radiance samples traced per pixel: the whole stratified grid
    /// under SSAA, otherwise the configured count.
    pub open spec fn samples_taken_spec(self) -> int {
        if self.enable_ssaa {
            self.sub_pixel_cnt * self.sub_pixel_cnt
        } else {
            self.sample_per_pixel as int
        }
    }

    /// Derives tile sizes and the stratified grid side from the settings.
    pub fn new(
        image_width: u32,
        image_height: u32,
        part_num_x: u32,
        part_num_y: u32,
        sample_per_pixel: u32,
        enable_ssaa: bool,
        thread_limit: u32,
    ) -> (r: RenderPlan)
        requires
            settings_ok(image_width, image_height, part_num_x, part_num_y, sample_per_pixel, enable_ssaa),
        ensures
            r.wf(),
            r.image_width == image_width,
            r.image_height == image_height,
            r.part_num_x == part_num_x,
            r.part_num_y == part_num_y,
            r.sample_per_pixel == sample_per_pixel,
            r.enable_ssaa == enable_ssaa,
            r.thread_limit == thread_limit,
    {
        RenderPlan {
            image_width,
            image_height,
            part_num_x,
            part_num_y,
            part_width: image_width / part_num_x,
            part_height: image_height / part_num_y,
            sample_per_pixel,
            sub_pixel_cnt: sub_pixel_count(sample_per_pixel),
            enable_ssaa,
            thread_limit,
        }
    }

    /// Number of tiles in the grid.
    pub fn tile_count(&self) -> (r: u64)
        ensures
            r == self.tile_count_spec(),
    {
        proof {
            assert(self.part_num_x * self.part_num_y <= u32::MAX * u32::MAX) by (nonlinear_arith)
                requires self.part_num_x <= u32::MAX, self.part_num_y <= u32::MAX;
        }
        (self.part_num_x as u64) * (self.part_num_y as u64)
    }

    /// Samples traced per pixel.
    pub fn samples_taken(&self) -> (r: u64)
        requires
            self.wf(),
        ensures
            r == self.samples_taken_spec(),
    {
        if self.enable_ssaa {
            proof {
                assert(self.sub_pixel_cnt * self.sub_pixel_cnt <= u32::MAX * u32::MAX) by (nonlinear_arith)
                    requires self.sub_pixel_cnt <= u32::MAX;
            }
            (self.sub_pixel_cnt as u64) * (self.sub_pixel_cnt as u64)
        } else {
            self.sample_per_pixel as u64
        }
    }

    /// Rectangle of tile `t`, tiles being numbered row by row.
    pub fn tile(&self, t: u64) -> (r: TileRect)
        requires
            self.wf(),
            t < self.tile_count_spec(),
        ensures
            r == self.tile_spec(t as int),
            r.xmax <= self.image_width,
            r.ymax <= self.image_height,
            r.width() == self.part_width,
            r.height() == self.part_height,
    {
        let nx = self.part_num_x as u64;
        let ny = self.part_num_y as u64;
        let pw = self.part_width as u64;
        let ph = self.part_height as u64;
        let col = t % nx;
        let row = t / nx;
        proof {
            lemma_tile_fits(nx as int, ny as int, pw as int, ph as int, t as int,
                self.image_width as int, self.image_height as int);
        }
        TileRect {
            xmin: (col * pw) as u32,
            xmax: ((col + 1) * pw) as u32,
            ymin: (row * ph) as u32,
            ymax: ((row + 1) * ph) as u32,
        }
    }
}

/// The tiles of a plan partition its image: every pixel lies in exactly one
/// tile.
pub proof fn lemma_tiles_partition_image(plan: RenderPlan, x: int, y: int)
    requires
        plan.wf(),
        0 <= x < plan.image_width,
        0 <= y < plan.image_height,
    ensures
        exists|t: int| 0 <= t < plan.tile_count_spec() && (#[trigger] plan.tile_spec(t)).contains(x, y),
        forall|t1: int, t2: int|
            0 <= t1 < plan.tile_count_spec() && 0 <= t2 < plan.tile_count_spec()
                && (#[trigger] plan.tile_spec(t1)).contains(x, y) && (#[trigger] plan.tile_spec(t2)).contains(x, y)
                ==> t1 == t2,
{
    let nx = plan.part_num_x as int;
    let ny = plan.part_num_y as int;
    let pw = plan.part_width as int;
    let ph = plan.part_height as int;
    let w = plan.image_width as int;
    let h = plan.image_height as int;
    assert(w == nx * pw) by (nonlinear_arith)
        requires pw == w / nx, w % nx == 0, nx > 0;
    assert(h == ny * ph) by (nonlinear_arith)
        requires ph == h / ny, h % ny == 0, ny > 0;
    assert(pw > 0) by (nonlinear_arith)
        requires w == nx * pw, nx > 0, 0 <= x < w, pw == w / nx;
    assert(ph > 0) by (nonlinear_arith)
        requires h == ny * ph, ny > 0, 0 <= y < h, ph == h / ny;
    let cx = x / pw;
    let cy = y / ph;
    assert(0 <= cx < nx && cx * pw <= x < (cx + 1) * pw) by (nonlinear_arith)
        requires cx == x / pw, pw > 0, 0 <= x < nx * pw;
    assert(0 <= cy < ny && cy * ph <= y < (cy + 1) * ph) by (nonlinear_arith)
        requires cy == y / ph, ph > 0, 0 <= y < ny * ph;
    let t = cy * nx + cx;
    assert(0 <= t < nx * ny && t % nx == cx && t / nx == cy) by (nonlinear_arith)
        requires t == cy * nx + cx, 0 <= cx < nx, 0 <= cy < ny;
    lemma_tile_fits(nx, ny, pw, ph, t, w, h);
    assert(plan.tile_spec(t).contains(x, y));
    assert forall|t1: int, t2: int|
        0 <= t1 < plan.tile_count_spec() && 0 <= t2 < plan.tile_count_spec()
            && (#[trigger] plan.tile_spec(t1)).contains(x, y) && (#[trigger] plan.tile_spec(t2)).contains(x, y)
            implies t1 == t2 by {
        lemma_tile_owner(plan, x, y, t1, cx, cy);
        lemma_tile_owner(plan, x, y, t2, cx, cy);
    }
}

/// A tile that holds pixel `(x, y)` sits in column `cx` and row `cy` of the
/// grid, where those are the pixel's column and row divided by the tile size.
proof fn lemma_tile_owner(plan: RenderPlan, x: int, y: int, t: int, cx: int, cy: int)
    requires
        plan.wf(),
        0 <= x < plan.image_width,
        0 <= y < plan.image_height,
        plan.part_width > 0,
        plan.part_height > 0,
        cx == x / (plan.part_width as int),
        cy == y / (plan.part_height as int),
        0 <= t < plan.tile_count_spec(),
        plan.tile_spec(t).contains(x, y),
    ensures
        t == cy * plan.part_num_x + cx,
{
    let nx = plan.part_num_x as int;
    let ny = plan.part_num_y as int;
    let pw = plan.part_width as int;
    let ph = plan.part_height as int;
    lemma_tile_fits(nx, ny, pw, ph, t, plan.image_width as int, plan.image_height as int);
    let c = t % nx;
    let r = t / nx;
    assert(c * pw <= x < (c + 1) * pw);
    assert(r * ph <= y < (r + 1) * ph);
    assert(c == cx) by (nonlinear_arith)
        requires c * pw <= x < (c + 1) * pw, pw > 0, cx == x / pw;
    assert(r == cy) by (nonlinear_arith)
        requires r * ph <= y < (r + 1) * ph, ph > 0, cy == y / ph;
    assert(t == r * nx + c) by (nonlinear_arith)
        requires c == t % nx, r == t / nx, nx > 0;
}

proof fn lemma_tile_fits(nx: int, ny: int, pw: int, ph: int, t: int, w: int, h: int)
    requires
        nx > 0,
        ny > 0,
        0 <= t < nx * ny,
        pw == w / nx,
        ph == h / ny,
        w % nx == 0,
        h % ny == 0,
        0 <= w <= u32::MAX,
        0 <= h <= u32::MAX,
    ensures
        0 <= t % nx < nx,
        0 <= t / nx < ny,
        (t % nx + 1) * pw <= w,
        (t / nx + 1) * ph <= h,
        0 <= (t % nx) * pw,
        0 <= (t / nx) * ph,
        (t % nx) * pw <= (t % nx + 1) * pw,
        (t / nx) * ph <= (t / nx + 1) * ph,
        (t % nx + 1) * pw - (t % nx) * pw == pw,
        (t / nx + 1) * ph - (t / nx) * ph == ph,
{
    assert(0 <= t / nx < ny) by (nonlinear_arith)
        requires nx > 0, ny > 0, 0 <= t < nx * ny;
    assert(0 <= t % nx < nx) by (nonlinear_arith)
        requires nx > 0, 0 <= t;
    assert(w == nx * pw) by (nonlinear_arith)
        requires pw == w / nx, w % nx == 0, nx > 0;
    assert(h == ny * ph) by (nonlinear_arith)
        requires ph == h / ny, h % ny == 0, ny > 0;
    assert(pw >= 0 && ph >= 0) by (nonlinear_arith)
        requires pw == w / nx, ph == h / ny, nx > 0, ny > 0, w >= 0, h >= 0;
    assert((t % nx + 1) * pw <= nx * pw) by (nonlinear_arith)
        requires t % nx + 1 <= nx, pw >= 0;
    assert((t / nx + 1) * ph <= ny * ph) by (nonlinear_arith)
        requires t / nx + 1 <= ny, ph >= 0;
    assert(0 <= (t % nx) * pw) by (nonlinear_arith)
        requires t % nx >= 0, pw >= 0;
    assert(0 <= (t / nx) * ph) by (nonlinear_arith)
        requires t / nx >= 0, ph >= 0;
    assert((t % nx) * pw <= (t % nx + 1) * pw) by (nonlinear_arith)
        requires pw >= 0;
    assert((t / nx) * ph <= (t / nx + 1) * ph) by (nonlinear_arith)
        requires ph >= 0;
    assert((t % nx + 1) * pw - (t % nx) * pw == pw) by (nonlinear_arith);
    assert((t / nx + 1) * ph - (t / nx) * ph == ph) by (nonlinear_arith);
}

} // verus!
