use crate::tiles::TileRect;
use image::RgbImage;
use vstd::prelude::*;

verus! {

/// An RGB image with eight bits per channel, held in an `image::RgbImage`.
#[verifier::external_body]
pub struct Raster {
    img: RgbImage,
}

/// Pixels of a raster, row by row, each as its red, green and blue bytes.
pub uninterp spec fn raster_pixels(r: Raster) -> Seq<(u8, u8, u8)>;

/// Width of a raster in pixels.
pub uninterp spec fn raster_width(r: Raster) -> nat;

/// Height of a raster in pixels.
pub uninterp spec fn raster_height(r: Raster) -> nat;

/// The pixel sequence of a raster has one entry per pixel.
pub open spec fn raster_wf(r: Raster) -> bool {
    raster_pixels(r).len() == raster_width(r) * raster_height(r)
}

/// Index of pixel `(x, y)` in the row-by-row pixel sequence of an image
/// `width` pixels wide.
pub open spec fn pixel_index(width: nat, x: int, y: int) -> int {
    y * width + x
}

/// The bytes of a pixel sequence, three per pixel in red, green, blue order.
pub open spec fn rgb_bytes(px: Seq<(u8, u8, u8)>) -> Seq<u8> {
    Seq::new(3 * px.len(), |i: int|
        if i % 3 == 0 {
            px[i / 3].0
        } else if i % 3 == 1 {
            px[i / 3].1
        } else {
            px[i / 3].2
        })
}

/// Relies on `image::ImageBuffer::new`: a buffer of the given size whose
/// bytes are all zero, laid out row by row; it panics when the byte count
/// overflows `usize` or exceeds what a `Vec` can hold.
#[verifier::external_body]
fn image_new(width: u32, height: u32) -> (r: Raster)
    requires
        3 * width * height <= isize::MAX,
    ensures
        raster_width(r) == width,
        raster_height(r) == height,
        raster_pixels(r) == Seq::new((width * height) as nat, |i: int| (0u8, 0u8, 0u8)),
{
    Raster { img: RgbImage::new(width, height) }
}

/// Relies on `image::ImageBuffer::put_pixel`: it panics outside the image and
/// otherwise replaces the one pixel at `(x, y)`.
#[verifier::external_body]
fn image_put(r: &mut Raster, x: u32, y: u32, rgb: (u8, u8, u8))
    requires
        x < raster_width(*old(r)),
        y < raster_height(*old(r)),
    ensures
        raster_width(*final(r)) == raster_width(*old(r)),
        raster_height(*final(r)) == raster_height(*old(r)),
        raster_pixels(*final(r)) == raster_pixels(*old(r)).update(
            pixel_index(raster_width(*old(r)), x as int, y as int),
            rgb,
        ),
{
    r.img.put_pixel(x, y, image::Rgb([rgb.0, rgb.1, rgb.2]))
}

/// Relies on `image::ImageBuffer::get_pixel`: it panics outside the image and
/// otherwise reads the pixel at `(x, y)`.
#[verifier::external_body]
fn image_get(r: &Raster, x: u32, y: u32) -> (p: (u8, u8, u8))
    requires
        x < raster_width(*r),
        y < raster_height(*r),
    ensures
        p == raster_pixels(*r)[pixel_index(raster_width(*r), x as int, y as int)],
{
    let p = r.img.get_pixel(x, y);
    (p.0[0], p.0[1], p.0[2])
}

/// Relies on `image::ImageBuffer::width`.
#[verifier::external_body]
fn image_width_of(r: &Raster) -> (w: u32)
    ensures
        w == raster_width(*r),
{
    r.img.width()
}

/// Relies on `image::ImageBuffer::height`.
#[verifier::external_body]
fn image_height_of(r: &Raster) -> (h: u32)
    ensures
        h == raster_height(*r),
{
    r.img.height()
}

/// Relies on `image::ImageBuffer::as_raw`: the subpixels of an `RgbImage`,
/// three per pixel in red, green, blue order, row by row.
#[verifier::external_body]
fn image_bytes(r: &Raster) -> (b: Vec<u8>)
    ensures
        b@ == rgb_bytes(raster_pixels(*r)),
{
    r.img.as_raw().clone()
}

/// Value that pixel `(x, y)` takes once the tile `rect`, whose pixels are
/// given row by row in `tile`, has been written over the pixels `before`.
pub open spec fn with_tile(before: Seq<(u8, u8, u8)>, width: nat, rect: TileRect, tile: Seq<(u8, u8, u8)>, x: int, y: int) -> (u8, u8, u8) {
    if rect.contains(x, y) {
        tile[(y - rect.ymin) * rect.width() + (x - rect.xmin)]
    } else {
        before[pixel_index(width, x, y)]
    }
}

/// The pixels `before` of a `width` by `height` image once the tile `rect`,
/// whose pixels are given row by row in `tile`, has been written over them.
pub open spec fn overlay(before: Seq<(u8, u8, u8)>, width: nat, height: nat, rect: TileRect, tile: Seq<(u8, u8, u8)>) -> Seq<(u8, u8, u8)> {
    Seq::new(width * height, |i: int| with_tile(before, width, rect, tile, i % (width as int), i / (width as int)))
}

/// No pixel lies in both rectangles.
pub open spec fn disjoint(a: TileRect, b: TileRect) -> bool {
    forall|x: int, y: int| !(#[trigger] a.contains(x, y) && #[trigger] b.contains(x, y))
}

/// Writing two tiles that share no pixel gives the same image in either
/// order, so workers may finish their tiles in any order.
pub proof fn lemma_disjoint_tiles_commute(
    before: Seq<(u8, u8, u8)>,
    width: nat,
    height: nat,
    a: TileRect,
    ta: Seq<(u8, u8, u8)>,
    b: TileRect,
    tb: Seq<(u8, u8, u8)>,
)
    requires
        before.len() == width * height,
        disjoint(a, b),
    ensures
        overlay(overlay(before, width, height, a, ta), width, height, b, tb)
            == overlay(overlay(before, width, height, b, tb), width, height, a, ta),
{
    let ab = overlay(overlay(before, width, height, a, ta), width, height, b, tb);
    let ba = overlay(overlay(before, width, height, b, tb), width, height, a, ta);
    assert forall|i: int| 0 <= i < width * height implies ab[i] == ba[i] by {
        let w = width as int;
        let x = i % w;
        let y = i / w;
        lemma_split_index(width, height, i);
        assert(!(a.contains(x, y) && b.contains(x, y)));
    }
    assert(ab =~= ba);
}

/// Index `i` of a `width` by `height` image is pixel `(i % width, i / width)`.
proof fn lemma_split_index(width: nat, height: nat, i: int)
    requires
        0 <= i < width * height,
    ensures
        width > 0,
        0 <= i % (width as int) < width,
        0 <= i / (width as int) < height,
        pixel_index(width, i % (width as int), i / (width as int)) == i,
{
    let w = width as int;
    assert(w > 0) by (nonlinear_arith)
        requires 0 <= i < w * height, w >= 0, height >= 0;
    assert(0 <= i % w < w && 0 <= i / w < height && (i / w) * w + i % w == i) by (nonlinear_arith)
        requires 0 <= i < w * height, w > 0;
}

proof fn lemma_pixel_index_injective(w: nat, x1: int, y1: int, x2: int, y2: int)
    requires
        0 <= x1 < w,
        0 <= x2 < w,
        pixel_index(w, x1, y1) == pixel_index(w, x2, y2),
    ensures
        x1 == x2,
        y1 == y2,
{
    assert(y1 == y2) by (nonlinear_arith)
        requires y1 * w + x1 == y2 * w + x2, 0 <= x1 < w, 0 <= x2 < w;
}

proof fn lemma_pixel_index_bounds(w: nat, h: nat, x: int, y: int)
    requires
        0 <= x < w,
        0 <= y < h,
    ensures
        0 <= pixel_index(w, x, y) < w * h,
{
    assert(0 <= y * w + x < w * h) by (nonlinear_arith)
        requires 0 <= x < w, 0 <= y < h;
}

impl Raster {
    /// Writes a tile of pixels, given row by row, over its place in the
    /// image; every pixel outside the tile keeps its value.
    pub fn write_tile(&mut self, rect: TileRect, tile: &Vec<(u8, u8, u8)>)
        requires
            raster_wf(*old(self)),
            rect.xmin <= rect.xmax <= raster_width(*old(self)),
            rect.ymin <= rect.ymax <= raster_height(*old(self)),
            tile@.len() == rect.width() * rect.height(),
        ensures
            raster_wf(*final(self)),
            raster_width(*final(self)) == raster_width(*old(self)),
            raster_height(*final(self)) == raster_height(*old(self)),
            forall|x: int, y: int|
                0 <= x < raster_width(*old(self)) && 0 <= y < raster_height(*old(self))
                    ==> #[trigger] raster_pixels(*final(self))[pixel_index(raster_width(*old(self)), x, y)]
                        == with_tile(raster_pixels(*old(self)), raster_width(*old(self)), rect, tile@, x, y),
            raster_pixels(*final(self)) == overlay(
                raster_pixels(*old(self)),
                raster_width(*old(self)),
                raster_height(*old(self)),
                rect,
                tile@,
            ),
    {
        let ghost before = raster_pixels(*self);
        let ghost w = raster_width(*self);
        let ghost h = raster_height(*self);
        let tw = rect.xmax - rect.xmin;
        let mut j: u32 = rect.ymin;
        while j < rect.ymax
            invariant
                rect.ymin <= j <= rect.ymax,
                rect.xmin <= rect.xmax <= w,
                rect.ymax <= h,
                tw == rect.width(),
                tile@.len() == rect.width() * rect.height(),
                raster_wf(*self),
                raster_width(*self) == w,
                raster_height(*self) == h,
                before.len() == w * h,
                forall|x: int, y: int|
                    0 <= x < w && 0 <= y < h ==> #[trigger] raster_pixels(*self)[pixel_index(w, x, y)]
                        == if y < j {
                            with_tile(before, w, rect, tile@, x, y)
                        } else {
                            before[pixel_index(w, x, y)]
                        },
            decreases rect.ymax - j,
        {
            let mut i: u32 = rect.xmin;
            while i < rect.xmax
                invariant
                    rect.ymin <= j < rect.ymax,
                    rect.xmin <= i <= rect.xmax,
                    rect.xmin <= rect.xmax <= w,
                    rect.ymax <= h,
                    tw == rect.width(),
                    tile@.len() == rect.width() * rect.height(),
                    raster_wf(*self),
                    raster_width(*self) == w,
                    raster_height(*self) == h,
                    before.len() == w * h,
                    forall|x: int, y: int|
                        0 <= x < w && 0 <= y < h ==> #[trigger] raster_pixels(*self)[pixel_index(w, x, y)]
                            == if y < j || (y == j && x < i) {
                                with_tile(before, w, rect, tile@, x, y)
                            } else {
                                before[pixel_index(w, x, y)]
                            },
                decreases rect.xmax - i,
            {
                let dy = j - rect.ymin;
                let dx = i - rect.xmin;
                let n = tile.len();
                proof {
                    assert(dy * tw + dx < n) by (nonlinear_arith)
                        requires dy < rect.height(), dx < tw, tw == rect.width(),
                            n == rect.width() * rect.height();
                    assert(dy * tw <= dy * tw + dx) by (nonlinear_arith)
                        requires dx >= 0;
                }
                let k = (dy as usize) * (tw as usize) + (dx as usize);
                let v = tile[k];
                let ghost mid = raster_pixels(*self);
                proof {
                    lemma_pixel_index_bounds(w, h, i as int, j as int);
                }
                image_put(self, i, j, v);
                proof {
                    assert forall|x: int, y: int|
                        0 <= x < w && 0 <= y < h implies #[trigger] raster_pixels(*self)[pixel_index(w, x, y)]
                            == if y < j || (y == j && x < i + 1) {
                                with_tile(before, w, rect, tile@, x, y)
                            } else {
                                before[pixel_index(w, x, y)]
                            } by {
                        lemma_pixel_index_bounds(w, h, x, y);
                        if pixel_index(w, x, y) == pixel_index(w, i as int, j as int) {
                            lemma_pixel_index_injective(w, x, y, i as int, j as int);
                        } else {
                            assert(raster_pixels(*self)[pixel_index(w, x, y)] == mid[pixel_index(w, x, y)]);
                        }
                    }
                }
                i = i + 1;
            }
            j = j + 1;
        }
        proof {
            let after = raster_pixels(*self);
            let o = overlay(before, w, h, rect, tile@);
            assert forall|i: int| 0 <= i < w * h implies after[i] == o[i] by {
                lemma_split_index(w, h, i);
            }
            assert(after =~= o);
        }
    }

    /// A black image of the given size.
    pub fn new(width: u32, height: u32) -> (r: Raster)
        requires
            3 * width * height <= isize::MAX,
        ensures
            raster_wf(r),
            raster_width(r) == width,
            raster_height(r) == height,
            forall|i: int| 0 <= i < width * height ==> #[trigger] raster_pixels(r)[i] == (0u8, 0u8, 0u8),
    {
        image_new(width, height)
    }

    pub fn width(&self) -> (w: u32)
        ensures
            w == raster_width(*self),
    {
        image_width_of(self)
    }

    pub fn height(&self) -> (h: u32)
        ensures
            h == raster_height(*self),
    {
        image_height_of(self)
    }

    /// The pixel at column `x`, row `y`.
    pub fn pixel(&self, x: u32, y: u32) -> (p: (u8, u8, u8))
        requires
            x < raster_width(*self),
            y < raster_height(*self),
        ensures
            p == raster_pixels(*self)[pixel_index(raster_width(*self), x as int, y as int)],
    {
        image_get(self, x, y)
    }

    /// The image as bytes, row by row, three per pixel in red, green, blue
    /// order.
    pub fn to_rgb_bytes(&self) -> (b: Vec<u8>)
        ensures
            b@ == rgb_bytes(raster_pixels(*self)),
    {
        image_bytes(self)
    }
}

} // verus!
