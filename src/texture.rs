use vstd::prelude::*;

verus! {

/// A texture of one color everywhere.
#[derive(Clone, Copy, Debug)]
pub struct SolidColor<C> {
    pub albedo: C,
}

impl<C: Copy> SolidColor<C> {
    pub fn from_vec(albedo: C) -> (r: Self)
        ensures
            r.albedo == albedo,
    {
        SolidColor { albedo }
    }

    /// The color at any surface point.
    pub fn value(&self) -> (r: C)
        ensures
            r == self.albedo,
    {
        self.albedo
    }
}

/// Whether the checker cell with integer coordinates `(x, y, z)` shows the
/// even texture: the coordinates sum to an even number.
pub open spec fn is_even_cell(x: int, y: int, z: int) -> bool {
    (x + y + z) % 2 == 0
}

/// Picks between the two textures of a 3D checker board for the cell with
/// integer coordinates `(x, y, z)`; `true` selects the even texture.
pub fn checker_even(x: i32, y: i32, z: i32) -> (r: bool)
    ensures
        r == is_even_cell(x as int, y as int, z as int),
{
    let s = x as i64 + y as i64 + z as i64;
    s % 2 == 0
}

/// A texture image held as rows of blue, green, red bytes.
#[derive(Clone, Debug)]
pub struct ImageTexture {
    width: u32,
    height: u32,
    bgr: Vec<u8>,
}

/// Red, green and blue bytes of pixel `(row, col)` of a row-major BGR image
/// `width` pixels wide.
pub open spec fn bgr_texel(bgr: Seq<u8>, width: int, row: int, col: int) -> (u8, u8, u8) {
    let i = 3 * (row * width + col);
    (bgr[i + 2], bgr[i + 1], bgr[i])
}

impl ImageTexture {
    pub closed spec fn width_spec(&self) -> int {
        self.width as int
    }

    pub closed spec fn height_spec(&self) -> int {
        self.height as int
    }

    pub closed spec fn bytes(&self) -> Seq<u8> {
        self.bgr@
    }

    pub open spec fn wf(&self) -> bool {
        self.bytes().len() == 3 * self.width_spec() * self.height_spec()
    }

    /// Takes a `width` by `height` image given row by row, three bytes per
    /// pixel in blue, green, red order; `None` when the byte count does not
    /// match the size.
    pub fn from_bgr(width: u32, height: u32, bgr: Vec<u8>) -> (r: Option<ImageTexture>)
        ensures
            r is Some <==> bgr@.len() == 3 * width * height,
            r matches Some(t) ==> t.wf() && t.width_spec() == width && t.height_spec() == height
                && t.bytes() == bgr@,
    {
        let n = bgr.len() as u64;
        let w = width as u64;
        let h = height as u64;
        proof {
            assert(w * h <= u32::MAX * u32::MAX) by (nonlinear_arith)
                requires w <= u32::MAX, h <= u32::MAX;
        }
        let wh = w * h;
        proof {
            assert(3 * width * height == 3 * wh) by (nonlinear_arith)
                requires wh == w * h, w == width, h == height;
        }
        if wh > n / 3 || n != 3 * wh {
            None
        } else {
            Some(ImageTexture { width, height, bgr })
        }
    }

    pub fn width(&self) -> (r: u32)
        ensures
            r == self.width_spec(),
    {
        self.width
    }

    pub fn height(&self) -> (r: u32)
        ensures
            r == self.height_spec(),
    {
        self.height
    }

    /// An image with no pixels, which the renderer shows in a marker color.
    pub fn is_empty(&self) -> (r: bool)
        ensures
            r == (self.width_spec() == 0 || self.height_spec() == 0),
    {
        self.width == 0 || self.height == 0
    }

    /// Red, green and blue bytes of the pixel in row `row`, column `col`.
    pub fn texel(&self, row: u32, col: u32) -> (r: (u8, u8, u8))
        requires
            self.wf(),
            row < self.height_spec(),
            col < self.width_spec(),
        ensures
            r == bgr_texel(self.bytes(), self.width_spec(), row as int, col as int),
    {
        let w = self.width as usize;
        let n = self.bgr.len();
        proof {
            assert(3 * (row * w + col) + 2 < n) by (nonlinear_arith)
                requires row < self.height, col < w, n == 3 * w * self.height, w == self.width;
            assert(row * w <= row * w + col) by (nonlinear_arith)
                requires col >= 0;
        }
        let i = 3 * ((row as usize) * w + (col as usize));
        (self.bgr[i + 2], self.bgr[i + 1], self.bgr[i])
    }
}

} // verus!
