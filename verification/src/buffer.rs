//! The pixel buffer every kernel reads and produces.

use vstd::prelude::*;

verus! {

/// Channel `c` of a pixel: 0 red, 1 green, anything else blue.
pub open spec fn component(p: (u8, u8, u8), c: int) -> u8 {
    if c == 0 {
        p.0
    } else if c == 1 {
        p.1
    } else {
        p.2
    }
}

/// Mathematical model of an image: its dimensions and its bytes, three per
/// pixel in red, green, blue order, rows from top to bottom.
pub struct Raster {
    pub width: nat,
    pub height: nat,
    pub data: Seq<u8>,
}

impl Raster {
    /// The byte sequence holds exactly three bytes per pixel.
    pub open spec fn wf(self) -> bool {
        self.data.len() == 3 * self.width * self.height
    }

    /// `(x, y)` names a pixel of the image.
    pub open spec fn contains(self, x: int, y: int) -> bool {
        0 <= x < self.width && 0 <= y < self.height
    }

    /// Position in `data` of channel `c` of the pixel at `(x, y)`.
    pub open spec fn offset(self, x: int, y: int, c: int) -> int {
        3 * (y * self.width + x) + c
    }

    /// Channel `c` (0 red, 1 green, 2 blue) of the pixel at `(x, y)`.
    pub open spec fn channel(self, x: int, y: int, c: int) -> u8 {
        self.data[self.offset(x, y, c)]
    }

    /// The pixel at `(x, y)`.
    pub open spec fn pixel(self, x: int, y: int) -> (u8, u8, u8) {
        (self.channel(x, y, 0), self.channel(x, y, 1), self.channel(x, y, 2))
    }

    /// The image of the given shape whose pixel at `(x, y)` is `f(x, y)`.
    pub open spec fn from_fn(
        width: nat,
        height: nat,
        f: spec_fn(int, int) -> (u8, u8, u8),
    ) -> Raster {
        Raster {
            width,
            height,
            data: Seq::new(
                3 * width * height,
                |i: int| component(f((i / 3) % (width as int), (i / 3) / (width as int)), i % 3),
            ),
        }
    }

    /// The image of the same shape in which every pixel is `f` of the pixel
    /// that stands at its place in `self`.
    pub open spec fn map_pixels(self, f: spec_fn(u8, u8, u8) -> (u8, u8, u8)) -> Raster {
        Raster {
            width: self.width,
            height: self.height,
            data: Seq::new(
                self.data.len(),
                |i: int|
                    component(
                        f(self.data[i - i % 3], self.data[i - i % 3 + 1], self.data[i - i % 3 + 2]),
                        i % 3,
                    ),
            ),
        }
    }

    /// Two images have the same width and height.
    pub open spec fn same_shape(self, other: Raster) -> bool {
        self.width == other.width && self.height == other.height
    }
}

/// The bytes of the pixel at `(x, y)` lie within the data, at the offsets
/// of pixel number `y * width + x`, from which `x` and `y` can be read back.
pub proof fn lemma_offset(r: Raster, x: int, y: int, c: int)
    requires
        r.wf(),
        r.contains(x, y),
        0 <= c < 3,
    ensures
        0 <= r.offset(x, y, c) < r.data.len(),
        r.offset(x, y, c) / 3 == y * r.width + x,
        r.offset(x, y, c) % 3 == c,
        (y * r.width + x) % (r.width as int) == x,
        (y * r.width + x) / (r.width as int) == y,
        0 <= y * r.width + x < r.width * r.height,
{
    let w = r.width as int;
    let h = r.height as int;
    assert(0 <= y * w && y * w + w <= h * w) by (nonlinear_arith)
        requires
            0 <= y < h,
            0 < w,
    ;
    assert(h * w == w * h) by (nonlinear_arith);
    assert(3 * w * h == 3 * (w * h)) by (nonlinear_arith);
    assert((y + 1) * w == y * w + w) by (nonlinear_arith);
    crate::fixed::lemma_floor_between(y * w + x, w, y);
}

/// In an image made by `from_fn`, the pixel at `(x, y)` is `f(x, y)`.
pub proof fn lemma_from_fn_pixel(
    width: nat,
    height: nat,
    f: spec_fn(int, int) -> (u8, u8, u8),
    x: int,
    y: int,
)
    requires
        0 <= x < width,
        0 <= y < height,
    ensures
        Raster::from_fn(width, height, f).wf(),
        Raster::from_fn(width, height, f).pixel(x, y) == f(x, y),
{
    let r = Raster::from_fn(width, height, f);
    lemma_offset(r, x, y, 0);
    lemma_offset(r, x, y, 1);
    lemma_offset(r, x, y, 2);
}

/// Mapping every pixel to itself gives the image again.
pub proof fn lemma_map_pixels_identity(r: Raster, f: spec_fn(u8, u8, u8) -> (u8, u8, u8))
    requires
        r.data.len() % 3 == 0,
        forall|a: u8, b: u8, c: u8| #[trigger] f(a, b, c) == (a, b, c),
    ensures
        r.map_pixels(f) == r,
{
    assert(r.map_pixels(f).data =~= r.data);
}

/// Mapping twice with a function that changes nothing the second time
/// gives what mapping once gives.
pub proof fn lemma_map_pixels_idempotent(r: Raster, f: spec_fn(u8, u8, u8) -> (u8, u8, u8))
    requires
        r.data.len() % 3 == 0,
        forall|a: u8, b: u8, c: u8|
            f((#[trigger] f(a, b, c)).0, f(a, b, c).1, f(a, b, c).2) == f(a, b, c),
    ensures
        r.map_pixels(f).map_pixels(f) == r.map_pixels(f),
{
    let once = r.map_pixels(f);
    let twice = once.map_pixels(f);
    assert forall|i: int| 0 <= i < once.data.len() implies twice.data[i] == once.data[i] by {
        let k = i - i % 3;
        let p = f(r.data[k], r.data[k + 1], r.data[k + 2]);
        assert(once.data[k] == p.0 && once.data[k + 1] == p.1 && once.data[k + 2] == p.2);
        assert(f(p.0, p.1, p.2) == p);
    }
    assert(twice.data =~= once.data);
}

/// A well-formed image holds a whole number of pixels.
pub proof fn lemma_whole_pixels(r: Raster)
    requires
        r.wf(),
    ensures
        r.data.len() % 3 == 0,
        r.data.len() == 3 * (r.width * r.height),
{
    assert(3 * r.width * r.height == 3 * (r.width * r.height)) by (nonlinear_arith);
}

/// An owned RGB image: `width * height` pixels of three bytes each.
pub struct PixelBuffer {
    pub(crate) width: u32,
    pub(crate) height: u32,
    pub(crate) data: Vec<u8>,
}

impl View for PixelBuffer {
    type V = Raster;

    closed spec fn view(&self) -> Raster {
        Raster { width: self.width as nat, height: self.height as nat, data: self.data@ }
    }
}

impl PixelBuffer {
    #[verifier::type_invariant]
    spec fn inv(self) -> bool {
        self.data@.len() == 3 * self.width * self.height
    }

    /// Builds a buffer from raw bytes; `None` unless `data` holds exactly
    /// three bytes for each of the `width * height` pixels.
    pub fn new(width: u32, height: u32, data: Vec<u8>) -> (r: Option<PixelBuffer>)
        ensures
            r is Some <==> data@.len() == 3 * width * height,
            r matches Some(b) ==> b@ == (Raster {
                width: width as nat,
                height: height as nat,
                data: data@,
            }),
    {
        assert(width * height <= 0xFFFF_FFFE_0000_0001) by (nonlinear_arith)
            requires
                0 <= width <= 0xFFFF_FFFF,
                0 <= height <= 0xFFFF_FFFF,
        ;
        assert(3 * width * height == 3 * (width * height)) by (nonlinear_arith);
        let pixels: u64 = (width as u64) * (height as u64);
        let wanted: u128 = 3 * (pixels as u128);
        if data.len() as u128 == wanted {
            Some(PixelBuffer { width, height, data })
        } else {
            None
        }
    }

    /// Builds a buffer from bytes known to fit the shape.
    pub(crate) fn assemble(width: u32, height: u32, data: Vec<u8>) -> (b: PixelBuffer)
        requires
            data@.len() == 3 * width * height,
        ensures
            b@ == (Raster { width: width as nat, height: height as nat, data: data@ }),
            b@.wf(),
    {
        PixelBuffer { width, height, data }
    }

    /// Width in pixels.
    pub fn width(&self) -> (w: u32)
        ensures
            w == self@.width,
            self@.wf(),
    {
        proof {
            use_type_invariant(self);
        }
        self.width
    }

    /// Height in pixels.
    pub fn height(&self) -> (h: u32)
        ensures
            h == self@.height,
            self@.wf(),
    {
        proof {
            use_type_invariant(self);
        }
        self.height
    }

    /// The bytes of the image, three per pixel, row by row.
    pub fn data(&self) -> (d: &Vec<u8>)
        ensures
            d@ == self@.data,
            self@.wf(),
    {
        proof {
            use_type_invariant(self);
        }
        &self.data
    }

    /// The pixel at `(x, y)`.
    pub fn pixel_at(&self, x: u32, y: u32) -> (p: (u8, u8, u8))
        requires
            self@.contains(x as int, y as int),
        ensures
            p == self@.pixel(x as int, y as int),
    {
        proof {
            use_type_invariant(self);
            let w = self.width as int;
            let h = self.height as int;
            assert(0 <= y * w && y * w + w <= h * w) by (nonlinear_arith)
                requires
                    0 <= y < h,
                    0 < w,
            ;
            assert(3 * w * h == 3 * (h * w)) by (nonlinear_arith);
            assert(self.data@.len() == 3 * w * h);
        }
        let n: usize = self.data.len();
        assert(3 * (y * self.width + x) + 2 < n);
        let row: usize = (y as usize) * (self.width as usize);
        let at: usize = 3 * (row + (x as usize));
        (self.data[at], self.data[at + 1], self.data[at + 2])
    }

    /// A copy of the buffer.
    pub fn duplicate(&self) -> (out: PixelBuffer)
        ensures
            out@ == self@,
            out@.wf(),
    {
        proof {
            use_type_invariant(self);
        }
        let data = self.data.clone();
        assert(data@ =~= self.data@);
        PixelBuffer { width: self.width, height: self.height, data }
    }

    /// Gives up the buffer for its bytes.
    pub fn into_data(self) -> (d: Vec<u8>)
        ensures
            d@ == self@.data,
            self@.wf(),
    {
        proof {
            use_type_invariant(&self);
        }
        self.data
    }
}

} // verus!
