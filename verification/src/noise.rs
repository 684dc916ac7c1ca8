//! Noise reduction: every pixel becomes the average of its neighbourhood,
//! each neighbour weighed by how near it lies and how alike it is.
//!
//! The cost grows with the square of the radius: each pixel visits
//! `(2 * radius + 1)^2` neighbours, where every other filter of this crate
//! visits at most nine.

use vstd::prelude::*;
use crate::buffer::{lemma_offset, PixelBuffer, Raster};
use crate::fixed::{
    byte_floor, clamp_i64, clamp_int, lemma_floor_bounds, product, small_product, to_byte, PERCENT,
};

verus! {

/// Largest radius of a neighbourhood.
pub const RADIUS_MAX: u32 = 1024;

/// The weights of a bilateral filter. A neighbour at the offset `(dx, dy)`
/// has the spatial weight at index `dx * dx + dy * dy`; a neighbour whose
/// channels differ from the centre by `d` in total has the intensity weight
/// at index `d`.
pub struct BilateralKernel {
    pub(crate) radius: u32,
    pub(crate) spatial: Vec<u32>,
    pub(crate) intensity: Vec<u32>,
}

/// Mathematical model of a bilateral kernel.
pub struct KernelModel {
    pub radius: int,
    pub spatial: Seq<u32>,
    pub intensity: Seq<u32>,
}

impl KernelModel {
    /// The radius is within bounds and both tables cover every index that
    /// can occur.
    pub open spec fn wf(self) -> bool {
        &&& 0 <= self.radius <= RADIUS_MAX
        &&& self.spatial.len() == 2 * self.radius * self.radius + 1
        &&& self.intensity.len() == 766
    }
}

impl View for BilateralKernel {
    type V = KernelModel;

    closed spec fn view(&self) -> KernelModel {
        KernelModel {
            radius: self.radius as int,
            spatial: self.spatial@,
            intensity: self.intensity@,
        }
    }
}

/// The radius that belongs to a strength in percent (in millionths): one
/// plus three hundredths of the strength, rounded down.
pub open spec fn radius_of(strength: int) -> int {
    (3 * strength + PERCENT) / (PERCENT as int)
}

/// Largest strength, in millionths of a percent, whose radius is at most
/// `RADIUS_MAX`.
pub const STRENGTH_MAX: i64 = 34_133_333_333;

/// Numerator and denominator of what a neighbour at the squared distance
/// `d2` loses in spatial weight: its weight is the exponential of minus
/// `d2 / (2 sigma^2)`, with the deviation `sigma` one half plus two
/// hundredths of the strength.
pub open spec fn spatial_exponent(strength: int, d2: int) -> (int, int) {
    (
        d2 * 10_000_000_000_000_000,
        2 * ((2 * strength + 50_000_000) * (2 * strength + 50_000_000)),
    )
}

/// Numerator and denominator of what a neighbour whose channels differ by
/// `d` in total loses in intensity weight: its weight is the exponential of
/// minus `m^2 / (2 sigma^2)`, with `m` the mean difference `d / 3` and the
/// deviation `sigma` ten plus thirty hundredths of the strength.
pub open spec fn intensity_exponent(strength: int, d: int) -> (int, int) {
    (
        d * d * 10_000_000_000_000_000,
        18 * ((30 * strength + 1_000_000_000) * (30 * strength + 1_000_000_000)),
    )
}

/// The total by which the channels of two pixels differ.
pub open spec fn difference(a: (u8, u8, u8), b: (u8, u8, u8)) -> int {
    (if a.0 >= b.0 {
        a.0 - b.0
    } else {
        b.0 - a.0
    }) + (if a.1 >= b.1 {
        a.1 - b.1
    } else {
        b.1 - a.1
    }) + (if a.2 >= b.2 {
        a.2 - b.2
    } else {
        b.2 - a.2
    })
}

/// The neighbour of `(x, y)` at the offset `(dx, dy)`, with coordinates
/// that leave the image moved to its nearest rim.
pub open spec fn neighbour(src: Raster, x: int, y: int, dx: int, dy: int) -> (u8, u8, u8) {
    src.pixel(clamp_int(x + dx, 0, src.width - 1), clamp_int(y + dy, 0, src.height - 1))
}

/// The weight of the neighbour of `(x, y)` at the offset `(dx, dy)`: its
/// spatial weight times its intensity weight.
pub open spec fn weight(src: Raster, k: KernelModel, x: int, y: int, dx: int, dy: int) -> int {
    k.spatial[dx * dx + dy * dy] * k.intensity[difference(
        src.pixel(x, y),
        neighbour(src, x, y, dx, dy),
    )]
}

/// What one neighbour adds to sum `c`: for `c` below three its channel `c`
/// times its weight, else its weight alone.
pub open spec fn term(
    src: Raster,
    k: KernelModel,
    x: int,
    y: int,
    c: int,
    dx: int,
    dy: int,
) -> int {
    let w = weight(src, k, x, y, dx, dy);
    if c == 0 {
        neighbour(src, x, y, dx, dy).0 * w
    } else if c == 1 {
        neighbour(src, x, y, dx, dy).1 * w
    } else if c == 2 {
        neighbour(src, x, y, dx, dy).2 * w
    } else {
        w
    }
}

/// Sum `c` over the first `n` neighbours, from the left, of the row at the
/// offset `dy`.
pub open spec fn row_sum(
    src: Raster,
    k: KernelModel,
    x: int,
    y: int,
    c: int,
    dy: int,
    n: int,
) -> int
    decreases n,
{
    if n <= 0 {
        0
    } else {
        row_sum(src, k, x, y, c, dy, n - 1) + term(src, k, x, y, c, n - 1 - k.radius, dy)
    }
}

/// Sum `c` over the first `m` rows, from the top, of the neighbourhood.
pub open spec fn window_sum(src: Raster, k: KernelModel, x: int, y: int, c: int, m: int) -> int
    decreases m,
{
    if m <= 0 {
        0
    } else {
        window_sum(src, k, x, y, c, m - 1) + row_sum(
            src,
            k,
            x,
            y,
            c,
            m - 1 - k.radius,
            2 * k.radius + 1,
        )
    }
}

/// The pixel at `(x, y)` after noise reduction: each channel the weighted
/// average over the neighbourhood, rounded down; the pixel itself where the
/// weights sum to zero.
pub open spec fn denoised_pixel(src: Raster, k: KernelModel, x: int, y: int) -> (u8, u8, u8) {
    let side = 2 * k.radius + 1;
    let total = window_sum(src, k, x, y, 3, side);
    if total > 0 {
        (
            byte_floor(window_sum(src, k, x, y, 0, side), total),
            byte_floor(window_sum(src, k, x, y, 1, side), total),
            byte_floor(window_sum(src, k, x, y, 2, side), total),
        )
    } else {
        src.pixel(x, y)
    }
}

/// The image after noise reduction.
pub open spec fn denoised(src: Raster, k: KernelModel) -> Raster {
    Raster::from_fn(src.width, src.height, |x: int, y: int| denoised_pixel(src, k, x, y))
}

/// The radius that belongs to a strength in percent (in millionths).
pub fn noise_radius(strength: i64) -> (r: i64)
    requires
        0 <= strength,
    ensures
        r == radius_of(strength as int),
        r >= 1,
{
    let n: u128 = 3 * (strength as u128) + PERCENT as u128;
    let q: u128 = n / (PERCENT as u128);
    proof {
        lemma_floor_bounds(n as int, PERCENT as int);
    }
    q as i64
}

/// What a neighbour at the squared distance `d2` loses in spatial weight,
/// as a fraction to take the exponential of.
pub fn spatial_loss(strength: i64, d2: u32) -> (r: (u128, u128))
    requires
        0 < strength <= STRENGTH_MAX,
    ensures
        (r.0 as int, r.1 as int) == spatial_exponent(strength as int, d2 as int),
        r.1 > 0,
{
    let s: u128 = 2 * (strength as u128) + 50_000_000;
    assert(0 < s * s <= 0x20_0000_0000 * 0x20_0000_0000) by (nonlinear_arith)
        requires
            0 < s <= 0x20_0000_0000,
    ;
    ((d2 as u128) * 10_000_000_000_000_000, 2 * (s * s))
}

/// What a neighbour whose channels differ by `d` in total loses in
/// intensity weight, as a fraction to take the exponential of.
pub fn intensity_loss(strength: i64, d: u16) -> (r: (u128, u128))
    requires
        0 < strength <= STRENGTH_MAX,
    ensures
        (r.0 as int, r.1 as int) == intensity_exponent(strength as int, d as int),
        r.1 > 0,
{
    let s: u128 = 30 * (strength as u128) + 1_000_000_000;
    assert(0 < s * s <= 0x200_0000_0000 * 0x200_0000_0000) by (nonlinear_arith)
        requires
            0 < s <= 0x200_0000_0000,
    ;
    assert(d * d <= 0xFFFF * 0xFFFF) by (nonlinear_arith)
        requires
            0 <= d <= 0xFFFF,
    ;
    let dd: u128 = (d as u128) * (d as u128);
    (dd * 10_000_000_000_000_000, 18 * (s * s))
}

impl BilateralKernel {
    #[verifier::type_invariant]
    spec fn inv(self) -> bool {
        &&& self.radius <= RADIUS_MAX
        &&& self.spatial@.len() == 2 * self.radius * self.radius + 1
        &&& self.intensity@.len() == 766
    }

    /// Builds a kernel; `None` unless the radius is at most `RADIUS_MAX`,
    /// `spatial` has `2 * radius^2 + 1` entries and `intensity` has 766.
    pub fn new(radius: u32, spatial: Vec<u32>, intensity: Vec<u32>) -> (r: Option<BilateralKernel>)
        ensures
            r is Some <==> (KernelModel {
                radius: radius as int,
                spatial: spatial@,
                intensity: intensity@,
            }).wf(),
            r matches Some(k) ==> k@ == (KernelModel {
                radius: radius as int,
                spatial: spatial@,
                intensity: intensity@,
            }),
    {
        if radius > RADIUS_MAX {
            return None;
        }
        let need: u64 = 2 * (small_product(radius as i128, radius as i128) as u64) + 1;
        assert(need == 2 * radius * radius + 1) by (nonlinear_arith)
            requires
                need == 2 * (radius * radius) + 1,
        ;
        if spatial.len() as u64 == need && intensity.len() == 766 {
            Some(BilateralKernel { radius, spatial, intensity })
        } else {
            None
        }
    }

    /// The radius of the neighbourhood.
    pub fn radius(&self) -> (r: u32)
        ensures
            r == self@.radius,
            self@.wf(),
    {
        proof {
            use_type_invariant(self);
        }
        self.radius
    }
}

/// The total by which the channels of two pixels differ.
pub fn pixel_difference(a: (u8, u8, u8), b: (u8, u8, u8)) -> (d: u16)
    ensures
        d == difference(a, b),
        d <= 765,
{
    let r: u16 = if a.0 >= b.0 {
        (a.0 - b.0) as u16
    } else {
        (b.0 - a.0) as u16
    };
    let g: u16 = if a.1 >= b.1 {
        (a.1 - b.1) as u16
    } else {
        (b.1 - a.1) as u16
    };
    let bl: u16 = if a.2 >= b.2 {
        (a.2 - b.2) as u16
    } else {
        (b.2 - a.2) as u16
    };
    r + g + bl
}

impl BilateralKernel {
    /// The weight of a neighbour at the offset `(dx, dy)` whose channels
    /// differ from the centre by `d` in total.
    fn weight_at(&self, dx: i64, dy: i64, d: u16) -> (w: i128)
        requires
            -self@.radius <= dx <= self@.radius,
            -self@.radius <= dy <= self@.radius,
            d <= 765,
        ensures
            w == self@.spatial[dx * dx + dy * dy] * self@.intensity[d as int],
            0 <= w <= 0x1_0000_0000_0000_0000,
    {
        proof {
            use_type_invariant(self);
        }
        let r: i64 = self.radius as i64;
        let xx: i128 = small_product(dx as i128, dx as i128);
        let yy: i128 = small_product(dy as i128, dy as i128);
        assert(0 <= xx <= r * r && 0 <= yy <= r * r) by (nonlinear_arith)
            requires
                xx == dx * dx,
                yy == dy * dy,
                -r <= dx <= r,
                -r <= dy <= r,
        ;
        assert(2 * r * r == r * r + r * r) by (nonlinear_arith);
        assert(r * r <= 1024 * 1024) by (nonlinear_arith)
            requires
                0 <= r <= 1024,
        ;
        let at: usize = (xx + yy) as usize;
        let s: u32 = self.spatial[at];
        let t: u32 = self.intensity[d as usize];
        assert(0 <= s * t <= 0x1_0000_0000_0000_0000) by (nonlinear_arith)
            requires
                0 <= s <= 0xFFFF_FFFF,
                0 <= t <= 0xFFFF_FFFF,
        ;
        (s as i128) * (t as i128)
    }
}

impl PixelBuffer {
    /// The pixel at `(x, y)` after noise reduction.
    pub fn denoise_pixel(&self, k: &BilateralKernel, x: u32, y: u32) -> (p: (u8, u8, u8))
        requires
            self@.contains(x as int, y as int),
        ensures
            p == denoised_pixel(self@, k@, x as int, y as int),
    {
        let width = self.width();
        let height = self.height();
        let r: i64 = k.radius() as i64;
        let side: i64 = 2 * r + 1;
        let centre = self.pixel_at(x, y);
        let mut sums: (i128, i128, i128, i128) = (0, 0, 0, 0);
        let mut j: i64 = 0;
        while j < side
            invariant
                0 <= j <= side,
                side == 2 * r + 1,
                r == k@.radius,
                k@.wf(),
                width == self@.width,
                height == self@.height,
                self@.contains(x as int, y as int),
                centre == self@.pixel(x as int, y as int),
                sums.0 == window_sum(self@, k@, x as int, y as int, 0, j as int),
                sums.1 == window_sum(self@, k@, x as int, y as int, 1, j as int),
                sums.2 == window_sum(self@, k@, x as int, y as int, 2, j as int),
                sums.3 == window_sum(self@, k@, x as int, y as int, 3, j as int),
                0 <= sums.0 <= j * 0x1000_0000_0000_0000_0000_0000,
                0 <= sums.1 <= j * 0x1000_0000_0000_0000_0000_0000,
                0 <= sums.2 <= j * 0x1000_0000_0000_0000_0000_0000,
                0 <= sums.3 <= j * 0x1000_0000_0000_0000_0000_0000,
            decreases side - j,
        {
            let dy: i64 = j - r;
            let ny: u32 = clamp_i64(y as i64 + dy, 0, height as i64 - 1) as u32;
            let mut row: (i128, i128, i128, i128) = (0, 0, 0, 0);
            let mut i: i64 = 0;
            while i < side
                invariant
                    0 <= i <= side,
                    side == 2 * r + 1,
                    r == k@.radius,
                    dy == j - r,
                    0 <= j < side,
                    k@.wf(),
                    width == self@.width,
                    height == self@.height,
                    self@.contains(x as int, y as int),
                    centre == self@.pixel(x as int, y as int),
                    ny == clamp_int(y + dy, 0, height - 1),
                    row.0 == row_sum(self@, k@, x as int, y as int, 0, dy as int, i as int),
                    row.1 == row_sum(self@, k@, x as int, y as int, 1, dy as int, i as int),
                    row.2 == row_sum(self@, k@, x as int, y as int, 2, dy as int, i as int),
                    row.3 == row_sum(self@, k@, x as int, y as int, 3, dy as int, i as int),
                    0 <= row.0 <= i * 0x1_0000_0000_0000_0000_0000,
                    0 <= row.1 <= i * 0x1_0000_0000_0000_0000_0000,
                    0 <= row.2 <= i * 0x1_0000_0000_0000_0000_0000,
                    0 <= row.3 <= i * 0x1_0000_0000_0000_0000_0000,
                decreases side - i,
            {
                let dx: i64 = i - r;
                let nx: u32 = clamp_i64(x as i64 + dx, 0, width as i64 - 1) as u32;
                let n = self.pixel_at(nx, ny);
                assert(n == neighbour(self@, x as int, y as int, dx as int, dy as int));
                let d = pixel_difference(centre, n);
                let w: i128 = k.weight_at(dx, dy, d);
                assert(w == weight(self@, k@, x as int, y as int, dx as int, dy as int));
                let a = product(n.0 as i128, w);
                let b = product(n.1 as i128, w);
                let c = product(n.2 as i128, w);
                assert(0 <= a <= 0x1_0000_0000_0000_0000_0000 && 0 <= b
                    <= 0x1_0000_0000_0000_0000_0000 && 0 <= c <= 0x1_0000_0000_0000_0000_0000)
                    by (nonlinear_arith)
                    requires
                        a == n.0 * w,
                        b == n.1 * w,
                        c == n.2 * w,
                        0 <= w <= 0x1_0000_0000_0000_0000,
                        0 <= n.0 <= 255,
                        0 <= n.1 <= 255,
                        0 <= n.2 <= 255,
                ;
                row = (row.0 + a, row.1 + b, row.2 + c, row.3 + w);
                i += 1;
            }
            sums = (sums.0 + row.0, sums.1 + row.1, sums.2 + row.2, sums.3 + row.3);
            j += 1;
        }
        if sums.3 > 0 {
            (to_byte(sums.0, sums.3), to_byte(sums.1, sums.3), to_byte(sums.2, sums.3))
        } else {
            centre
        }
    }

    /// Reduces noise with the weights of `k`.
    pub fn reduce_noise(&self, k: &BilateralKernel) -> (out: PixelBuffer)
        ensures
            out@ == denoised(self@, k@),
            out@.wf(),
            out@.same_shape(self@),
    {
        let width = self.width();
        let height = self.height();
        let ghost want = denoised(self@, k@);
        let mut data: Vec<u8> = Vec::with_capacity(self.data().len());
        let mut y: u32 = 0;
        while y < height
            invariant
                y <= height,
                width == self@.width,
                height == self@.height,
                self@.wf(),
                want == denoised(self@, k@),
                data@.len() == 3 * (y * width),
                forall|j: int| 0 <= j < data@.len() ==> data@[j] == want.data[j],
            decreases height - y,
        {
            let mut x: u32 = 0;
            while x < width
                invariant
                    x <= width,
                    y < height,
                    width == self@.width,
                    height == self@.height,
                    self@.wf(),
                    want == denoised(self@, k@),
                    data@.len() == 3 * (y * width + x),
                    forall|j: int| 0 <= j < data@.len() ==> data@[j] == want.data[j],
                decreases width - x,
            {
                let p = self.denoise_pixel(k, x, y);
                proof {
                    lemma_offset(want, x as int, y as int, 0);
                    lemma_offset(want, x as int, y as int, 1);
                    lemma_offset(want, x as int, y as int, 2);
                }
                data.push(p.0);
                data.push(p.1);
                data.push(p.2);
                x += 1;
            }
            assert((y + 1) * width == y * width + width) by (nonlinear_arith);
            y += 1;
        }
        assert(3 * width * height == 3 * (height * width)) by (nonlinear_arith);
        assert(data@ =~= want.data);
        PixelBuffer::assemble(width, height, data)
    }
}

} // verus!
