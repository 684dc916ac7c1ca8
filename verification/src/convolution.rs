//! Filters that set each pixel from its 3 by 3 neighbourhood.

use vstd::prelude::*;
use crate::buffer::{lemma_from_fn_pixel, lemma_offset, PixelBuffer, Raster};
use crate::fixed::{byte_floor, product, to_byte, UNIT};

verus! {

/// Largest magnitude of a kernel weight.
pub const WEIGHT_MAX: i128 = 0x40_0000_0000_0000_0000;

/// Nine weights in millionths, row by row from the top left, and a bias in
/// whole steps of a channel.
#[derive(Clone, Copy, Debug)]
pub struct Kernel {
    pub weights: [i128; 9],
    pub bias: u8,
}

/// What a filter does with the pixels on the rim of the image, which lack a
/// full neighbourhood.
#[derive(Clone, Copy, Debug, PartialEq, Eq, Structural)]
pub enum Border {
    /// They keep the value they have in the source.
    Source,
    /// They become mid grey.
    Gray,
}

impl Kernel {
    /// Every weight is within `WEIGHT_MAX` of zero.
    pub open spec fn wf(self) -> bool {
        forall|i: int| 0 <= i < 9 ==> -WEIGHT_MAX <= #[trigger] self.weights[i] <= WEIGHT_MAX
    }
}

/// `(x, y)` has all eight neighbours inside the image.
pub open spec fn interior(src: Raster, x: int, y: int) -> bool {
    1 <= x < src.width - 1 && 1 <= y < src.height - 1
}

/// The sum of nine values, each times its weight.
pub open spec fn dot(v: Seq<u8>, k: Kernel) -> int {
    v[0] * k.weights[0] + v[1] * k.weights[1] + v[2] * k.weights[2] + v[3] * k.weights[3] + v[4]
        * k.weights[4] + v[5] * k.weights[5] + v[6] * k.weights[6] + v[7] * k.weights[7] + v[8]
        * k.weights[8]
}

/// Channel `c` of the nine pixels around and at `(x, y)`, row by row from
/// the top left.
pub open spec fn neighbourhood(src: Raster, x: int, y: int, c: int) -> Seq<u8> {
    seq![
        src.channel(x - 1, y - 1, c),
        src.channel(x, y - 1, c),
        src.channel(x + 1, y - 1, c),
        src.channel(x - 1, y, c),
        src.channel(x, y, c),
        src.channel(x + 1, y, c),
        src.channel(x - 1, y + 1, c),
        src.channel(x, y + 1, c),
        src.channel(x + 1, y + 1, c),
    ]
}

/// The sum over the neighbourhood of `(x, y)` of channel `c` times weight,
/// in millionths.
pub open spec fn weighted_sum(src: Raster, x: int, y: int, c: int, k: Kernel) -> int {
    dot(neighbourhood(src, x, y, c), k)
}

/// Channel `c` of an inner pixel after the filter: the weighted sum plus
/// the bias, limited to a byte and rounded down.
pub open spec fn convolved(src: Raster, x: int, y: int, c: int, k: Kernel) -> u8 {
    byte_floor(weighted_sum(src, x, y, c, k) + k.bias * UNIT, UNIT as int)
}

/// The pixel at `(x, y)` after the filter.
pub open spec fn filtered(src: Raster, x: int, y: int, k: Kernel, border: Border) -> (u8, u8, u8) {
    if interior(src, x, y) {
        (convolved(src, x, y, 0, k), convolved(src, x, y, 1, k), convolved(src, x, y, 2, k))
    } else {
        match border {
            Border::Source => src.pixel(x, y),
            Border::Gray => (128u8, 128u8, 128u8),
        }
    }
}

/// The kernel that sharpens by `amount` (in millionths): minus `amount` on
/// the four direct neighbours, one plus four times `amount` at the centre.
pub open spec fn sharpen_kernel(amount: int) -> Kernel {
    Kernel {
        weights: [
            0i128,
            (-amount) as i128,
            0i128,
            (-amount) as i128,
            (UNIT + 4 * amount) as i128,
            (-amount) as i128,
            0i128,
            (-amount) as i128,
            0i128,
        ],
        bias: 0,
    }
}

/// The kernel that embosses towards the lower right, around mid grey.
pub open spec fn emboss_kernel() -> Kernel {
    Kernel {
        weights: [
            -2_000_000i128,
            -1_000_000i128,
            0i128,
            -1_000_000i128,
            1_000_000i128,
            1_000_000i128,
            0i128,
            1_000_000i128,
            2_000_000i128,
        ],
        bias: 128,
    }
}

/// Nine values weighed by a kernel: their weighted sum plus the bias,
/// limited to a byte and rounded down.
pub fn weigh(v: &[u8; 9], k: &Kernel) -> (r: u8)
    requires
        k.wf(),
    ensures
        r == byte_floor(dot(v@, *k) + k.bias * UNIT, UNIT as int),
{
    let mut sum: i128 = k.bias as i128 * (UNIT as i128);
    let mut i: usize = 0;
    let ghost terms = |j: int| v@[j] * k.weights[j];
    while i < 9
        invariant
            i <= 9,
            k.wf(),
            terms == |j: int| v@[j] * k.weights[j],
            -(i as int) * 0x1_0000_0000_0000 * 0x40_0000_0000_0000_0000 <= sum - k.bias * UNIT <= i
                * 0x1_0000_0000_0000 * 0x40_0000_0000_0000_0000,
            sum - k.bias * UNIT == (if i > 0 {
                terms(0)
            } else {
                0
            }) + (if i > 1 {
                terms(1)
            } else {
                0
            }) + (if i > 2 {
                terms(2)
            } else {
                0
            }) + (if i > 3 {
                terms(3)
            } else {
                0
            }) + (if i > 4 {
                terms(4)
            } else {
                0
            }) + (if i > 5 {
                terms(5)
            } else {
                0
            }) + (if i > 6 {
                terms(6)
            } else {
                0
            }) + (if i > 7 {
                terms(7)
            } else {
                0
            }) + (if i > 8 {
                terms(8)
            } else {
                0
            }),
        decreases 9 - i,
    {
        let t = product(v[i] as i128, k.weights[i]);
        sum = sum + t;
        i += 1;
    }
    to_byte(sum, UNIT as i128)
}

impl PixelBuffer {
    /// The pixel at `(x, y)` after a 3 by 3 filter.
    pub fn filter_pixel(&self, x: u32, y: u32, k: &Kernel, border: Border) -> (p: (u8, u8, u8))
        requires
            self@.contains(x as int, y as int),
            k.wf(),
        ensures
            p == filtered(self@, x as int, y as int, *k, border),
    {
        let width = self.width();
        let height = self.height();
        if x >= 1 && y >= 1 && x + 1 < width && y + 1 < height {
            let a = self.pixel_at(x - 1, y - 1);
            let b = self.pixel_at(x, y - 1);
            let c = self.pixel_at(x + 1, y - 1);
            let d = self.pixel_at(x - 1, y);
            let e = self.pixel_at(x, y);
            let f = self.pixel_at(x + 1, y);
            let g = self.pixel_at(x - 1, y + 1);
            let h = self.pixel_at(x, y + 1);
            let i = self.pixel_at(x + 1, y + 1);
            let red = [a.0, b.0, c.0, d.0, e.0, f.0, g.0, h.0, i.0];
            let green = [a.1, b.1, c.1, d.1, e.1, f.1, g.1, h.1, i.1];
            let blue = [a.2, b.2, c.2, d.2, e.2, f.2, g.2, h.2, i.2];
            assert(red@ =~= neighbourhood(self@, x as int, y as int, 0));
            assert(green@ =~= neighbourhood(self@, x as int, y as int, 1));
            assert(blue@ =~= neighbourhood(self@, x as int, y as int, 2));
            (weigh(&red, k), weigh(&green, k), weigh(&blue, k))
        } else {
            match border {
                Border::Source => self.pixel_at(x, y),
                Border::Gray => (128, 128, 128),
            }
        }
    }

    /// The image after a 3 by 3 filter: every inner pixel is the weighted
    /// sum of its neighbourhood, every pixel on the rim follows `border`.
    pub fn convolve(&self, k: &Kernel, border: Border) -> (out: PixelBuffer)
        requires
            k.wf(),
        ensures
            out@ == Raster::from_fn(
                self@.width,
                self@.height,
                |x: int, y: int| filtered(self@, x, y, *k, border),
            ),
            out@.wf(),
            out@.same_shape(self@),
    {
        let width = self.width();
        let height = self.height();
        let ghost want = Raster::from_fn(
            self@.width,
            self@.height,
            |x: int, y: int| filtered(self@, x, y, *k, border),
        );
        let mut data: Vec<u8> = Vec::with_capacity(self.data().len());
        let mut y: u32 = 0;
        while y < height
            invariant
                y <= height,
                width == self@.width,
                height == self@.height,
                k.wf(),
                self@.wf(),
                want == Raster::from_fn(
                    self@.width,
                    self@.height,
                    |x: int, y: int| filtered(self@, x, y, *k, border),
                ),
                data@.len() == 3 * (y * width),
                forall|j: int| 0 <= j < data@.len() ==> data@[j] == want.data[j],
            decreases height - y,
        {
            let mut x: u32 = 0;
            while x < width
                invariant
                    x <= width,
                    y < height,
                    width == self@.width,
                    height == self@.height,
                    k.wf(),
                    self@.wf(),
                    want == Raster::from_fn(
                        self@.width,
                        self@.height,
                        |x: int, y: int| filtered(self@, x, y, *k, border),
                    ),
                    data@.len() == 3 * (y * width + x),
                    forall|j: int| 0 <= j < data@.len() ==> data@[j] == want.data[j],
                decreases width - x,
            {
                let p = self.filter_pixel(x, y, k, border);
                proof {
                    lemma_offset(want, x as int, y as int, 0);
                    lemma_offset(want, x as int, y as int, 1);
                    lemma_offset(want, x as int, y as int, 2);
                }
                data.push(p.0);
                data.push(p.1);
                data.push(p.2);
                x += 1;
            }
            assert((y + 1) * width == y * width + width) by (nonlinear_arith);
            y += 1;
        }
        assert(3 * width * height == 3 * (height * width)) by (nonlinear_arith);
        assert(data@ =~= want.data);
        PixelBuffer::assemble(width, height, data)
    }
}

/// The image sharpened by `amount` (in millionths): unchanged unless
/// `amount` is positive; else every inner pixel weighed by the sharpening
/// kernel and every pixel on the rim kept.
pub open spec fn sharpened(src: Raster, amount: int) -> Raster {
    if amount <= 0 {
        src
    } else {
        Raster::from_fn(
            src.width,
            src.height,
            |x: int, y: int| filtered(src, x, y, sharpen_kernel(amount), Border::Source),
        )
    }
}

/// The image embossed: every inner pixel weighed by the embossing kernel,
/// every pixel on the rim mid grey.
pub open spec fn embossed(src: Raster) -> Raster {
    Raster::from_fn(
        src.width,
        src.height,
        |x: int, y: int| filtered(src, x, y, emboss_kernel(), Border::Gray),
    )
}

impl PixelBuffer {
    /// Sharpens by `amount` (in millionths).
    pub fn sharpen(&self, amount: i64) -> (out: PixelBuffer)
        ensures
            out@ == sharpened(self@, amount as int),
            out@.wf(),
            out@.same_shape(self@),
    {
        if amount <= 0 {
            return self.duplicate();
        }
        let a: i128 = amount as i128;
        let k = Kernel { weights: [0, -a, 0, -a, UNIT as i128 + 4 * a, -a, 0, -a, 0], bias: 0 };
        assert(k.weights@ =~= sharpen_kernel(amount as int).weights@);
        assert(k == sharpen_kernel(amount as int));
        assert(k.wf()) by {
            assert(k.weights[0] == 0 && k.weights[1] == -a && k.weights[2] == 0 && k.weights[3]
                == -a && k.weights[4] == UNIT + 4 * a && k.weights[5] == -a && k.weights[6] == 0
                && k.weights[7] == -a && k.weights[8] == 0);
        }
        self.convolve(&k, Border::Source)
    }

    /// Embosses.
    pub fn apply_emboss(&self) -> (out: PixelBuffer)
        ensures
            out@ == embossed(self@),
            out@.wf(),
            out@.same_shape(self@),
    {
        let k = Kernel {
            weights: [
                -2_000_000,
                -1_000_000,
                0,
                -1_000_000,
                1_000_000,
                1_000_000,
                0,
                1_000_000,
                2_000_000,
            ],
            bias: 128,
        };
        assert(k.weights@ =~= emboss_kernel().weights@);
        assert(k == emboss_kernel());
        assert(k.wf()) by {
            assert(k.weights[0] == -2_000_000 && k.weights[1] == -1_000_000 && k.weights[2] == 0
                && k.weights[3] == -1_000_000 && k.weights[4] == 1_000_000 && k.weights[5]
                == 1_000_000 && k.weights[6] == 0 && k.weights[7] == 1_000_000 && k.weights[8]
                == 2_000_000);
        }
        self.convolve(&k, Border::Gray)
    }
}

/// Sharpening by a positive amount keeps every pixel on the rim, and sets
/// each channel of an inner pixel to the channel plus `amount` times its
/// excess over the mean of the four direct neighbours, four times over.
pub proof fn lemma_sharpened_pixel(src: Raster, amount: int, x: int, y: int, c: int)
    requires
        src.wf(),
        src.contains(x, y),
        0 < amount <= i64::MAX,
        0 <= c < 3,
    ensures
        !interior(src, x, y) ==> sharpened(src, amount).pixel(x, y) == src.pixel(x, y),
        interior(src, x, y) ==> crate::buffer::component(sharpened(src, amount).pixel(x, y), c)
            == byte_floor(
            src.channel(x, y, c) * UNIT + amount * (4 * src.channel(x, y, c) - src.channel(
                x,
                y - 1,
                c,
            ) - src.channel(x - 1, y, c) - src.channel(x + 1, y, c) - src.channel(x, y + 1, c)),
            UNIT as int,
        ),
{
    let k = sharpen_kernel(amount);
    lemma_from_fn_pixel(
        src.width,
        src.height,
        |x: int, y: int| filtered(src, x, y, k, Border::Source),
        x,
        y,
    );
    if interior(src, x, y) {
        let v = neighbourhood(src, x, y, c);
        assert(k.weights[0] == 0 && k.weights[1] == -amount && k.weights[2] == 0 && k.weights[3]
            == -amount && k.weights[4] == UNIT + 4 * amount && k.weights[5] == -amount
            && k.weights[6] == 0 && k.weights[7] == -amount && k.weights[8] == 0);
        assert(dot(v, k) == v[4] * UNIT + amount * (4 * v[4] - v[1] - v[3] - v[5] - v[7]))
            by (nonlinear_arith)
            requires
                dot(v, k) == v[0] * 0 + v[1] * (-amount) + v[2] * 0 + v[3] * (-amount) + v[4] * (
                UNIT + 4 * amount) + v[5] * (-amount) + v[6] * 0 + v[7] * (-amount) + v[8] * 0,
        ;
    }
}

/// Embossing turns every pixel on the rim mid grey.
pub proof fn lemma_embossed_rim(src: Raster, x: int, y: int)
    requires
        src.wf(),
        src.contains(x, y),
        !interior(src, x, y),
    ensures
        embossed(src).pixel(x, y) == (128u8, 128u8, 128u8),
{
    lemma_from_fn_pixel(
        src.width,
        src.height,
        |x: int, y: int| filtered(src, x, y, emboss_kernel(), Border::Gray),
        x,
        y,
    );
}

} // verus!
