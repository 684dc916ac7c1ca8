//! Rotation by any angle, with nearest-neighbour sampling on a canvas that
//! grows to hold the turned image.

use vstd::prelude::*;
use crate::buffer::{lemma_offset, PixelBuffer, Raster};
use crate::buffer::lemma_from_fn_pixel;
use crate::codec::{
    half_turn, half_turned, quarter_turn, quarter_turned, three_quarter_turn,
    three_quarter_turned,
};
use crate::fixed::{product, round_div, round_half_away, UNIT};

verus! {

/// A full turn in millionths of a degree.
pub const FULL_TURN: i64 = 360_000_000;

/// How near, in millionths of a degree, an angle must come to a multiple of
/// a quarter turn to be taken for it.
pub const SNAP: i64 = 100_000;

/// What a rotation by an angle amounts to.
#[derive(Clone, Copy, Debug, PartialEq, Eq, Structural)]
pub enum Turn {
    /// No rotation.
    Zero,
    /// A quarter turn clockwise.
    Quarter,
    /// Half a turn.
    Half,
    /// Three quarter turns clockwise.
    ThreeQuarter,
    /// A rotation that needs resampling.
    Free,
}

/// The remainder of `a` by `m` that has the sign of `a`.
pub open spec fn signed_rem(a: int, m: int) -> int {
    if a >= 0 {
        a % m
    } else {
        -((-a) % m)
    }
}

/// The distance between `a` and `b`.
pub open spec fn gap(a: int, b: int) -> int {
    if a >= b {
        a - b
    } else {
        b - a
    }
}

/// What a rotation by `angle` (in millionths of a degree) amounts to: the
/// angle is reduced by whole turns towards zero, and what remains counts as
/// a multiple of a quarter turn if it comes within a tenth of a degree of
/// it.
pub open spec fn turn_of(angle: int) -> Turn {
    let a = signed_rem(angle, FULL_TURN as int);
    if gap(a, 0) < SNAP {
        Turn::Zero
    } else if gap(a, 90_000_000) < SNAP {
        Turn::Quarter
    } else if gap(a, 180_000_000) < SNAP {
        Turn::Half
    } else if gap(a, 270_000_000) < SNAP {
        Turn::ThreeQuarter
    } else {
        Turn::Free
    }
}

/// The magnitude of `a`.
pub open spec fn magnitude(a: int) -> int {
    if a >= 0 {
        a
    } else {
        -a
    }
}

/// One side of the canvas: `along * |cos| + across * |sin|`, rounded up,
/// with cosine and sine in millionths.
pub open spec fn canvas_side(along: int, across: int, cos: int, sin: int) -> int {
    (along * magnitude(cos) + across * magnitude(sin) + UNIT - 1) / (UNIT as int)
}

/// The column of the source that the pixel `(x, y)` of a `width` by
/// `height` canvas is taken from: the pixel is moved so that the centre of
/// the canvas lies at the origin, turned back by the angle, moved so that
/// the origin lies at the centre of the source, and rounded to the nearest
/// column.
pub open spec fn source_x(
    src: Raster,
    width: int,
    height: int,
    cos: int,
    sin: int,
    x: int,
    y: int,
) -> int {
    round_half_away((2 * x - width) * cos + (2 * y - height) * sin + src.width * UNIT, 2 * UNIT)
}

/// The row of the source that the pixel `(x, y)` of the canvas is taken
/// from.
pub open spec fn source_y(
    src: Raster,
    width: int,
    height: int,
    cos: int,
    sin: int,
    x: int,
    y: int,
) -> int {
    round_half_away((2 * y - height) * cos - (2 * x - width) * sin + src.height * UNIT, 2 * UNIT)
}

/// The pixel `(x, y)` of the canvas: the source pixel it is taken from, or
/// white where that lies outside the source.
pub open spec fn turned_pixel(
    src: Raster,
    width: int,
    height: int,
    cos: int,
    sin: int,
    x: int,
    y: int,
) -> (u8, u8, u8) {
    let sx = source_x(src, width, height, cos, sin, x, y);
    let sy = source_y(src, width, height, cos, sin, x, y);
    if src.contains(sx, sy) {
        src.pixel(sx, sy)
    } else {
        (255u8, 255u8, 255u8)
    }
}

/// Cosine and sine are at most one in magnitude, and the canvas has sides
/// of at most 32 bits and a size that can be addressed.
pub open spec fn canvas_fits(src: Raster, cos: int, sin: int) -> bool {
    &&& -UNIT <= cos <= UNIT
    &&& -UNIT <= sin <= UNIT
    &&& canvas_side(src.width as int, src.height as int, cos, sin) <= u32::MAX
    &&& canvas_side(src.height as int, src.width as int, cos, sin) <= u32::MAX
    &&& 3 * (canvas_side(src.width as int, src.height as int, cos, sin) * canvas_side(
        src.height as int,
        src.width as int,
        cos,
        sin,
    )) <= usize::MAX
}

/// The source resampled on the canvas of a rotation with the given cosine
/// and sine (in millionths).
pub open spec fn resampled(src: Raster, cos: int, sin: int) -> Raster {
    let width = canvas_side(src.width as int, src.height as int, cos, sin);
    let height = canvas_side(src.height as int, src.width as int, cos, sin);
    Raster::from_fn(
        width as nat,
        height as nat,
        |x: int, y: int| turned_pixel(src, width, height, cos, sin, x, y),
    )
}

/// A rotation is refused where it needs resampling and the canvas does not
/// fit.
pub open spec fn rotation_refused(src: Raster, angle: int, cos: int, sin: int) -> bool {
    turn_of(angle) == Turn::Free && !canvas_fits(src, cos, sin)
}

/// The image rotated by `angle`, given the cosine and sine of the angle: a
/// multiple of a quarter turn moves the pixels without loss; any other
/// angle resamples the source, or leaves it as it is where the canvas does
/// not fit.
pub open spec fn rotated(src: Raster, angle: int, cos: int, sin: int) -> Raster {
    match turn_of(angle) {
        Turn::Zero => src,
        Turn::Quarter => quarter_turned(src),
        Turn::Half => half_turned(src),
        Turn::ThreeQuarter => three_quarter_turned(src),
        Turn::Free => if canvas_fits(src, cos, sin) {
            resampled(src, cos, sin)
        } else {
            src
        },
    }
}

/// Whether `a` comes within a tenth of a degree of `b`.
fn near(a: i64, b: i64) -> (r: bool)
    requires
        -FULL_TURN < a < FULL_TURN,
        0 <= b <= FULL_TURN,
    ensures
        r == (gap(a as int, b as int) < SNAP),
{
    if a >= b {
        a - b < SNAP
    } else {
        b - a < SNAP
    }
}

/// What a rotation by `angle` (in millionths of a degree) amounts to.
pub fn classify_turn(angle: i64) -> (t: Turn)
    ensures
        t == turn_of(angle as int),
{
    let wide: i128 = angle as i128;
    let size: u128 = if wide >= 0 {
        wide as u128
    } else {
        (-wide) as u128
    };
    let rest: i64 = (size % (FULL_TURN as u128)) as i64;
    let a: i64 = if angle >= 0 {
        rest
    } else {
        -rest
    };
    assert(a == signed_rem(angle as int, FULL_TURN as int));
    if near(a, 0) {
        Turn::Zero
    } else if near(a, 90_000_000) {
        Turn::Quarter
    } else if near(a, 180_000_000) {
        Turn::Half
    } else if near(a, 270_000_000) {
        Turn::ThreeQuarter
    } else {
        Turn::Free
    }
}

/// One side of the canvas, or `None` where it exceeds 32 bits.
fn side_of(along: u32, across: u32, cos: i64, sin: i64) -> (r: Option<u32>)
    requires
        -UNIT <= cos <= UNIT,
        -UNIT <= sin <= UNIT,
    ensures
        r is Some <==> canvas_side(along as int, across as int, cos as int, sin as int) <= u32::MAX,
        r matches Some(s) ==> s == canvas_side(along as int, across as int, cos as int, sin as int),
{
    let c: i128 = if cos >= 0 {
        cos as i128
    } else {
        -(cos as i128)
    };
    let s: i128 = if sin >= 0 {
        sin as i128
    } else {
        -(sin as i128)
    };
    let a = product(along as i128, c);
    let b = product(across as i128, s);
    assert(a >= 0 && b >= 0) by (nonlinear_arith)
        requires
            a == along * c,
            b == across * s,
            c >= 0,
            s >= 0,
    ;
    let total: u128 = (a + b + (UNIT as i128) - 1) as u128;
    let side: u128 = total / (UNIT as u128);
    if side <= u32::MAX as u128 {
        Some(side as u32)
    } else {
        None
    }
}

impl PixelBuffer {
    /// The pixel `(x, y)` of a `width` by `height` canvas on which the
    /// image is turned.
    fn turn_pixel(&self, width: u32, height: u32, cos: i64, sin: i64, x: u32, y: u32) -> (p: (
        u8,
        u8,
        u8,
    ))
        requires
            -UNIT <= cos <= UNIT,
            -UNIT <= sin <= UNIT,
        ensures
            p == turned_pixel(
                self@,
                width as int,
                height as int,
                cos as int,
                sin as int,
                x as int,
                y as int,
            ),
    {
        let w = self.width();
        let h = self.height();
        let u: i128 = UNIT as i128;
        let px: i128 = 2 * (x as i128) - width as i128;
        let py: i128 = 2 * (y as i128) - height as i128;
        let xc = product(px, cos as i128);
        let xs = product(px, sin as i128);
        let yc = product(py, cos as i128);
        let ys = product(py, sin as i128);
        assert(-0x1_0000_0000_0000_0000 <= xc <= 0x1_0000_0000_0000_0000 && -0x1_0000_0000_0000_0000
            <= xs <= 0x1_0000_0000_0000_0000 && -0x1_0000_0000_0000_0000 <= yc
            <= 0x1_0000_0000_0000_0000 && -0x1_0000_0000_0000_0000 <= ys
            <= 0x1_0000_0000_0000_0000) by (nonlinear_arith)
            requires
                xc == px * cos,
                xs == px * sin,
                yc == py * cos,
                ys == py * sin,
                -0x4_0000_0000 <= px <= 0x4_0000_0000,
                -0x4_0000_0000 <= py <= 0x4_0000_0000,
                -0x10_0000 <= cos <= 0x10_0000,
                -0x10_0000 <= sin <= 0x10_0000,
        ;
        let sx = round_div(xc + ys + (w as i128) * u, 2 * u);
        let sy = round_div(yc - xs + (h as i128) * u, 2 * u);
        if 0 <= sx && sx < w as i128 && 0 <= sy && sy < h as i128 {
            self.pixel_at(sx as u32, sy as u32)
        } else {
            (255, 255, 255)
        }
    }

    /// The image resampled on the canvas of a rotation with the given
    /// cosine and sine (in millionths).
    fn resample(&self, cos: i64, sin: i64, width: u32, height: u32) -> (out: PixelBuffer)
        requires
            canvas_fits(self@, cos as int, sin as int),
            width == canvas_side(self@.width as int, self@.height as int, cos as int, sin as int),
            height == canvas_side(self@.height as int, self@.width as int, cos as int, sin as int),
        ensures
            out@ == resampled(self@, cos as int, sin as int),
            out@.wf(),
    {
        let ghost want = resampled(self@, cos as int, sin as int);
        let mut data: Vec<u8> = Vec::new();
        let mut y: u32 = 0;
        assert(width * height == height * width) by (nonlinear_arith);
        while y < height
            invariant
                y <= height,
                -UNIT <= cos <= UNIT,
                -UNIT <= sin <= UNIT,
                3 * (height * width) <= usize::MAX,
                width == canvas_side(
                    self@.width as int,
                    self@.height as int,
                    cos as int,
                    sin as int,
                ),
                height == canvas_side(
                    self@.height as int,
                    self@.width as int,
                    cos as int,
                    sin as int,
                ),
                want == resampled(self@, cos as int, sin as int),
                data@.len() == 3 * (y * width),
                forall|j: int| 0 <= j < data@.len() ==> data@[j] == want.data[j],
            decreases height - y,
        {
            let mut x: u32 = 0;
            while x < width
                invariant
                    x <= width,
                    y < height,
                    -UNIT <= cos <= UNIT,
                    -UNIT <= sin <= UNIT,
                    3 * (height * width) <= usize::MAX,
                    width == canvas_side(
                        self@.width as int,
                        self@.height as int,
                        cos as int,
                        sin as int,
                    ),
                    height == canvas_side(
                        self@.height as int,
                        self@.width as int,
                        cos as int,
                        sin as int,
                    ),
                    want == resampled(self@, cos as int, sin as int),
                    data@.len() == 3 * (y * width + x),
                    forall|j: int| 0 <= j < data@.len() ==> data@[j] == want.data[j],
                decreases width - x,
            {
                let p = self.turn_pixel(width, height, cos, sin, x, y);
                proof {
                    assert(3 * want.width * want.height == 3 * (height * width))
                        by (nonlinear_arith)
                        requires
                            want.width == width,
                            want.height == height,
                    ;
                    lemma_offset(want, x as int, y as int, 0);
                    lemma_offset(want, x as int, y as int, 1);
                    lemma_offset(want, x as int, y as int, 2);
                }
                data.push(p.0);
                data.push(p.1);
                data.push(p.2);
                x += 1;
            }
            assert((y + 1) * width == y * width + width) by (nonlinear_arith);
            y += 1;
        }
        assert(3 * width * height == 3 * (height * width)) by (nonlinear_arith);
        assert(data@ =~= want.data);
        PixelBuffer::assemble(width, height, data)
    }

    /// Rotates by `angle` (in millionths of a degree), given the cosine and
    /// sine of the angle (in millionths); `None` where the rotation is
    /// refused.
    pub fn try_rotate(&self, angle: i64, cos: i64, sin: i64) -> (r: Option<PixelBuffer>)
        ensures
            r is None <==> rotation_refused(self@, angle as int, cos as int, sin as int),
            r matches Some(out) ==> out@ == rotated(self@, angle as int, cos as int, sin as int)
                && out@.wf(),
    {
        match classify_turn(angle) {
            Turn::Zero => Some(self.duplicate()),
            Turn::Quarter => Some(quarter_turn(self)),
            Turn::Half => Some(half_turn(self)),
            Turn::ThreeQuarter => Some(three_quarter_turn(self)),
            Turn::Free => {
                if cos < -UNIT || cos > UNIT || sin < -UNIT || sin > UNIT {
                    return None;
                }
                let w = self.width();
                let h = self.height();
                let width = match side_of(w, h, cos, sin) {
                    Some(s) => s,
                    None => {
                        return None;
                    },
                };
                let height = match side_of(h, w, cos, sin) {
                    Some(s) => s,
                    None => {
                        return None;
                    },
                };
                assert(width * height <= 0xFFFF_FFFF * 0xFFFF_FFFF) by (nonlinear_arith)
                    requires
                        0 <= width <= 0xFFFF_FFFF,
                        0 <= height <= 0xFFFF_FFFF,
                ;
                let size: u128 = 3 * ((width as u128) * (height as u128));
                if size > usize::MAX as u128 {
                    return None;
                }
                Some(self.resample(cos, sin, width, height))
            },
        }
    }

    /// Rotates by `angle` (in millionths of a degree), given the cosine and
    /// sine of the angle (in millionths); a rotation that is refused leaves
    /// the image as it is.
    pub fn rotate_arbitrary(&self, angle: i64, cos: i64, sin: i64) -> (out: PixelBuffer)
        ensures
            out@ == rotated(self@, angle as int, cos as int, sin as int),
            out@.wf(),
    {
        match self.try_rotate(angle, cos, sin) {
            Some(out) => out,
            None => self.duplicate(),
        }
    }
}

/// A rotation by a quarter turn exchanges width and height and fills
/// nothing in: every pixel of the result is a pixel of the source.
pub proof fn lemma_quarter_turn_keeps_pixels(src: Raster, cos: int, sin: int, x: int, y: int)
    requires
        src.wf(),
        0 <= x < src.height,
        0 <= y < src.width,
    ensures
        rotated(src, 90_000_000, cos, sin).width == src.height,
        rotated(src, 90_000_000, cos, sin).height == src.width,
        rotated(src, 90_000_000, cos, sin).wf(),
        src.contains(y, src.height - 1 - x),
        rotated(src, 90_000_000, cos, sin).pixel(x, y) == src.pixel(y, src.height - 1 - x),
{
    assert(signed_rem(90_000_000, FULL_TURN as int) == 90_000_000);
    assert(turn_of(90_000_000) == Turn::Quarter);
    lemma_from_fn_pixel(
        src.height,
        src.width,
        |x: int, y: int| src.pixel(y, src.height - 1 - x),
        x,
        y,
    );
}

} // verus!
