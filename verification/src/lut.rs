//! Lookup tables: a byte for each of the 256 values of a channel.

use vstd::prelude::*;
use crate::buffer::{PixelBuffer, Raster};
use crate::fixed::{
    byte_floor, clamp_i64, clamp_int, round_div, round_half_away, to_byte, UNIT,
};

verus! {

/// Smallest gamma a curve is built with, in millionths.
pub const GAMMA_MIN: i64 = 100_000;

/// Largest gamma a curve is built with, in millionths.
pub const GAMMA_MAX: i64 = 3_000_000;

/// A table that maps each byte value to a byte.
pub struct LookupTable {
    pub(crate) entries: Vec<u8>,
}

impl View for LookupTable {
    type V = Seq<u8>;

    closed spec fn view(&self) -> Seq<u8> {
        self.entries@
    }
}

impl LookupTable {
    #[verifier::type_invariant]
    spec fn inv(self) -> bool {
        self.entries@.len() == 256
    }

    /// Builds a table from its entries; `None` unless there are 256.
    pub fn new(entries: Vec<u8>) -> (r: Option<LookupTable>)
        ensures
            r is Some <==> entries@.len() == 256,
            r matches Some(t) ==> t@ == entries@,
    {
        if entries.len() == 256 {
            Some(LookupTable { entries })
        } else {
            None
        }
    }

    /// Builds a table from 256 entries.
    pub(crate) fn assemble(entries: Vec<u8>) -> (t: LookupTable)
        requires
            entries@.len() == 256,
        ensures
            t@ == entries@,
    {
        LookupTable { entries }
    }

    /// The table that maps every byte to itself.
    pub fn identity() -> (t: LookupTable)
        ensures
            t@.len() == 256,
            forall|i: int| 0 <= i < 256 ==> t@[i] == i,
    {
        let mut entries: Vec<u8> = Vec::with_capacity(256);
        let mut i: usize = 0;
        while i < 256
            invariant
                i <= 256,
                entries@.len() == i,
                forall|j: int| 0 <= j < i ==> entries@[j] == j,
            decreases 256 - i,
        {
            entries.push(i as u8);
            i += 1;
        }
        LookupTable { entries }
    }

    /// The entry for the byte `value`.
    pub fn get(&self, value: u8) -> (r: u8)
        ensures
            r == self@[value as int],
            self@.len() == 256,
    {
        proof {
            use_type_invariant(self);
        }
        self.entries[value as usize]
    }

    /// The 256 entries, in order.
    pub fn entries(&self) -> (r: &Vec<u8>)
        ensures
            r@ == self@,
            self@.len() == 256,
    {
        proof {
            use_type_invariant(self);
        }
        &self.entries
    }
}

/// No entry of the sequence is smaller than an entry before it.
pub open spec fn non_decreasing(s: Seq<i64>) -> bool {
    forall|a: int, b: int| 0 <= a <= b < s.len() ==> s[a] <= s[b]
}

/// The powers that a gamma curve is made of: entry `i` holds, in
/// millionths, the input that belongs to the byte `i` raised to the
/// reciprocal of the gamma. The caller computes them; the tables built from
/// them are exact functions of the entries. A power grows with its base,
/// so the entries do not decrease.
pub struct PowerTable {
    pub(crate) values: Vec<i64>,
}

impl View for PowerTable {
    type V = Seq<i64>;

    closed spec fn view(&self) -> Seq<i64> {
        self.values@
    }
}

impl PowerTable {
    #[verifier::type_invariant]
    spec fn inv(self) -> bool {
        self.values@.len() == 256 && non_decreasing(self.values@)
    }

    /// Builds a table of powers from its entries; `None` unless there are
    /// 256 and none is smaller than the one before it.
    pub fn new(values: Vec<i64>) -> (r: Option<PowerTable>)
        ensures
            r is Some <==> values@.len() == 256 && non_decreasing(values@),
            r matches Some(t) ==> t@ == values@,
    {
        if values.len() != 256 {
            return None;
        }
        let mut i: usize = 1;
        while i < 256
            invariant
                1 <= i <= 256,
                values@.len() == 256,
                forall|a: int, b: int| 0 <= a <= b < i ==> values@[a] <= values@[b],
            decreases 256 - i,
        {
            if values[i] < values[i - 1] {
                return None;
            }
            assert forall|a: int, b: int| 0 <= a <= b < i + 1 implies values@[a] <= values@[b] by {
                if b == i && a < i {
                    assert(values@[a] <= values@[i - 1]);
                }
            }
            i += 1;
        }
        Some(PowerTable { values })
    }

    /// The power that belongs to the byte `value`.
    pub fn get(&self, value: u8) -> (r: i64)
        ensures
            r == self@[value as int],
            self@.len() == 256,
            non_decreasing(self@),
    {
        proof {
            use_type_invariant(self);
        }
        self.values[value as usize]
    }
}

/// A gamma limited to the range that curves are built with.
pub open spec fn clamped_gamma(gamma: int) -> int {
    clamp_int(gamma, GAMMA_MIN as int, GAMMA_MAX as int)
}

/// Entry `i` of the gamma curve for `gamma`: `i` itself where the limited
/// gamma is one, else 255 times the power for `i`, rounded to the nearest
/// byte.
pub open spec fn gamma_entry(gamma: int, powers: Seq<i64>, i: int) -> int {
    if clamped_gamma(gamma) == UNIT {
        i
    } else {
        clamp_int(round_half_away(255 * powers[i], UNIT as int), 0, 255)
    }
}

/// Where the byte `i` lies between the black point and the white point, as
/// a fraction: zero up to the black point, one from the white point on.
pub open spec fn levels_input(black: int, white: int, i: int) -> (int, int) {
    if i <= black {
        (0, 1)
    } else if i >= white {
        (1, 1)
    } else {
        (i - black, white - black)
    }
}

/// Entry `i` of the levels table, for `black < white`: 255 times the
/// `levels_input` of `i` raised to the reciprocal of the limited gamma,
/// rounded down. The power of zero is zero and that of one is one; where the
/// limited gamma is one the input itself is taken; any other power comes
/// from `powers`.
pub open spec fn levels_entry(black: int, white: int, gamma: int, powers: Seq<i64>, i: int) -> int {
    if i <= black {
        0
    } else if i >= white {
        255
    } else if clamped_gamma(gamma) == UNIT {
        byte_floor(255 * (i - black), white - black) as int
    } else {
        byte_floor(255 * powers[i], UNIT as int) as int
    }
}

/// Rounding to the nearest integer keeps the order of the numerators.
pub proof fn lemma_round_monotone(a: int, b: int, den: int)
    requires
        a <= b,
        den > 0,
    ensures
        round_half_away(a, den) <= round_half_away(b, den),
{
    let two = 2 * den;
    if a >= 0 {
        vstd::arithmetic::div_mod::lemma_div_is_ordered(2 * a + den, 2 * b + den, two);
    } else if b < 0 {
        vstd::arithmetic::div_mod::lemma_div_is_ordered(-2 * b + den, -2 * a + den, two);
    } else {
        vstd::arithmetic::div_mod::lemma_div_is_ordered(0, -2 * a + den, two);
        vstd::arithmetic::div_mod::lemma_div_is_ordered(0, 2 * b + den, two);
    }
}

/// A gamma curve made of powers that do not decrease does not decrease: a
/// brighter input never comes out darker.
pub proof fn lemma_gamma_monotone(gamma: int, powers: Seq<i64>, a: int, b: int)
    requires
        powers.len() == 256,
        non_decreasing(powers),
        0 <= a <= b < 256,
    ensures
        gamma_entry(gamma, powers, a) <= gamma_entry(gamma, powers, b),
{
    if clamped_gamma(gamma) != UNIT {
        lemma_round_monotone(255 * powers[a], 255 * powers[b], UNIT as int);
    }
}

/// A levels table made of powers that do not decrease does not decrease.
pub proof fn lemma_levels_monotone(
    black: int,
    white: int,
    gamma: int,
    powers: Seq<i64>,
    a: int,
    b: int,
)
    requires
        powers.len() == 256,
        non_decreasing(powers),
        black < white,
        0 <= a <= b < 256,
    ensures
        0 <= levels_entry(black, white, gamma, powers, a) <= levels_entry(
            black,
            white,
            gamma,
            powers,
            b,
        ) <= 255,
{
    if black < a && b < white {
        if clamped_gamma(gamma) == UNIT {
            vstd::arithmetic::div_mod::lemma_div_is_ordered(
                255 * (a - black),
                255 * (b - black),
                white - black,
            );
        } else {
            vstd::arithmetic::div_mod::lemma_div_is_ordered(
                255 * powers[a],
                255 * powers[b],
                UNIT as int,
            );
        }
    }
}

/// A pixel after a curve for each channel.
pub open spec fn curved_pixel(
    r: u8,
    g: u8,
    b: u8,
    gammas: (int, int, int),
    powers: (Seq<i64>, Seq<i64>, Seq<i64>),
) -> (u8, u8, u8) {
    (
        gamma_entry(gammas.0, powers.0, r as int) as u8,
        gamma_entry(gammas.1, powers.1, g as int) as u8,
        gamma_entry(gammas.2, powers.2, b as int) as u8,
    )
}

/// A pixel after a levels correction.
pub open spec fn leveled_pixel(
    r: u8,
    g: u8,
    b: u8,
    black: int,
    white: int,
    gamma: int,
    powers: Seq<i64>,
) -> (u8, u8, u8) {
    (
        levels_entry(black, white, gamma, powers, r as int) as u8,
        levels_entry(black, white, gamma, powers, g as int) as u8,
        levels_entry(black, white, gamma, powers, b as int) as u8,
    )
}

/// The image after a levels correction: unchanged unless the black point
/// lies below the white point.
pub open spec fn leveled(
    src: Raster,
    black: int,
    white: int,
    gamma: int,
    powers: Seq<i64>,
) -> Raster {
    if black >= white {
        src
    } else {
        src.map_pixels(|r: u8, g: u8, b: u8| leveled_pixel(r, g, b, black, white, gamma, powers))
    }
}

/// Limits a gamma to the range that curves are built with.
pub fn clamp_gamma(gamma: i64) -> (r: i64)
    ensures
        r == clamped_gamma(gamma as int),
{
    clamp_i64(gamma, GAMMA_MIN, GAMMA_MAX)
}

/// Where the byte `i` lies between the black point and the white point:
/// numerator and denominator of `levels_input`.
pub fn levels_ramp(black: u8, white: u8, i: u8) -> (r: (u8, u8))
    ensures
        (r.0 as int, r.1 as int) == levels_input(black as int, white as int, i as int),
{
    if i <= black {
        (0, 1)
    } else if i >= white {
        (1, 1)
    } else {
        (i - black, white - black)
    }
}

/// The curve for `gamma` (in millionths), from the powers of the 256 inputs
/// `i / 255`. The curve does not decrease.
pub fn build_gamma_lut(gamma: i64, powers: &PowerTable) -> (t: LookupTable)
    ensures
        t@.len() == 256,
        forall|i: int| 0 <= i < 256 ==> t@[i] == gamma_entry(gamma as int, powers@, i),
        forall|a: int, b: int| 0 <= a <= b < 256 ==> t@[a] <= t@[b],
{
    proof {
        use_type_invariant(powers);
    }
    assert forall|a: int, b: int| 0 <= a <= b < 256 implies gamma_entry(
        gamma as int,
        powers@,
        a,
    ) <= gamma_entry(gamma as int, powers@, b) by {
        lemma_gamma_monotone(gamma as int, powers@, a, b);
    }
    if clamp_gamma(gamma) == UNIT {
        return LookupTable::identity();
    }
    let mut entries: Vec<u8> = Vec::with_capacity(256);
    let mut i: usize = 0;
    while i < 256
        invariant
            i <= 256,
            clamped_gamma(gamma as int) != UNIT,
            entries@.len() == i,
            forall|j: int| 0 <= j < i ==> entries@[j] == gamma_entry(gamma as int, powers@, j),
        decreases 256 - i,
    {
        let p: i128 = powers.get(i as u8) as i128;
        let rounded: i128 = round_div(255 * p, UNIT as i128);
        let entry: u8 = if rounded < 0 {
            0
        } else if rounded > 255 {
            255
        } else {
            rounded as u8
        };
        entries.push(entry);
        i += 1;
    }
    LookupTable::assemble(entries)
}

/// The levels table for a black point, a white point and a gamma (in
/// millionths); `None` unless the black point lies below the white point.
/// The table does not decrease.
/// `powers` holds, for each byte `i`, the `levels_input` of `i` raised to the
/// reciprocal of the limited gamma.
pub fn build_levels_lut(black: u8, white: u8, gamma: i64, powers: &PowerTable) -> (r: Option<
    LookupTable,
>)
    ensures
        r is Some <==> black < white,
        r matches Some(t) ==> t@.len() == 256 && forall|i: int|
            0 <= i < 256 ==> t@[i] == levels_entry(
                black as int,
                white as int,
                gamma as int,
                powers@,
                i,
            ),
        r matches Some(t) ==> forall|a: int, b: int| 0 <= a <= b < 256 ==> t@[a] <= t@[b],
{
    if black >= white {
        return None;
    }
    proof {
        use_type_invariant(powers);
    }
    assert forall|a: int, b: int| 0 <= a <= b < 256 implies levels_entry(
        black as int,
        white as int,
        gamma as int,
        powers@,
        a,
    ) <= levels_entry(black as int, white as int, gamma as int, powers@, b) by {
        lemma_levels_monotone(black as int, white as int, gamma as int, powers@, a, b);
    }
    let linear = clamp_gamma(gamma) == UNIT;
    let mut entries: Vec<u8> = Vec::with_capacity(256);
    let mut i: usize = 0;
    while i < 256
        invariant
            i <= 256,
            black < white,
            linear <==> clamped_gamma(gamma as int) == UNIT,
            entries@.len() == i,
            forall|j: int|
                0 <= j < i ==> entries@[j] == levels_entry(
                    black as int,
                    white as int,
                    gamma as int,
                    powers@,
                    j,
                ),
        decreases 256 - i,
    {
        let v: u8 = i as u8;
        let entry: u8 = if v <= black {
            0
        } else if v >= white {
            255
        } else if linear {
            to_byte(255 * ((v - black) as i128), (white - black) as i128)
        } else {
            to_byte(255 * (powers.get(v) as i128), UNIT as i128)
        };
        entries.push(entry);
        i += 1;
    }
    Some(LookupTable::assemble(entries))
}

impl PixelBuffer {
    /// Applies a gamma curve to each channel; the gammas are in millionths,
    /// and each channel has the powers for its own gamma.
    pub fn adjust_curves(
        &self,
        gammas: (i64, i64, i64),
        red: &PowerTable,
        green: &PowerTable,
        blue: &PowerTable,
    ) -> (out: PixelBuffer)
        ensures
            out@ == self@.map_pixels(
                |r: u8, g: u8, b: u8|
                    curved_pixel(
                        r,
                        g,
                        b,
                        (gammas.0 as int, gammas.1 as int, gammas.2 as int),
                        (red@, green@, blue@),
                    ),
            ),
            out@.wf(),
            out@.same_shape(self@),
    {
        let r = build_gamma_lut(gammas.0, red);
        let g = build_gamma_lut(gammas.1, green);
        let b = build_gamma_lut(gammas.2, blue);
        let out = self.apply_lut(r, g, b);
        assert(out@.data =~= self@.map_pixels(
            |r: u8, g: u8, b: u8|
                curved_pixel(
                    r,
                    g,
                    b,
                    (gammas.0 as int, gammas.1 as int, gammas.2 as int),
                    (red@, green@, blue@),
                ),
        ).data);
        out
    }

    /// Levels correction with a black point, a white point and a gamma (in
    /// millionths); a black point that does not lie below the white point
    /// leaves the image as it is. The table that is applied does not
    /// decrease: of two inputs, the brighter never comes out darker.
    pub fn adjust_levels(&self, black: u8, white: u8, gamma: i64, powers: &PowerTable) -> (out:
        PixelBuffer)
        ensures
            out@ == leveled(self@, black as int, white as int, gamma as int, powers@),
            out@.wf(),
            out@.same_shape(self@),
            black < white ==> forall|a: int, b: int|
                0 <= a <= b < 256 ==> levels_entry(
                    black as int,
                    white as int,
                    gamma as int,
                    powers@,
                    a,
                ) <= levels_entry(black as int, white as int, gamma as int, powers@, b),
    {
        proof {
            use_type_invariant(powers);
            if black < white {
                assert forall|a: int, b: int| 0 <= a <= b < 256 implies levels_entry(
                    black as int,
                    white as int,
                    gamma as int,
                    powers@,
                    a,
                ) <= levels_entry(black as int, white as int, gamma as int, powers@, b) by {
                    lemma_levels_monotone(
                        black as int,
                        white as int,
                        gamma as int,
                        powers@,
                        a,
                        b,
                    );
                }
            }
        }
        match build_levels_lut(black, white, gamma, powers) {
            None => self.duplicate(),
            Some(t) => {
                let t2 = LookupTable::assemble(t.entries().clone());
                let t3 = LookupTable::assemble(t.entries().clone());
                assert(t2@ =~= t@);
                assert(t3@ =~= t@);
                let out = self.apply_lut(t, t2, t3);
                assert(out@.data =~= leveled(
                    self@,
                    black as int,
                    white as int,
                    gamma as int,
                    powers@,
                ).data);
                out
            },
        }
    }
}

} // verus!
