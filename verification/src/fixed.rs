//! Fixed-point conventions and the integer arithmetic shared by the kernels.

use vstd::prelude::*;

verus! {

/// One whole unit of a fixed-point quantity: every fractional parameter is
/// given in millionths.
pub const UNIT: i64 = 1_000_000;

/// One hundred units: the scale of a parameter given in percent.
pub const PERCENT: i64 = 100_000_000;

/// `x` limited to the closed interval from `lo` to `hi`.
pub open spec fn clamp_int(x: int, lo: int, hi: int) -> int {
    if x < lo {
        lo
    } else if x > hi {
        hi
    } else {
        x
    }
}

/// The fraction `num / den`, limited to `[0, 255]` and rounded down.
pub open spec fn byte_floor(num: int, den: int) -> u8 {
    clamp_int(num / den, 0, 255) as u8
}

/// The fraction `num / den` rounded to the nearest integer, halves away
/// from zero.
pub open spec fn round_half_away(num: int, den: int) -> int {
    if num >= 0 {
        (2 * num + den) / (2 * den)
    } else {
        -((-2 * num + den) / (2 * den))
    }
}

/// `k` is the square root of `n`, rounded down.
pub open spec fn is_floor_sqrt(n: int, k: int) -> bool {
    0 <= k && k * k <= n < (k + 1) * (k + 1)
}

/// The square root of `n`, rounded down.
pub open spec fn floor_sqrt(n: int) -> int {
    choose|k: int| is_floor_sqrt(n, k)
}

/// Squaring keeps the order of the natural numbers.
pub proof fn lemma_square_order(a: int, b: int)
    requires
        0 <= a < b,
    ensures
        a * a < b * b,
        (a + 1) * (a + 1) <= b * b,
{
    assert(a * a < b * b && (a + 1) * (a + 1) <= b * b) by (nonlinear_arith)
        requires
            0 <= a < b,
    ;
}

/// Every natural number has a rounded-down square root.
pub proof fn lemma_floor_sqrt_exists(n: int)
    requires
        n >= 0,
    ensures
        is_floor_sqrt(n, floor_sqrt(n)),
    decreases n,
{
    if n == 0 {
        assert(is_floor_sqrt(0, 0));
    } else {
        lemma_floor_sqrt_exists(n - 1);
        let k = floor_sqrt(n - 1);
        if n < (k + 1) * (k + 1) {
            assert(is_floor_sqrt(n, k));
        } else {
            assert((k + 1) * (k + 1) < (k + 2) * (k + 2)) by (nonlinear_arith)
                requires
                    k >= 0,
            ;
            assert(is_floor_sqrt(n, k + 1));
        }
    }
}

/// Rounded-down square roots keep the order of their arguments.
pub proof fn lemma_floor_sqrt_monotone(a: int, b: int)
    requires
        0 <= a <= b,
    ensures
        0 <= floor_sqrt(a) <= floor_sqrt(b),
{
    lemma_floor_sqrt_exists(a);
    lemma_floor_sqrt_exists(b);
    let p = floor_sqrt(a);
    let q = floor_sqrt(b);
    if q < p {
        lemma_square_order(q, p);
    }
}

/// A number has one rounded-down square root.
pub proof fn lemma_floor_sqrt_unique(n: int, k: int)
    requires
        is_floor_sqrt(n, k),
    ensures
        floor_sqrt(n) == k,
{
    let c = floor_sqrt(n);
    assert(is_floor_sqrt(n, c));
    if c < k {
        lemma_square_order(c, k);
    } else if k < c {
        lemma_square_order(k, c);
    }
}

/// A quotient and remainder are fixed by the multiples of the divisor that
/// enclose the dividend.
pub proof fn lemma_floor_between(x: int, d: int, k: int)
    requires
        d > 0,
        k * d <= x < (k + 1) * d,
    ensures
        x / d == k,
        x % d == x - k * d,
{
    assert((k + 1) * d == k * d + d) by (nonlinear_arith);
    vstd::arithmetic::div_mod::lemma_fundamental_div_mod_converse(x, d, k, x - k * d);
}

/// The quotient lies between the multiples of the divisor that enclose the
/// dividend.
pub proof fn lemma_floor_bounds(x: int, d: int)
    requires
        d > 0,
    ensures
        (x / d) * d <= x < (x / d + 1) * d,
        0 <= x % d < d,
        x == (x / d) * d + x % d,
{
    vstd::arithmetic::div_mod::lemma_fundamental_div_mod(x, d);
    vstd::arithmetic::div_mod::lemma_mod_bound(x, d);
    assert((x / d + 1) * d == (x / d) * d + d) by (nonlinear_arith);
    assert(d * (x / d) == (x / d) * d) by (nonlinear_arith);
}

/// The byte that `byte_floor` gives is the limited quotient itself: the
/// limit keeps it within what a byte holds.
pub proof fn lemma_byte_floor_in_range(num: int, den: int)
    ensures
        byte_floor(num, den) as int == clamp_int(num / den, 0, 255),
        0 <= byte_floor(num, den) <= 255,
{
}

/// A multiple of the denominator, within a byte, is its own `byte_floor`.
pub proof fn lemma_byte_floor_exact(value: int, den: int)
    requires
        den > 0,
        0 <= value <= 255,
    ensures
        byte_floor(value * den, den) == value,
{
    assert((value + 1) * den == value * den + den) by (nonlinear_arith);
    lemma_floor_between(value * den, den, value);
}

/// Limits `x` to the closed interval from `lo` to `hi`.
pub fn clamp_i64(x: i64, lo: i64, hi: i64) -> (r: i64)
    requires
        lo <= hi,
    ensures
        r == clamp_int(x as int, lo as int, hi as int),
{
    if x < lo {
        lo
    } else if x > hi {
        hi
    } else {
        x
    }
}

/// The product of two factors of at most 24 bits each.
pub fn small_product(a: i128, b: i128) -> (r: i128)
    requires
        -0x100_0000 <= a <= 0x100_0000,
        -0x100_0000 <= b <= 0x100_0000,
    ensures
        r == a * b,
        -0x1_0000_0000_0000 <= r <= 0x1_0000_0000_0000,
        (a >= 0 && b >= 0) ==> r >= 0,
{
    assert(-0x1_0000_0000_0000 <= a * b <= 0x1_0000_0000_0000 && ((a >= 0 && b >= 0) ==> a * b
        >= 0)) by (nonlinear_arith)
        requires
            -0x100_0000 <= a <= 0x100_0000,
            -0x100_0000 <= b <= 0x100_0000,
    ;
    a * b
}

/// The product of two factors, the first within 48 bits and the second
/// within 70.
pub fn product(a: i128, b: i128) -> (r: i128)
    requires
        -0x1_0000_0000_0000 <= a <= 0x1_0000_0000_0000,
        -0x40_0000_0000_0000_0000 <= b <= 0x40_0000_0000_0000_0000,
    ensures
        r == a * b,
        -0x1_0000_0000_0000 * 0x40_0000_0000_0000_0000 <= r <= 0x1_0000_0000_0000
            * 0x40_0000_0000_0000_0000,
{
    assert(-0x1_0000_0000_0000 * 0x40_0000_0000_0000_0000 <= a * b <= 0x1_0000_0000_0000
        * 0x40_0000_0000_0000_0000) by (nonlinear_arith)
        requires
            -0x1_0000_0000_0000 <= a <= 0x1_0000_0000_0000,
            -0x40_0000_0000_0000_0000 <= b <= 0x40_0000_0000_0000_0000,
    ;
    a * b
}

/// The fraction `num / den`, limited to `[0, 255]` and rounded down.
pub fn to_byte(num: i128, den: i128) -> (r: u8)
    requires
        den > 0,
    ensures
        r == byte_floor(num as int, den as int),
{
    proof {
        lemma_floor_bounds(num as int, den as int);
    }
    if num < 0 {
        assert(num / den < 0) by (nonlinear_arith)
            requires
                den > 0,
                num < 0,
                (num / den) * den <= num < (num / den + 1) * den,
        ;
        0
    } else {
        let n: u128 = num as u128;
        let d: u128 = den as u128;
        let q: u128 = n / d;
        if q > 255 {
            255
        } else {
            q as u8
        }
    }
}

/// The remainder of `x` by `m` that lies in `[0, m)`.
pub fn rem_euclid(x: i128, m: i128) -> (r: i128)
    requires
        m > 0,
        x > i128::MIN,
    ensures
        r == (x as int) % (m as int),
        0 <= r < m,
{
    proof {
        lemma_floor_bounds(x as int, m as int);
    }
    if x >= 0 {
        let t: u128 = (x as u128) % (m as u128);
        t as i128
    } else {
        let y: u128 = (-x) as u128;
        let t: u128 = y % (m as u128);
        let q: u128 = y / (m as u128);
        proof {
            lemma_floor_bounds(y as int, m as int);
            let k: int = if t == 0 {
                -(q as int)
            } else {
                -(q as int) - 1
            };
            assert(k * m == if t == 0 {
                -(q * m)
            } else {
                -(q * m) - m
            }) by (nonlinear_arith)
                requires
                    k == if t == 0 {
                        -(q as int)
                    } else {
                        -(q as int) - 1
                    },
            ;
            assert((k + 1) * m == k * m + m) by (nonlinear_arith);
            lemma_floor_between(x as int, m as int, k);
        }
        if t == 0 {
            0
        } else {
            m - (t as i128)
        }
    }
}

/// The fraction `num / den` rounded to the nearest integer, halves away
/// from zero.
pub fn round_div(num: i128, den: i128) -> (r: i128)
    requires
        0 < den <= 0x1000_0000_0000_0000_0000_0000,
        -0x1000_0000_0000_0000_0000_0000_0000 <= num <= 0x1000_0000_0000_0000_0000_0000_0000,
    ensures
        r == round_half_away(num as int, den as int),
{
    let top: i128 = if num >= 0 {
        2 * num + den
    } else {
        den - 2 * num
    };
    let q: u128 = (top as u128) / ((2 * den) as u128);
    proof {
        lemma_floor_bounds(top as int, 2 * den);
        assert(q <= top) by (nonlinear_arith)
            requires
                q * (2 * den) <= top,
                den > 0,
                q >= 0,
        ;
    }
    if num >= 0 {
        q as i128
    } else {
        -(q as i128)
    }
}

/// The square root of `n`, rounded down.
pub fn isqrt(n: u64) -> (r: u32)
    ensures
        r == floor_sqrt(n as int),
        is_floor_sqrt(n as int, r as int),
{
    let mut lo: u64 = 0;
    let mut hi: u64 = 0x1_0000_0000;
    while hi - lo > 1
        invariant
            lo < hi <= 0x1_0000_0000,
            lo * lo <= n,
            n < hi * hi,
        decreases hi - lo,
    {
        let mid: u64 = lo + (hi - lo) / 2;
        assert(mid * mid < 0x1_0000_0000 * 0x1_0000_0000) by (nonlinear_arith)
            requires
                0 <= mid < 0x1_0000_0000,
        ;
        if mid * mid <= n {
            lo = mid;
        } else {
            hi = mid;
        }
    }
    proof {
        lemma_floor_sqrt_unique(n as int, lo as int);
    }
    lo as u32
}

/// The square root of `n`, rounded down, for `n` below `2^126`.
pub fn isqrt_wide(n: u128) -> (r: u64)
    requires
        n < 0x4000_0000_0000_0000_0000_0000_0000_0000,
    ensures
        r == floor_sqrt(n as int),
        is_floor_sqrt(n as int, r as int),
{
    let mut lo: u128 = 0;
    let mut hi: u128 = 0x8000_0000_0000_0000;
    while hi - lo > 1
        invariant
            lo < hi <= 0x8000_0000_0000_0000,
            lo * lo <= n,
            n < hi * hi,
        decreases hi - lo,
    {
        let mid: u128 = lo + (hi - lo) / 2;
        assert(mid * mid < 0x8000_0000_0000_0000 * 0x8000_0000_0000_0000) by (nonlinear_arith)
            requires
                0 <= mid < 0x8000_0000_0000_0000,
        ;
        if mid * mid <= n {
            lo = mid;
        } else {
            hi = mid;
        }
    }
    proof {
        lemma_floor_sqrt_unique(n as int, lo as int);
    }
    lo as u64
}

} // verus!
