//! Channel histograms and histogram equalization.

use vstd::prelude::*;
use crate::buffer::{PixelBuffer, Raster};
use crate::fixed::{clamp_int, round_half_away};
use crate::lut::LookupTable;

verus! {

/// How many of the first `pixels` pixels of `data` have the value `v` in
/// channel `c`.
pub open spec fn count_channel(data: Seq<u8>, c: int, v: int, pixels: int) -> nat
    decreases pixels,
{
    if pixels <= 0 {
        0
    } else {
        count_channel(data, c, v, pixels - 1) + if data[3 * (pixels - 1) + c] == v {
            1nat
        } else {
            0nat
        }
    }
}

/// `hist` holds, for the channels red, green and blue in turn, the number
/// of pixels of `src` with each of the 256 values.
pub open spec fn is_histogram(src: Raster, hist: Seq<u64>) -> bool {
    &&& hist.len() == 768
    &&& forall|c: int, v: int|
        0 <= c < 3 && 0 <= v < 256 ==> #[trigger] hist[256 * c + v] == count_channel(
            src.data,
            c,
            v,
            (src.width * src.height) as int,
        )
}

/// The sum of the first `n` entries of `hist`.
pub open spec fn prefix_sum(hist: Seq<u64>, n: int) -> nat
    decreases n,
{
    if n <= 0 {
        0
    } else {
        prefix_sum(hist, n - 1) + hist[n - 1] as nat
    }
}

/// Entry `i` of the table that equalizes a channel with the histogram
/// `hist`: the share of pixels with a value of at most `i`, times 255,
/// rounded to the nearest byte; zero where the histogram is empty.
pub open spec fn equalized_entry(hist: Seq<u64>, i: int) -> int {
    let total = prefix_sum(hist, 256);
    if total == 0 {
        0
    } else {
        clamp_int(round_half_away((255 * prefix_sum(hist, i + 1)) as int, total as int), 0, 255)
    }
}

/// The histogram of channel `c` of `src`: for each of the 256 values, the
/// number of pixels that have it.
pub open spec fn channel_histogram(src: Raster, c: int) -> Seq<u64> {
    Seq::new(256, |v: int| count_channel(src.data, c, v, (src.width * src.height) as int) as u64)
}

/// A pixel after equalization of the image `src`: each channel looked up
/// in the table that equalizes the histogram of that channel of `src`.
pub open spec fn equalized_pixel(src: Raster, r: u8, g: u8, b: u8) -> (u8, u8, u8) {
    (
        equalized_entry(channel_histogram(src, 0), r as int) as u8,
        equalized_entry(channel_histogram(src, 1), g as int) as u8,
        equalized_entry(channel_histogram(src, 2), b as int) as u8,
    )
}

/// The image `src` with the histogram of each channel equalized.
pub open spec fn equalized(src: Raster) -> Raster {
    src.map_pixels(|r: u8, g: u8, b: u8| equalized_pixel(src, r, g, b))
}

/// A count is at most the number of pixels counted over.
pub proof fn lemma_count_bound(data: Seq<u8>, c: int, v: int, pixels: int)
    requires
        pixels >= 0,
    ensures
        count_channel(data, c, v, pixels) <= pixels,
    decreases pixels,
{
    if pixels > 0 {
        lemma_count_bound(data, c, v, pixels - 1);
    }
}

/// Prefix sums grow with the number of entries summed.
pub proof fn lemma_prefix_sum_monotone(hist: Seq<u64>, a: int, b: int)
    requires
        a <= b,
    ensures
        prefix_sum(hist, a) <= prefix_sum(hist, b),
    decreases b - a,
{
    if a < b {
        lemma_prefix_sum_monotone(hist, a, b - 1);
    }
}

/// The table that equalizes a histogram does not decrease: a larger input
/// value never maps below a smaller one.
pub proof fn lemma_equalization_monotone(hist: Seq<u64>, a: int, b: int)
    requires
        0 <= a <= b < 256,
    ensures
        equalized_entry(hist, a) <= equalized_entry(hist, b),
{
    let total = prefix_sum(hist, 256) as int;
    if total > 0 {
        lemma_prefix_sum_monotone(hist, a + 1, b + 1);
        let na = 2 * (255 * prefix_sum(hist, a + 1)) + total;
        let nb = 2 * (255 * prefix_sum(hist, b + 1)) + total;
        vstd::arithmetic::div_mod::lemma_div_is_ordered(na, nb, 2 * total);
    }
}

impl PixelBuffer {
    /// Counts, for each channel, the pixels with each of the 256 values:
    /// 256 counts for red, then for green, then for blue.
    pub fn calculate_histogram(&self) -> (hist: Vec<u64>)
        ensures
            is_histogram(self@, hist@),
    {
        let src = self.data();
        let n = src.len();
        assert(3 * self@.width * self@.height == 3 * (self@.width * self@.height))
            by (nonlinear_arith);
        let mut hist: Vec<u64> = Vec::with_capacity(768);
        let mut k: usize = 0;
        while k < 768
            invariant
                k <= 768,
                hist@.len() == k,
                forall|j: int| 0 <= j < k ==> hist@[j] == 0,
            decreases 768 - k,
        {
            hist.push(0);
            k += 1;
        }
        let mut i: usize = 0;
        while i < n
            invariant
                n == src@.len(),
                n == 3 * (self@.width * self@.height),
                src@ == self@.data,
                i % 3 == 0,
                i <= n,
                hist@.len() == 768,
                forall|c: int, v: int|
                    0 <= c < 3 && 0 <= v < 256 ==> #[trigger] hist@[256 * c + v] == count_channel(
                        src@,
                        c,
                        v,
                        i as int / 3,
                    ),
            decreases n - i,
        {
            let ghost before = hist@;
            let ghost p = i as int / 3;
            let r = src[i] as usize;
            let g = 256 + src[i + 1] as usize;
            let b = 512 + src[i + 2] as usize;
            proof {
                lemma_count_bound(src@, 0, src@[i as int] as int, p);
                lemma_count_bound(src@, 1, src@[i + 1] as int, p);
                lemma_count_bound(src@, 2, src@[i + 2] as int, p);
                assert(before[256 * 0 + src@[i as int] as int] <= p);
                assert(before[256 * 1 + src@[i + 1] as int] <= p);
                assert(before[256 * 2 + src@[i + 2] as int] <= p);
            }
            let nr = hist[r] + 1;
            hist.set(r, nr);
            let ng = hist[g] + 1;
            hist.set(g, ng);
            let nb = hist[b] + 1;
            hist.set(b, nb);
            i += 3;
            assert forall|c: int, v: int| 0 <= c < 3 && 0 <= v < 256 implies #[trigger] hist@[256
                * c + v] == count_channel(src@, c, v, i as int / 3) by {
                assert(i as int / 3 == p + 1);
                assert(before[256 * c + v] == count_channel(src@, c, v, p));
            }
        }
        hist
    }
}

/// The table that equalizes the 256 counts of `hist` from `start` on.
fn equalization_table(hist: &[u64], start: usize) -> (t: LookupTable)
    requires
        start + 256 <= hist@.len(),
    ensures
        forall|i: int|
            0 <= i < 256 ==> t@[i] == equalized_entry(
                hist@.subrange(start as int, start + 256),
                i,
            ),
        t@.len() == 256,
{
    let ghost part = hist@.subrange(start as int, start + 256);
    let n: usize = hist.len();
    let mut total: u128 = 0;
    let mut i: usize = 0;
    while i < 256
        invariant
            i <= 256,
            start + 256 <= hist@.len(),
            n == hist@.len(),
            part == hist@.subrange(start as int, start + 256),
            total == prefix_sum(part, i as int),
            total <= i * 0xFFFF_FFFF_FFFF_FFFF,
        decreases 256 - i,
    {
        total = total + hist[start + i] as u128;
        i += 1;
    }
    let mut entries: Vec<u8> = Vec::with_capacity(256);
    let mut seen: u128 = 0;
    let mut i: usize = 0;
    while i < 256
        invariant
            i <= 256,
            start + 256 <= hist@.len(),
            n == hist@.len(),
            part == hist@.subrange(start as int, start + 256),
            total == prefix_sum(part, 256),
            total <= 256 * 0xFFFF_FFFF_FFFF_FFFF,
            seen == prefix_sum(part, i as int),
            entries@.len() == i,
            forall|j: int| 0 <= j < i ==> entries@[j] == equalized_entry(part, j),
        decreases 256 - i,
    {
        proof {
            lemma_prefix_sum_monotone(part, i + 1, 256);
        }
        seen = seen + hist[start + i] as u128;
        let entry: u8 = if total == 0 {
            0
        } else {
            let q: u128 = (2 * (255 * seen) + total) / (2 * total);
            if q > 255 {
                255
            } else {
                q as u8
            }
        };
        entries.push(entry);
        i += 1;
    }
    LookupTable::assemble(entries)
}

/// The table that equalizes a channel with the given 256 counts; `None`
/// unless there are 256.
pub fn build_equalization_lut(hist: &[u64]) -> (r: Option<LookupTable>)
    ensures
        r is Some <==> hist@.len() == 256,
        r matches Some(t) ==> t@.len() == 256 && forall|i: int|
            0 <= i < 256 ==> t@[i] == equalized_entry(hist@, i),
        r matches Some(t) ==> forall|a: int, b: int|
            0 <= a <= b < 256 ==> t@[a] <= t@[b],
{
    if hist.len() != 256 {
        return None;
    }
    assert(hist@.subrange(0, 256) =~= hist@);
    let t = equalization_table(hist, 0);
    assert forall|a: int, b: int| 0 <= a <= b < 256 implies t@[a] <= t@[b] by {
        lemma_equalization_monotone(hist@, a, b);
    }
    Some(t)
}

impl PixelBuffer {
    /// Equalizes the histogram of each channel.
    pub fn histogram_equalization(&self) -> (out: PixelBuffer)
        ensures
            out@ == equalized(self@),
            out@.wf(),
            out@.same_shape(self@),
    {
        let hist = self.calculate_histogram();
        let red = equalization_table(hist.as_slice(), 0);
        let green = equalization_table(hist.as_slice(), 256);
        let blue = equalization_table(hist.as_slice(), 512);
        proof {
            let pixels = (self@.width * self@.height) as int;
            assert forall|c: int, v: int| 0 <= c < 3 && 0 <= v < 256 implies hist@[256 * c + v]
                == #[trigger] channel_histogram(self@, c)[v] by {
                lemma_count_bound(self@.data, c, v, pixels);
                assert(hist@[256 * c + v] == count_channel(self@.data, c, v, pixels));
            }
            assert(hist@.subrange(0, 256) =~= channel_histogram(self@, 0)) by {
                assert forall|v: int| 0 <= v < 256 implies hist@.subrange(0, 256)[v]
                    == channel_histogram(self@, 0)[v] by {
                    assert(hist@[256 * 0 + v] == channel_histogram(self@, 0)[v]);
                }
            }
            assert(hist@.subrange(256, 512) =~= channel_histogram(self@, 1)) by {
                assert forall|v: int| 0 <= v < 256 implies hist@.subrange(256, 512)[v]
                    == channel_histogram(self@, 1)[v] by {
                    assert(hist@[256 * 1 + v] == channel_histogram(self@, 1)[v]);
                }
            }
            assert(hist@.subrange(512, 768) =~= channel_histogram(self@, 2)) by {
                assert forall|v: int| 0 <= v < 256 implies hist@.subrange(512, 768)[v]
                    == channel_histogram(self@, 2)[v] by {
                    assert(hist@[256 * 2 + v] == channel_histogram(self@, 2)[v]);
                }
            }
        }
        let out = self.apply_lut(red, green, blue);
        assert(out@.data =~= equalized(self@).data);
        out
    }
}

} // verus!
