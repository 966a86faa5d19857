//! Per-channel value histogram of a frame.

use vstd::prelude::*;
use crate::color::luma_index;
use crate::frame::{Rgb, RED, GREEN, BLUE, LUMA, channel_value, channel_values, count_eq, frame_pixels, lemma_count_eq_le_len, lemma_count_eq_take_step};

verus! {

/// Per-channel value distributions (256 buckets, one per 8-bit level).
/// `luma` uses ITU-R BT.601 weighting (`0.299 R + 0.587 G + 0.114 B`).
#[derive(Debug, Clone, PartialEq, Eq)]
pub struct Histogram {
    pub red: [u32; 256],
    pub green: [u32; 256],
    pub blue: [u32; 256],
    pub luma: [u32; 256],
}

impl Histogram {
    /// The buckets of one channel (`RED`, `GREEN`, `BLUE` or `LUMA`).
    pub open spec fn channel(self, channel: u8) -> Seq<u32> {
        if channel == RED {
            self.red@
        } else if channel == GREEN {
            self.green@
        } else if channel == BLUE {
            self.blue@
        } else {
            self.luma@
        }
    }

    /// Every bucket of every channel counts the pixels of `frame` whose value
    /// in that channel is the bucket's level.
    pub open spec fn counts(self, frame: Seq<Rgb>) -> bool {
        forall|c: u8, v: int|
            c <= LUMA && 0 <= v < 256 ==> #[trigger] self.channel(c)[v] == count_eq(
                channel_values(frame, c),
                v,
            )
    }

    fn empty() -> (h: Self)
        ensures
            forall|c: u8, v: int| c <= LUMA && 0 <= v < 256 ==> #[trigger] h.channel(c)[v] == 0,
    {
        Histogram { red: [0u32; 256], green: [0u32; 256], blue: [0u32; 256], luma: [0u32; 256] }
    }

    fn record(&mut self, r: u8, g: u8, b: u8)
        requires
            forall|c: u8, v: int| c <= LUMA && 0 <= v < 256 ==> #[trigger] old(self).channel(c)[v] < u32::MAX,
        ensures
            forall|c: u8, v: int|
                c <= LUMA && 0 <= v < 256 ==> #[trigger] final(self).channel(c)[v] == old(self).channel(c)[v]
                    + if channel_value((r, g, b), c) == v { 1int } else { 0int },
    {
        assert(old(self).channel(RED)[r as int] < u32::MAX);
        assert(old(self).channel(GREEN)[g as int] < u32::MAX);
        assert(old(self).channel(BLUE)[b as int] < u32::MAX);
        self.red[r as usize] = self.red[r as usize] + 1;
        self.green[g as usize] = self.green[g as usize] + 1;
        self.blue[b as usize] = self.blue[b as usize] + 1;
        let luma = luma_index(r, g, b);
        assert(old(self).channel(LUMA)[luma as int] < u32::MAX);
        self.luma[luma] = self.luma[luma] + 1;
    }
}

/// Bins tightly-packed 4-bytes-per-pixel bytes (row stride `width * 4`, RGBA,
/// or BGRA when `is_bgra`) into a per-channel histogram.
pub fn compute_histogram_from_pixels(pixels: &[u8], width: u32, height: u32, is_bgra: bool) -> (histogram: Histogram)
    requires
        pixels@.len() >= 4 * (width * height),
        width * height <= u32::MAX,
    ensures
        histogram.counts(frame_pixels(pixels@, width as nat, height as nat, is_bgra)),
{
    let ghost frame = frame_pixels(pixels@, width as nat, height as nat, is_bgra);
    let n: usize = (width as usize) * (height as usize);
    let mut histogram = Histogram::empty();
    let mut i: usize = 0;
    while i < n
        invariant
            n == width * height,
            n <= u32::MAX,
            pixels.len() >= 4 * n,
            i <= n,
            frame == frame_pixels(pixels@, width as nat, height as nat, is_bgra),
            forall|c: u8, v: int|
                c <= LUMA && 0 <= v < 256 ==> #[trigger] histogram.channel(c)[v] == count_eq(
                    channel_values(frame, c).take(i as int),
                    v,
                ),
        decreases n - i,
    {
        let start = 4 * i;
        let (r, g, b) = if is_bgra {
            (pixels[start + 2], pixels[start + 1], pixels[start])
        } else {
            (pixels[start], pixels[start + 1], pixels[start + 2])
        };
        proof {
            assert(frame[i as int] == (r, g, b));
            assert forall|c: u8, v: int| c <= LUMA && 0 <= v < 256 implies #[trigger] histogram.channel(c)[v] < u32::MAX by {
                lemma_count_eq_le_len(channel_values(frame, c).take(i as int), v);
            }
            assert forall|c: u8, v: int| c <= LUMA && 0 <= v < 256 implies
                count_eq(channel_values(frame, c).take(i + 1), v) == #[trigger] histogram.channel(c)[v]
                    + if channel_value((r, g, b), c) == v { 1int } else { 0int } by {
                lemma_count_eq_take_step(channel_values(frame, c), i as int, v);
            }
        }
        histogram.record(r, g, b);
        i = i + 1;
    }
    proof {
        assert forall|c: u8| c <= LUMA implies channel_values(frame, c).take(n as int) =~= #[trigger] channel_values(frame, c) by {}
    }
    histogram
}

} // verus!
