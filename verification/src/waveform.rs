//! Waveform scope: one luma histogram per pixel column.

use vstd::prelude::*;
use crate::color::luma_index;
use crate::frame::{Rgb, LUMA, channel_value, channel_values, count_eq, frame_column, frame_pixels,
    lemma_count_eq_le_len, lemma_count_eq_take_step};

verus! {

/// `luma_by_column[x]` is a 256-bucket luma histogram (BT.601 weighting, as
/// `Histogram::luma`) of pixel column `x` across all rows.
#[derive(Debug, Clone, PartialEq, Eq)]
pub struct Waveform {
    pub width: usize,
    pub luma_by_column: Vec<[u32; 256]>,
}

/// The values of one channel down column `x` of the frame.
pub open spec fn column_values(frame: Seq<Rgb>, width: nat, height: nat, x: int, channel: u8) -> Seq<int> {
    channel_values(frame_column(frame, width, height, x), channel)
}

/// `columns` holds, for each of the `width` columns, the histogram of `channel`
/// down that column.
pub open spec fn column_counts(columns: Seq<[u32; 256]>, frame: Seq<Rgb>, width: nat, height: nat, channel: u8) -> bool {
    &&& columns.len() == width
    &&& forall|x: int, v: int|
        0 <= x < width && 0 <= v < 256 ==> #[trigger] columns[x]@[v] == count_eq(
            column_values(frame, width, height, x, channel),
            v,
        )
}

/// Value of `channel` (red, green, blue or luma bucket) of a pixel.
pub(crate) fn channel_index(r: u8, g: u8, b: u8, channel: u8) -> (index: usize)
    requires
        channel <= LUMA,
    ensures
        index == channel_value((r, g, b), channel),
        index < 256,
{
    if channel == 0 {
        r as usize
    } else if channel == 1 {
        g as usize
    } else if channel == 2 {
        b as usize
    } else {
        luma_index(r, g, b)
    }
}

/// Per-column histograms of one channel of a tightly-packed frame.
pub(crate) fn column_histograms(pixels: &[u8], width: u32, height: u32, is_bgra: bool, channel: u8) -> (columns: Vec<[u32; 256]>)
    requires
        pixels@.len() >= 4 * (width * height),
        channel <= LUMA,
    ensures
        column_counts(columns@, frame_pixels(pixels@, width as nat, height as nat, is_bgra), width as nat, height as nat, channel),
{
    let ghost frame = frame_pixels(pixels@, width as nat, height as nat, is_bgra);
    let w = width as usize;
    let mut columns: Vec<[u32; 256]> = Vec::new();
    let mut x: usize = 0;
    while x < w
        invariant
            w == width,
            x <= w,
            columns@.len() == x,
            forall|k: int, v: int| 0 <= k < x && 0 <= v < 256 ==> #[trigger] columns@[k]@[v] == 0,
        decreases w - x,
    {
        columns.push([0u32; 256]);
        x = x + 1;
    }
    let mut y: u32 = 0;
    let mut i: usize = 0;
    while y < height
        invariant
            w == width,
            y <= height,
            i == y * width,
            pixels.len() >= 4 * (width * height),
            channel <= LUMA,
            frame == frame_pixels(pixels@, width as nat, height as nat, is_bgra),
            columns@.len() == w,
            forall|k: int, v: int|
                0 <= k < w && 0 <= v < 256 ==> #[trigger] columns@[k]@[v] == count_eq(
                    column_values(frame, width as nat, height as nat, k, channel).take(y as int),
                    v,
                ),
        decreases height - y,
    {
        let mut x: usize = 0;
        while x < w
            invariant
                w == width,
                y < height,
                x <= w,
                i == y * width + x,
                pixels.len() >= 4 * (width * height),
                channel <= LUMA,
                frame == frame_pixels(pixels@, width as nat, height as nat, is_bgra),
                columns@.len() == w,
                forall|k: int, v: int|
                    0 <= k < w && 0 <= v < 256 ==> #[trigger] columns@[k]@[v] == count_eq(
                        column_values(frame, width as nat, height as nat, k, channel).take(
                            if k < x { y + 1 } else { y as int },
                        ),
                        v,
                    ),
            decreases w - x,
        {
            proof {
                assert(i < width * height) by (nonlinear_arith)
                    requires i == y * width + x, x < width, y < height;
            }
            let start = 4 * i;
            let (r, g, b) = if is_bgra {
                (pixels[start + 2], pixels[start + 1], pixels[start])
            } else {
                (pixels[start], pixels[start + 1], pixels[start + 2])
            };
            let index = channel_index(r, g, b, channel);
            let ghost col = column_values(frame, width as nat, height as nat, x as int, channel);
            proof {
                assert(frame[i as int] == (r, g, b));
                assert(col[y as int] == channel_value((r, g, b), channel));
                lemma_count_eq_le_len(col.take(y as int), index as int);
                assert(y < u32::MAX);
                assert forall|v: int| 0 <= v < 256 implies count_eq(col.take(y + 1), v) == count_eq(col.take(y as int), v)
                    + if col[y as int] == v { 1nat } else { 0nat } by {
                    lemma_count_eq_take_step(col, y as int, v);
                }
            }
            let mut column = columns[x];
            column[index] = column[index] + 1;
            columns.set(x, column);
            x = x + 1;
            i = i + 1;
        }
        proof {
            assert(i == (y + 1) * width) by (nonlinear_arith)
                requires i == y * width + width;
        }
        y = y + 1;
    }
    proof {
        assert forall|k: int| 0 <= k < w implies column_values(frame, width as nat, height as nat, k, channel).take(height as int)
            =~= #[trigger] column_values(frame, width as nat, height as nat, k, channel) by {}
    }
    columns
}

/// Bins tightly-packed 4-bytes-per-pixel bytes (row stride `width * 4`, RGBA,
/// or BGRA when `is_bgra`) into a waveform: per column, a luma histogram.
pub fn compute_waveform_from_pixels(pixels: &[u8], width: u32, height: u32, is_bgra: bool) -> (waveform: Waveform)
    requires
        pixels@.len() >= 4 * (width * height),
    ensures
        waveform.width == width,
        column_counts(waveform.luma_by_column@, frame_pixels(pixels@, width as nat, height as nat, is_bgra), width as nat, height as nat, LUMA),
{
    let luma_by_column = column_histograms(pixels, width, height, is_bgra, LUMA);
    Waveform { width: width as usize, luma_by_column }
}

} // verus!
