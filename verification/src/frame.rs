//! The mathematical model of a tightly-packed 8-bit, 4-bytes-per-pixel frame,
//! and counting over sequences.

use vstd::prelude::*;
use crate::color::{spec_luma, spec_cb, spec_cr};

verus! {

/// An 8-bit `(R, G, B)` pixel.
pub type Rgb = (u8, u8, u8);

/// Pixel `i` (row-major) of a tightly packed frame: bytes `4i..4i+4`, read as
/// RGBA, or as BGRA (blue first, red third) when `is_bgra`. Alpha is ignored.
pub open spec fn pixel_at(pixels: Seq<u8>, i: int, is_bgra: bool) -> Rgb {
    if is_bgra {
        (pixels[4 * i + 2], pixels[4 * i + 1], pixels[4 * i])
    } else {
        (pixels[4 * i], pixels[4 * i + 1], pixels[4 * i + 2])
    }
}

/// The `width * height` pixels of a frame, in row-major order.
pub open spec fn frame_pixels(pixels: Seq<u8>, width: nat, height: nat, is_bgra: bool) -> Seq<Rgb> {
    Seq::new(width * height, |i: int| pixel_at(pixels, i, is_bgra))
}

/// Pixel in column `x` of row `y` of a frame of the given width.
pub open spec fn pixel_xy(frame: Seq<Rgb>, width: nat, x: int, y: int) -> Rgb {
    frame[y * width + x]
}

/// Channel selector: the red component.
pub const RED: u8 = 0;
/// Channel selector: the green component.
pub const GREEN: u8 = 1;
/// Channel selector: the blue component.
pub const BLUE: u8 = 2;
/// Channel selector: the BT.601 luma bucket.
pub const LUMA: u8 = 3;

/// The value (0..=255) that a pixel contributes to a channel: its red, green or
/// blue component, or its BT.601 luma bucket.
pub open spec fn channel_value(p: Rgb, channel: u8) -> int {
    if channel == RED {
        p.0 as int
    } else if channel == GREEN {
        p.1 as int
    } else if channel == BLUE {
        p.2 as int
    } else {
        spec_luma(p.0, p.1, p.2)
    }
}

/// The channel values of every pixel in `frame`, in order.
pub open spec fn channel_values(frame: Seq<Rgb>, channel: u8) -> Seq<int> {
    Seq::new(frame.len(), |i: int| channel_value(frame[i], channel))
}

/// The `(Cb, Cr)` bucket of every pixel in `frame`, in order.
pub open spec fn chroma_values(frame: Seq<Rgb>) -> Seq<(int, int)> {
    Seq::new(frame.len(), |i: int| (spec_cb(frame[i].0, frame[i].1, frame[i].2), spec_cr(frame[i].0, frame[i].1, frame[i].2)))
}

/// Column `x` of a row-major frame of the given width and height, top to bottom.
pub open spec fn frame_column(frame: Seq<Rgb>, width: nat, height: nat, x: int) -> Seq<Rgb> {
    Seq::new(height, |y: int| pixel_xy(frame, width, x, y))
}

/// Number of occurrences of `v` in `s`.
pub open spec fn count_eq<T>(s: Seq<T>, v: T) -> nat
    decreases s.len(),
{
    if s.len() == 0 {
        0
    } else {
        count_eq(s.drop_last(), v) + if s.last() == v { 1nat } else { 0nat }
    }
}

pub proof fn lemma_count_eq_le_len<T>(s: Seq<T>, v: T)
    ensures
        count_eq(s, v) <= s.len(),
    decreases s.len(),
{
    if s.len() > 0 {
        lemma_count_eq_le_len(s.drop_last(), v);
    }
}

/// Counting over one more element of a prefix.
pub proof fn lemma_count_eq_take_step<T>(s: Seq<T>, i: int, v: T)
    requires
        0 <= i < s.len(),
    ensures
        count_eq(s.take(i + 1), v) == count_eq(s.take(i), v) + if s[i] == v { 1nat } else { 0nat },
{
    assert(s.take(i + 1).drop_last() =~= s.take(i));
}

} // verus!
