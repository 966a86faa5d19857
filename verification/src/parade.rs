//! Parade scope: per pixel column, one value histogram for each of red,
//! green and blue.

use vstd::prelude::*;
use crate::frame::{RED, GREEN, BLUE, frame_pixels};
use crate::waveform::{column_counts, column_histograms};

verus! {

/// `{red,green,blue}_by_column[x]` is a 256-bucket value histogram for pixel
/// column `x` across all rows, one independent histogram per channel.
#[derive(Debug, Clone, PartialEq, Eq)]
pub struct Parade {
    pub width: usize,
    pub red_by_column: Vec<[u32; 256]>,
    pub green_by_column: Vec<[u32; 256]>,
    pub blue_by_column: Vec<[u32; 256]>,
}

/// Bins tightly-packed 4-bytes-per-pixel bytes (row stride `width * 4`, RGBA,
/// or BGRA when `is_bgra`) into a parade: per column, per channel histograms.
pub fn compute_parade_from_pixels(pixels: &[u8], width: u32, height: u32, is_bgra: bool) -> (parade: Parade)
    requires
        pixels@.len() >= 4 * (width * height),
    ensures
        parade.width == width,
        column_counts(parade.red_by_column@, frame_pixels(pixels@, width as nat, height as nat, is_bgra), width as nat, height as nat, RED),
        column_counts(parade.green_by_column@, frame_pixels(pixels@, width as nat, height as nat, is_bgra), width as nat, height as nat, GREEN),
        column_counts(parade.blue_by_column@, frame_pixels(pixels@, width as nat, height as nat, is_bgra), width as nat, height as nat, BLUE),
{
    let red_by_column = column_histograms(pixels, width, height, is_bgra, 0);
    let green_by_column = column_histograms(pixels, width, height, is_bgra, 1);
    let blue_by_column = column_histograms(pixels, width, height, is_bgra, 2);
    Parade { width: width as usize, red_by_column, green_by_column, blue_by_column }
}

} // verus!
