//! Vectorscope: pixel counts over the full-swing BT.601 Cb/Cr plane.

use vstd::prelude::*;
use crate::color::chroma_indices;
use crate::frame::{Rgb, chroma_values, count_eq, frame_pixels, lemma_count_eq_le_len, lemma_count_eq_take_step};

verus! {

/// `buckets[cb][cr]` is the pixel count at that Cb/Cr coordinate (full-swing
/// BT.601, both axes 0..256). Centre (128, 128) is zero chroma (gray).
#[derive(Debug, Clone, PartialEq, Eq)]
pub struct Vectorscope {
    pub buckets: Vec<[u32; 256]>,
}

/// `buckets` is a 256 x 256 grid whose cell `[cb][cr]` counts the pixels of
/// `frame` at that chroma coordinate.
pub open spec fn chroma_counts(buckets: Seq<[u32; 256]>, frame: Seq<Rgb>) -> bool {
    &&& buckets.len() == 256
    &&& forall|cb: int, cr: int|
        0 <= cb < 256 && 0 <= cr < 256 ==> #[trigger] buckets[cb]@[cr] == count_eq(chroma_values(frame), (cb, cr))
}

/// Bins tightly-packed 4-bytes-per-pixel bytes (row stride `width * 4`, RGBA,
/// or BGRA when `is_bgra`) into a Cb/Cr bucket grid.
pub fn compute_vectorscope_from_pixels(pixels: &[u8], width: u32, height: u32, is_bgra: bool) -> (vectorscope: Vectorscope)
    requires
        pixels@.len() >= 4 * (width * height),
        width * height <= u32::MAX,
    ensures
        chroma_counts(vectorscope.buckets@, frame_pixels(pixels@, width as nat, height as nat, is_bgra)),
{
    let ghost frame = frame_pixels(pixels@, width as nat, height as nat, is_bgra);
    let ghost values = chroma_values(frame);
    let mut buckets: Vec<[u32; 256]> = Vec::new();
    let mut k: usize = 0;
    while k < 256
        invariant
            k <= 256,
            buckets@.len() == k,
            forall|a: int, v: int| 0 <= a < k && 0 <= v < 256 ==> #[trigger] buckets@[a]@[v] == 0,
        decreases 256 - k,
    {
        buckets.push([0u32; 256]);
        k = k + 1;
    }
    let n: usize = (width as usize) * (height as usize);
    let mut i: usize = 0;
    while i < n
        invariant
            n == width * height,
            n <= u32::MAX,
            pixels.len() >= 4 * n,
            i <= n,
            frame == frame_pixels(pixels@, width as nat, height as nat, is_bgra),
            values == chroma_values(frame),
            buckets@.len() == 256,
            forall|cb: int, cr: int|
                0 <= cb < 256 && 0 <= cr < 256 ==> #[trigger] buckets@[cb]@[cr] == count_eq(values.take(i as int), (cb, cr)),
        decreases n - i,
    {
        let start = 4 * i;
        let (r, g, b) = if is_bgra {
            (pixels[start + 2], pixels[start + 1], pixels[start])
        } else {
            (pixels[start], pixels[start + 1], pixels[start + 2])
        };
        let (cb, cr) = chroma_indices(r, g, b);
        proof {
            assert(frame[i as int] == (r, g, b));
            assert(values[i as int] == (cb as int, cr as int));
            lemma_count_eq_le_len(values.take(i as int), (cb as int, cr as int));
            assert forall|a: int, c: int| 0 <= a < 256 && 0 <= c < 256 implies count_eq(values.take(i + 1), (a, c))
                == count_eq(values.take(i as int), (a, c)) + if values[i as int] == (a, c) { 1nat } else { 0nat } by {
                lemma_count_eq_take_step(values, i as int, (a, c));
            }
        }
        let mut row = buckets[cb];
        row[cr] = row[cr] + 1;
        buckets.set(cb, row);
        i = i + 1;
    }
    proof {
        assert(values.take(n as int) =~= values);
    }
    Vectorscope { buckets }
}

} // verus!
