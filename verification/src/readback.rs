//! Byte layout of frame readbacks: row padding of a copied-out texture, and
//! the length a tightly packed frame must have.

use vstd::prelude::*;
use vstd::arithmetic::div_mod::{lemma_fundamental_div_mod, lemma_mod_multiples_basic};

verus! {

/// Smallest multiple of `align` that is at least `4 * width`: the stride of one
/// row of a 4-bytes-per-pixel texture copied into a buffer whose row pitch must
/// be a multiple of `align`.
pub open spec fn spec_padded_bytes_per_row(width: nat, align: nat) -> nat {
    ((4 * width + align - 1) as nat / align) * align
}

proof fn lemma_padded_row_bounds(n: int, a: int)
    requires
        n >= 0,
        a > 0,
    ensures
        ((n + a - 1) / a) * a >= n,
        ((n + a - 1) / a) * a < n + a,
        (((n + a - 1) / a) * a) % a == 0,
{
    lemma_fundamental_div_mod(n + a - 1, a);
    lemma_mod_multiples_basic((n + a - 1) / a, a);
    assert(a * ((n + a - 1) / a) == ((n + a - 1) / a) * a) by (nonlinear_arith);
}

/// Row stride (bytes) of a `width`-pixel row padded to a multiple of `align`.
pub fn padded_bytes_per_row(width: u32, align: u32) -> (padded: u32)
    requires
        4 * width <= u32::MAX,
        align > 0,
        spec_padded_bytes_per_row(width as nat, align as nat) <= u32::MAX,
    ensures
        padded == spec_padded_bytes_per_row(width as nat, align as nat),
        padded % align == 0,
        4 * width <= padded < 4 * width + align,
{
    proof {
        lemma_padded_row_bounds(4 * width, align as int);
    }
    let unpadded: u64 = 4 * (width as u64);
    let rows_of_align: u64 = (unpadded + (align as u64) - 1) / (align as u64);
    let padded: u64 = rows_of_align * (align as u64);
    padded as u32
}

/// `packed` is the tightly packed frame (row stride `4 * width`) whose row `y`
/// is the first `4 * width` bytes at offset `y * stride` of `mapped`.
pub open spec fn packs_rows(packed: Seq<u8>, mapped: Seq<u8>, width: nat, height: nat, stride: nat) -> bool {
    &&& packed.len() == 4 * (width * height)
    &&& forall|y: int, k: int|
        0 <= y < height && 0 <= k < 4 * width ==> #[trigger] packed[4 * width * y + k] == mapped[y * stride + k]
}

/// Without padding (rows `4 * width` apart) repacking changes nothing: the
/// result is the frame's bytes as they were.
pub proof fn law_unpadded_rows_are_unchanged(packed: Seq<u8>, mapped: Seq<u8>, width: nat, height: nat)
    requires
        packs_rows(packed, mapped, width, height, 4 * width),
        4 * (width * height) <= mapped.len(),
    ensures
        packed == mapped.take((4 * (width * height)) as int),
{
    if width > 0 {
        let d = (4 * width) as int;
        assert forall|j: int| 0 <= j < packed.len() implies #[trigger] packed[j] == mapped[j] by {
            lemma_fundamental_div_mod(j, d);
            let y = j / d;
            let k = j % d;
            assert(0 <= k < d);
            assert(j == d * y + k);
            assert(0 <= y < height) by (nonlinear_arith)
                requires j == d * y + k, 0 <= k < d, 0 <= j < 4 * (width * height), d == 4 * width, width > 0;
            assert(4 * width * y == y * (4 * width)) by (nonlinear_arith);
            assert(packed[4 * width * y + k] == mapped[y * (4 * width) + k]);
        }
    } else {
        assert(4 * (width * height) == 0) by (nonlinear_arith)
            requires width == 0;
    }
    assert(packed =~= mapped.take((4 * (width * height)) as int));
}

/// Copies the first `4 * width` bytes of each of the `height` rows of a
/// readback whose rows are `padded_bytes_per_row` apart, dropping the padding:
/// the result is the tightly packed frame (row stride `4 * width`).
pub fn tightly_pack_rows(mapped: &[u8], width: u32, height: u32, padded_bytes_per_row: u32) -> (packed: Vec<u8>)
    requires
        4 * (width * height) <= u32::MAX,
        height == 0 || (height - 1) * padded_bytes_per_row + 4 * width <= mapped@.len(),
        height == 0 || (height - 1) * padded_bytes_per_row <= u32::MAX,
    ensures
        packs_rows(packed@, mapped@, width as nat, height as nat, padded_bytes_per_row as nat),
{
    let mut packed: Vec<u8> = Vec::new();
    let mut y: u32 = 0;
    while y < height
        invariant
            y <= height,
            4 * (width * height) <= u32::MAX,
            height == 0 || (height - 1) * padded_bytes_per_row + 4 * width <= mapped@.len(),
            height == 0 || (height - 1) * padded_bytes_per_row <= u32::MAX,
            packed@.len() == 4 * width * y,
            forall|yy: int, k: int|
                0 <= yy < y && 0 <= k < 4 * width ==> #[trigger] packed@[4 * width * yy + k] == mapped@[
                    yy * padded_bytes_per_row + k
                ],
        decreases height - y,
    {
        proof {
            assert(y * padded_bytes_per_row <= (height - 1) * padded_bytes_per_row) by (nonlinear_arith)
                requires y < height;
        }
        let row_start: usize = (y as usize) * (padded_bytes_per_row as usize);
        proof {
            assert(4 * width <= mapped.len());
        }
        let row_bytes: usize = 4 * (width as usize);
        let ghost before = packed@;
        let mut k: usize = 0;
        while k < row_bytes
            invariant
                row_bytes == 4 * width,
                y < height,
                row_start == y * padded_bytes_per_row,
                row_start + row_bytes <= mapped.len(),
                k <= row_bytes,
                packed@.len() == before.len() + k,
                before.len() == 4 * width * y,
                forall|j: int| 0 <= j < before.len() ==> #[trigger] packed@[j] == before[j],
                forall|j: int| 0 <= j < k ==> #[trigger] packed@[before.len() + j] == mapped@[row_start + j],
            decreases row_bytes - k,
        {
            packed.push(mapped[row_start + k]);
            k = k + 1;
        }
        proof {
            assert forall|yy: int, kk: int|
                0 <= yy < y + 1 && 0 <= kk < 4 * width implies #[trigger] packed@[4 * width * yy + kk] == mapped@[
                    yy * padded_bytes_per_row + kk
                ] by {
                if yy < y {
                    assert(4 * width * yy + kk < 4 * width * y) by (nonlinear_arith)
                        requires yy < y, 0 <= kk < 4 * width;
                    assert(packed@[4 * width * yy + kk] == before[4 * width * yy + kk]);
                } else {
                    assert(packed@[before.len() + kk] == mapped@[row_start + kk]);
                }
            }
            assert(4 * width * y + 4 * width == 4 * width * (y + 1)) by (nonlinear_arith);
            assert(packed@.len() == 4 * width * (y + 1));
        }
        y = y + 1;
    }
    proof {
        assert(4 * width * height == 4 * (width * height)) by (nonlinear_arith);
    }
    packed
}

/// The length of a tightly packed RGBA8 frame did not match its dimensions.
#[derive(Debug, Clone, Copy, PartialEq, Eq)]
pub struct PixelLengthError {
    /// `width * height * 4`.
    pub expected: usize,
    /// The number of bytes given.
    pub actual: usize,
}

/// Checks that `pixels` holds exactly `width * height` pixels of 4 bytes each.
pub fn validate_pixel_length(pixels: &[u8], width: u32, height: u32) -> (result: Result<(), PixelLengthError>)
    requires
        4 * (width * height) <= usize::MAX,
    ensures
        result is Ok <==> pixels@.len() == 4 * (width * height),
        result matches Err(e) ==> e.expected == 4 * (width * height) && e.actual == pixels@.len(),
{
    proof {
        assert(width * height <= 4 * (width * height)) by (nonlinear_arith);
    }
    let expected: usize = (width as usize) * (height as usize) * 4;
    if pixels.len() != expected {
        return Err(PixelLengthError { expected, actual: pixels.len() });
    }
    Ok(())
}

} // verus!
