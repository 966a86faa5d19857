//! The scopes of a whole frame as they are asked for: from a texture readback
//! whose rows lie a padded stride apart, or from a tightly packed RGBA8 frame
//! whose length is checked against its dimensions first.

use vstd::prelude::*;
use vstd::arithmetic::div_mod::{lemma_fundamental_div_mod, lemma_mod_bound};
use crate::frame::{Rgb, RED, GREEN, BLUE, LUMA, frame_pixels};
use crate::histogram::{compute_histogram_from_pixels, Histogram};
use crate::parade::{compute_parade_from_pixels, Parade};
use crate::readback::{packs_rows, tightly_pack_rows, validate_pixel_length, PixelLengthError};
use crate::vectorscope::{chroma_counts, compute_vectorscope_from_pixels, Vectorscope};
use crate::waveform::{column_counts, compute_waveform_from_pixels, Waveform};

verus! {

/// Pixel `i` (row-major) of a `width`-pixel-wide frame whose rows start
/// `stride` bytes apart in `mapped`, read as RGBA, or as BGRA when `is_bgra`.
pub open spec fn readback_pixel(mapped: Seq<u8>, width: nat, stride: nat, i: int, is_bgra: bool) -> Rgb {
    let at = (i / (width as int)) * stride + 4 * (i % (width as int));
    if is_bgra {
        (mapped[at + 2], mapped[at + 1], mapped[at])
    } else {
        (mapped[at], mapped[at + 1], mapped[at + 2])
    }
}

/// The `width * height` pixels of a readback with row stride `stride`, in
/// row-major order; the padding after each row is not part of the frame.
pub open spec fn readback_frame(mapped: Seq<u8>, width: nat, height: nat, stride: nat, is_bgra: bool) -> Seq<Rgb> {
    Seq::new(width * height, |i: int| readback_pixel(mapped, width, stride, i, is_bgra))
}

/// Repacking the rows of a readback keeps its pixels: the tightly packed frame
/// holds exactly the pixels of the readback, in the same order.
pub proof fn law_repacking_keeps_the_pixels(
    packed: Seq<u8>,
    mapped: Seq<u8>,
    width: nat,
    height: nat,
    stride: nat,
    is_bgra: bool,
)
    requires
        packs_rows(packed, mapped, width, height, stride),
    ensures
        frame_pixels(packed, width, height, is_bgra) == readback_frame(mapped, width, height, stride, is_bgra),
{
    let a = frame_pixels(packed, width, height, is_bgra);
    let b = readback_frame(mapped, width, height, stride, is_bgra);
    assert forall|i: int| 0 <= i < a.len() implies a[i] == b[i] by {
        let w = width as int;
        assert(w > 0) by (nonlinear_arith)
            requires
                0 <= i < width * height,
                w == width,
        ;
        lemma_fundamental_div_mod(i, w);
        lemma_mod_bound(i, w);
        let y = i / w;
        let x = i % w;
        assert(0 <= y < height) by (nonlinear_arith)
            requires
                i == w * y + x,
                0 <= x < w,
                0 <= i < width * height,
                w == width,
        ;
        assert(4 * i == 4 * width * y + 4 * x) by (nonlinear_arith)
            requires
                i == w * y + x,
                w == width,
        ;
        assert(packed[4 * width * y + (4 * x)] == mapped[y * stride + (4 * x)]);
        assert(packed[4 * width * y + (4 * x + 1)] == mapped[y * stride + (4 * x + 1)]);
        assert(packed[4 * width * y + (4 * x + 2)] == mapped[y * stride + (4 * x + 2)]);
    }
    assert(a =~= b);
}

/// Histogram of a readback of `height` rows of `width` pixels whose rows lie
/// `padded_bytes_per_row` bytes apart: the rows are repacked, then binned.
pub fn histogram_of_readback(
    mapped: &[u8],
    width: u32,
    height: u32,
    padded_bytes_per_row: u32,
    is_bgra: bool,
) -> (histogram: Histogram)
    requires
        4 * (width * height) <= u32::MAX,
        height == 0 || (height - 1) * padded_bytes_per_row + 4 * width <= mapped@.len(),
        height == 0 || (height - 1) * padded_bytes_per_row <= u32::MAX,
    ensures
        histogram.counts(readback_frame(mapped@, width as nat, height as nat, padded_bytes_per_row as nat, is_bgra)),
{
    let packed = tightly_pack_rows(mapped, width, height, padded_bytes_per_row);
    proof {
        law_repacking_keeps_the_pixels(packed@, mapped@, width as nat, height as nat, padded_bytes_per_row as nat, is_bgra);
    }
    compute_histogram_from_pixels(&packed, width, height, is_bgra)
}

/// Waveform of a readback whose rows lie `padded_bytes_per_row` bytes apart.
pub fn waveform_of_readback(
    mapped: &[u8],
    width: u32,
    height: u32,
    padded_bytes_per_row: u32,
    is_bgra: bool,
) -> (waveform: Waveform)
    requires
        4 * (width * height) <= u32::MAX,
        height == 0 || (height - 1) * padded_bytes_per_row + 4 * width <= mapped@.len(),
        height == 0 || (height - 1) * padded_bytes_per_row <= u32::MAX,
    ensures
        waveform.width == width,
        column_counts(
            waveform.luma_by_column@,
            readback_frame(mapped@, width as nat, height as nat, padded_bytes_per_row as nat, is_bgra),
            width as nat,
            height as nat,
            LUMA,
        ),
{
    let packed = tightly_pack_rows(mapped, width, height, padded_bytes_per_row);
    proof {
        law_repacking_keeps_the_pixels(packed@, mapped@, width as nat, height as nat, padded_bytes_per_row as nat, is_bgra);
    }
    compute_waveform_from_pixels(&packed, width, height, is_bgra)
}

/// Vectorscope of a readback whose rows lie `padded_bytes_per_row` bytes apart.
pub fn vectorscope_of_readback(
    mapped: &[u8],
    width: u32,
    height: u32,
    padded_bytes_per_row: u32,
    is_bgra: bool,
) -> (vectorscope: Vectorscope)
    requires
        4 * (width * height) <= u32::MAX,
        height == 0 || (height - 1) * padded_bytes_per_row + 4 * width <= mapped@.len(),
        height == 0 || (height - 1) * padded_bytes_per_row <= u32::MAX,
    ensures
        chroma_counts(
            vectorscope.buckets@,
            readback_frame(mapped@, width as nat, height as nat, padded_bytes_per_row as nat, is_bgra),
        ),
{
    let packed = tightly_pack_rows(mapped, width, height, padded_bytes_per_row);
    proof {
        law_repacking_keeps_the_pixels(packed@, mapped@, width as nat, height as nat, padded_bytes_per_row as nat, is_bgra);
    }
    compute_vectorscope_from_pixels(&packed, width, height, is_bgra)
}

/// Parade of a readback whose rows lie `padded_bytes_per_row` bytes apart.
pub fn parade_of_readback(
    mapped: &[u8],
    width: u32,
    height: u32,
    padded_bytes_per_row: u32,
    is_bgra: bool,
) -> (parade: Parade)
    requires
        4 * (width * height) <= u32::MAX,
        height == 0 || (height - 1) * padded_bytes_per_row + 4 * width <= mapped@.len(),
        height == 0 || (height - 1) * padded_bytes_per_row <= u32::MAX,
    ensures
        parade.width == width,
        column_counts(
            parade.red_by_column@,
            readback_frame(mapped@, width as nat, height as nat, padded_bytes_per_row as nat, is_bgra),
            width as nat,
            height as nat,
            RED,
        ),
        column_counts(
            parade.green_by_column@,
            readback_frame(mapped@, width as nat, height as nat, padded_bytes_per_row as nat, is_bgra),
            width as nat,
            height as nat,
            GREEN,
        ),
        column_counts(
            parade.blue_by_column@,
            readback_frame(mapped@, width as nat, height as nat, padded_bytes_per_row as nat, is_bgra),
            width as nat,
            height as nat,
            BLUE,
        ),
{
    let packed = tightly_pack_rows(mapped, width, height, padded_bytes_per_row);
    proof {
        law_repacking_keeps_the_pixels(packed@, mapped@, width as nat, height as nat, padded_bytes_per_row as nat, is_bgra);
    }
    compute_parade_from_pixels(&packed, width, height, is_bgra)
}

/// The length error of a frame of `width * height` RGBA8 pixels given as
/// `actual` bytes.
pub open spec fn length_error(width: u32, height: u32, actual: nat) -> PixelLengthError {
    PixelLengthError { expected: (4 * (width * height)) as usize, actual: actual as usize }
}

/// Histogram of a tightly packed RGBA8 frame, refused with the length error
/// unless it holds exactly `width * height` pixels.
pub fn histogram_of_rgba(pixels: &[u8], width: u32, height: u32) -> (result: Result<Histogram, PixelLengthError>)
    requires
        4 * (width * height) <= usize::MAX,
        width * height <= u32::MAX,
    ensures
        result is Ok <==> pixels@.len() == 4 * (width * height),
        result matches Ok(h) ==> h.counts(frame_pixels(pixels@, width as nat, height as nat, false)),
        result matches Err(e) ==> e == length_error(width, height, pixels@.len()),
{
    if let Err(e) = validate_pixel_length(pixels, width, height) {
        return Err(e);
    }
    Ok(compute_histogram_from_pixels(pixels, width, height, false))
}

/// Waveform of a tightly packed RGBA8 frame, refused with the length error
/// unless it holds exactly `width * height` pixels.
pub fn waveform_of_rgba(pixels: &[u8], width: u32, height: u32) -> (result: Result<Waveform, PixelLengthError>)
    requires
        4 * (width * height) <= usize::MAX,
    ensures
        result is Ok <==> pixels@.len() == 4 * (width * height),
        result matches Ok(w) ==> w.width == width && column_counts(
            w.luma_by_column@,
            frame_pixels(pixels@, width as nat, height as nat, false),
            width as nat,
            height as nat,
            LUMA,
        ),
        result matches Err(e) ==> e == length_error(width, height, pixels@.len()),
{
    if let Err(e) = validate_pixel_length(pixels, width, height) {
        return Err(e);
    }
    Ok(compute_waveform_from_pixels(pixels, width, height, false))
}

/// Vectorscope of a tightly packed RGBA8 frame, refused with the length error
/// unless it holds exactly `width * height` pixels.
pub fn vectorscope_of_rgba(pixels: &[u8], width: u32, height: u32) -> (result: Result<Vectorscope, PixelLengthError>)
    requires
        4 * (width * height) <= usize::MAX,
        width * height <= u32::MAX,
    ensures
        result is Ok <==> pixels@.len() == 4 * (width * height),
        result matches Ok(v) ==> chroma_counts(v.buckets@, frame_pixels(pixels@, width as nat, height as nat, false)),
        result matches Err(e) ==> e == length_error(width, height, pixels@.len()),
{
    if let Err(e) = validate_pixel_length(pixels, width, height) {
        return Err(e);
    }
    Ok(compute_vectorscope_from_pixels(pixels, width, height, false))
}

/// Parade of a tightly packed RGBA8 frame, refused with the length error
/// unless it holds exactly `width * height` pixels.
pub fn parade_of_rgba(pixels: &[u8], width: u32, height: u32) -> (result: Result<Parade, PixelLengthError>)
    requires
        4 * (width * height) <= usize::MAX,
    ensures
        result is Ok <==> pixels@.len() == 4 * (width * height),
        result matches Ok(p) ==> {
            let frame = frame_pixels(pixels@, width as nat, height as nat, false);
            &&& p.width == width
            &&& column_counts(p.red_by_column@, frame, width as nat, height as nat, RED)
            &&& column_counts(p.green_by_column@, frame, width as nat, height as nat, GREEN)
            &&& column_counts(p.blue_by_column@, frame, width as nat, height as nat, BLUE)
        },
        result matches Err(e) ==> e == length_error(width, height, pixels@.len()),
{
    if let Err(e) = validate_pixel_length(pixels, width, height) {
        return Err(e);
    }
    Ok(compute_parade_from_pixels(pixels, width, height, false))
}

} // verus!
