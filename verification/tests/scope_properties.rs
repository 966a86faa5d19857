use effects::color::{chroma_indices, luma_index};
use effects::histogram::compute_histogram_from_pixels;
use effects::parade::compute_parade_from_pixels;
use effects::readback::{padded_bytes_per_row, tightly_pack_rows, validate_pixel_length, PixelLengthError};
use effects::scopes::{
    histogram_of_readback, histogram_of_rgba, parade_of_readback, parade_of_rgba, vectorscope_of_readback,
    vectorscope_of_rgba, waveform_of_readback, waveform_of_rgba,
};
use effects::vectorscope::compute_vectorscope_from_pixels;
use effects::waveform::compute_waveform_from_pixels;

fn rgba(pixels: &[[u8; 3]]) -> Vec<u8> {
    pixels.iter().flat_map(|&[r, g, b]| [r, g, b, 255]).collect()
}

#[test]
fn luma_uses_bt601_weights() {
    assert_eq!(luma_index(255, 0, 0), 76);
    assert_eq!(luma_index(0, 255, 0), 150);
    assert_eq!(luma_index(0, 0, 255), 29);
    assert_eq!(luma_index(10, 200, 90), 131);
    assert_eq!(luma_index(255, 255, 255), 255);
}

fn binary32_luma(r: u8, g: u8, b: u8) -> usize {
    let luma = (0.299 * r as f32 + 0.587 * g as f32 + 0.114 * b as f32).round();
    luma.clamp(0.0, 255.0) as usize
}

fn binary32_chroma(r: u8, g: u8, b: u8) -> (usize, usize) {
    let (r, g, b) = (r as f32, g as f32, b as f32);
    let cb = 128.0 - 0.168_736 * r - 0.331_264 * g + 0.5 * b;
    let cr = 128.0 + 0.5 * r - 0.418_688 * g - 0.081_312 * b;
    (cb.round().clamp(0.0, 255.0) as usize, cr.round().clamp(0.0, 255.0) as usize)
}

#[test]
fn sums_near_a_half_level_round_as_binary32() {
    // 0.299*4 + 0.587*40 + 0.114*16 is 26.5 exactly, but 26.4999... in binary32.
    assert_eq!(luma_index(4, 40, 16), 26);
    assert_eq!(chroma_indices(0, 49, 49).1, 103);
    let bytes = rgba(&[[4, 40, 16]]);
    let histogram = compute_histogram_from_pixels(&bytes, 1, 1, false);
    assert_eq!(histogram.luma[26], 1);
    assert_eq!(histogram.luma[27], 0);
}

#[test]
fn buckets_agree_with_binary32_arithmetic() {
    for r in 0..=255u8 {
        for g in 0..=255u8 {
            for b in (0..=255u8).step_by(11).chain([16, 49, 255]) {
                assert_eq!(luma_index(r, g, b), binary32_luma(r, g, b), "luma of {r} {g} {b}");
                assert_eq!(chroma_indices(r, g, b), binary32_chroma(r, g, b), "chroma of {r} {g} {b}");
            }
        }
    }
}

#[test]
fn gray_luma_is_its_level() {
    for v in 0..=255u8 {
        assert_eq!(luma_index(v, v, v), v as usize);
    }
}

#[test]
fn chroma_of_primaries() {
    assert_eq!(chroma_indices(255, 0, 0), (85, 255));
    assert_eq!(chroma_indices(0, 255, 0), (44, 21));
    assert_eq!(chroma_indices(0, 0, 255), (255, 107));
    assert_eq!(chroma_indices(10, 200, 90), (105, 42));
}

#[test]
fn grays_land_at_chroma_center() {
    for v in 0..=255u8 {
        assert_eq!(chroma_indices(v, v, v), (128, 128));
    }
}

#[test]
fn histogram_luma_buckets_of_primaries() {
    let bytes = rgba(&[[255, 0, 0], [0, 255, 0], [128, 128, 128], [128, 128, 128]]);
    let histogram = compute_histogram_from_pixels(&bytes, 2, 2, false);
    assert_eq!(histogram.luma[76], 1);
    assert_eq!(histogram.luma[150], 1);
    assert_eq!(histogram.luma[128], 2);
    for channel in [&histogram.red, &histogram.green, &histogram.blue, &histogram.luma] {
        assert_eq!(channel.iter().sum::<u32>(), 4);
    }
}

#[test]
fn uniform_image_is_a_single_spike_per_channel() {
    let bytes = rgba(&[[64, 200, 32]; 6]);
    let histogram = compute_histogram_from_pixels(&bytes, 3, 2, false);
    assert_eq!(histogram.red[64], 6);
    assert_eq!(histogram.green[200], 6);
    assert_eq!(histogram.blue[32], 6);
    assert_eq!(histogram.luma[luma_index(64, 200, 32)], 6);
    assert_eq!(histogram.red.iter().filter(|&&c| c != 0).count(), 1);
}

#[test]
fn empty_frame_gives_empty_scopes() {
    let histogram = compute_histogram_from_pixels(&[], 0, 0, false);
    assert!(histogram.red.iter().all(|&c| c == 0));
    let waveform = compute_waveform_from_pixels(&[], 0, 5, false);
    assert_eq!(waveform.width, 0);
    assert!(waveform.luma_by_column.is_empty());
    let waveform = compute_waveform_from_pixels(&[], 4, 0, false);
    assert_eq!(waveform.luma_by_column.len(), 4);
    assert!(waveform.luma_by_column.iter().all(|c| c.iter().all(|&n| n == 0)));
    let vectorscope = compute_vectorscope_from_pixels(&[], 0, 0, false);
    assert_eq!(vectorscope.buckets.len(), 256);
}

#[test]
fn trailing_bytes_beyond_the_frame_are_ignored() {
    let mut bytes = rgba(&[[1, 2, 3]]);
    bytes.extend_from_slice(&[9, 9, 9, 9]);
    let histogram = compute_histogram_from_pixels(&bytes, 1, 1, false);
    assert_eq!(histogram.red[1], 1);
    assert_eq!(histogram.red[9], 0);
}

#[test]
fn bgra_reading_swaps_red_and_blue_histograms() {
    let bytes = rgba(&[[10, 20, 30], [40, 50, 60], [10, 90, 200]]);
    let as_rgba = compute_histogram_from_pixels(&bytes, 3, 1, false);
    let as_bgra = compute_histogram_from_pixels(&bytes, 3, 1, true);
    assert_eq!(as_bgra.red, as_rgba.blue);
    assert_eq!(as_bgra.blue, as_rgba.red);
    assert_eq!(as_bgra.green, as_rgba.green);
}

#[test]
fn waveform_columns_add_up_to_histogram_luma() {
    let bytes = rgba(&[
        [0, 0, 0], [128, 128, 128], [255, 255, 255],
        [0, 0, 0], [10, 200, 90], [0, 0, 255],
    ]);
    let waveform = compute_waveform_from_pixels(&bytes, 3, 2, false);
    let histogram = compute_histogram_from_pixels(&bytes, 3, 2, false);
    for level in 0..256 {
        let total: u32 = waveform.luma_by_column.iter().map(|column| column[level]).sum();
        assert_eq!(total, histogram.luma[level]);
    }
    for column in &waveform.luma_by_column {
        assert_eq!(column.iter().sum::<u32>(), 2);
    }
}

#[test]
fn gradient_gives_one_luma_per_column() {
    let bytes = rgba(&[[0, 0, 0], [85, 85, 85], [170, 170, 170], [255, 255, 255]]);
    let waveform = compute_waveform_from_pixels(&bytes, 4, 1, false);
    for (column, level) in [0usize, 85, 170, 255].iter().enumerate() {
        assert_eq!(waveform.luma_by_column[column][*level], 1);
        assert_eq!(waveform.luma_by_column[column].iter().sum::<u32>(), 1);
    }
}

#[test]
fn parade_columns_add_up_to_histogram_channels() {
    let bytes = rgba(&[[255, 0, 0], [0, 255, 0], [10, 200, 90], [10, 10, 10], [0, 0, 0], [255, 255, 255]]);
    let parade = compute_parade_from_pixels(&bytes, 3, 2, false);
    let histogram = compute_histogram_from_pixels(&bytes, 3, 2, false);
    assert_eq!(parade.width, 3);
    for level in 0..256 {
        let red: u32 = parade.red_by_column.iter().map(|c| c[level]).sum();
        let green: u32 = parade.green_by_column.iter().map(|c| c[level]).sum();
        let blue: u32 = parade.blue_by_column.iter().map(|c| c[level]).sum();
        assert_eq!(red, histogram.red[level]);
        assert_eq!(green, histogram.green[level]);
        assert_eq!(blue, histogram.blue[level]);
    }
    assert_eq!(parade.red_by_column[0][255], 1);
    assert_eq!(parade.red_by_column[0][10], 1);
}

#[test]
fn vectorscope_puts_distinct_hues_in_distinct_buckets() {
    let bytes = rgba(&[[255, 0, 0], [0, 255, 0], [0, 0, 255], [64, 64, 64]]);
    let vectorscope = compute_vectorscope_from_pixels(&bytes, 2, 2, false);
    assert_eq!(vectorscope.buckets[85][255], 1);
    assert_eq!(vectorscope.buckets[44][21], 1);
    assert_eq!(vectorscope.buckets[255][107], 1);
    assert_eq!(vectorscope.buckets[128][128], 1);
    let total: u32 = vectorscope.buckets.iter().flatten().sum();
    assert_eq!(total, 4);
}

#[test]
fn padded_row_is_next_multiple_of_alignment() {
    assert_eq!(padded_bytes_per_row(0, 256), 0);
    assert_eq!(padded_bytes_per_row(1, 256), 256);
    assert_eq!(padded_bytes_per_row(64, 256), 256);
    assert_eq!(padded_bytes_per_row(65, 256), 512);
    assert_eq!(padded_bytes_per_row(3, 4), 12);
}

#[test]
fn repacking_drops_row_padding() {
    // 2x2 frame, rows 12 bytes apart (8 bytes of pixels + 4 of padding).
    let mapped: Vec<u8> = vec![1, 2, 3, 4, 5, 6, 7, 8, 0, 0, 0, 0, 9, 10, 11, 12, 13, 14, 15, 16];
    let packed = tightly_pack_rows(&mapped, 2, 2, 12);
    assert_eq!(packed, vec![1, 2, 3, 4, 5, 6, 7, 8, 9, 10, 11, 12, 13, 14, 15, 16]);
}

#[test]
fn repacking_without_padding_is_identity() {
    let mapped: Vec<u8> = (0..24).collect();
    let packed = tightly_pack_rows(&mapped, 3, 2, 12);
    assert_eq!(packed, mapped);
}

#[test]
fn pixel_length_must_match_dimensions() {
    assert_eq!(validate_pixel_length(&[0u8; 16], 2, 2), Ok(()));
    assert_eq!(
        validate_pixel_length(&[0u8; 15], 2, 2),
        Err(PixelLengthError { expected: 16, actual: 15 })
    );
    assert_eq!(validate_pixel_length(&[], 0, 7), Ok(()));
}

#[test]
fn readback_scopes_bin_the_repacked_frame() {
    // 2x2 frame, rows 12 bytes apart; the padding holds bright bytes that must not count.
    let mapped: Vec<u8> = vec![
        255, 0, 0, 255, 0, 255, 0, 255, 250, 250, 250, 250, //
        0, 0, 255, 255, 64, 64, 64, 255,
    ];
    let packed = rgba(&[[255, 0, 0], [0, 255, 0], [0, 0, 255], [64, 64, 64]]);
    for is_bgra in [false, true] {
        assert_eq!(histogram_of_readback(&mapped, 2, 2, 12, is_bgra), compute_histogram_from_pixels(&packed, 2, 2, is_bgra));
        assert_eq!(waveform_of_readback(&mapped, 2, 2, 12, is_bgra), compute_waveform_from_pixels(&packed, 2, 2, is_bgra));
        assert_eq!(
            vectorscope_of_readback(&mapped, 2, 2, 12, is_bgra),
            compute_vectorscope_from_pixels(&packed, 2, 2, is_bgra)
        );
        assert_eq!(parade_of_readback(&mapped, 2, 2, 12, is_bgra), compute_parade_from_pixels(&packed, 2, 2, is_bgra));
    }
    let histogram = histogram_of_readback(&mapped, 2, 2, 12, false);
    assert_eq!(histogram.red[250], 0);
    assert_eq!(histogram.red[255], 1);
    let histogram = histogram_of_readback(&mapped, 2, 2, 12, true);
    assert_eq!(histogram.blue[255], 1);
    assert_eq!(histogram.red[255], 1);
}

#[test]
fn rgba_scopes_check_the_length_first() {
    let bytes = rgba(&[[255, 0, 0], [0, 255, 0], [0, 0, 255], [64, 64, 64]]);
    assert_eq!(histogram_of_rgba(&bytes, 2, 2), Ok(compute_histogram_from_pixels(&bytes, 2, 2, false)));
    assert_eq!(waveform_of_rgba(&bytes, 2, 2), Ok(compute_waveform_from_pixels(&bytes, 2, 2, false)));
    assert_eq!(vectorscope_of_rgba(&bytes, 2, 2), Ok(compute_vectorscope_from_pixels(&bytes, 2, 2, false)));
    assert_eq!(parade_of_rgba(&bytes, 2, 2), Ok(compute_parade_from_pixels(&bytes, 2, 2, false)));
    let short = PixelLengthError { expected: 16, actual: 15 };
    assert_eq!(histogram_of_rgba(&bytes[..15], 2, 2), Err(short));
    assert_eq!(waveform_of_rgba(&bytes[..15], 2, 2), Err(short));
    assert_eq!(vectorscope_of_rgba(&bytes[..15], 2, 2), Err(short));
    assert_eq!(parade_of_rgba(&bytes[..15], 2, 2), Err(short));
    let long = PixelLengthError { expected: 12, actual: 16 };
    assert_eq!(histogram_of_rgba(&bytes, 3, 1), Err(long));
}

#[test]
fn histograms_add_over_joined_frames() {
    let a = rgba(&[[255, 0, 0], [4, 40, 16], [10, 200, 90]]);
    let b = rgba(&[[4, 40, 16], [0, 0, 0]]);
    let joined: Vec<u8> = [a.clone(), b.clone()].concat();
    let both = compute_histogram_from_pixels(&joined, 5, 1, false);
    let of_a = compute_histogram_from_pixels(&a, 3, 1, false);
    let of_b = compute_histogram_from_pixels(&b, 1, 2, false);
    for v in 0..256 {
        assert_eq!(both.red[v], of_a.red[v] + of_b.red[v]);
        assert_eq!(both.green[v], of_a.green[v] + of_b.green[v]);
        assert_eq!(both.blue[v], of_a.blue[v] + of_b.blue[v]);
        assert_eq!(both.luma[v], of_a.luma[v] + of_b.luma[v]);
    }
    assert_eq!(both.luma[26], 2);
}

#[test]
fn histogram_ignores_pixel_order() {
    let forward = rgba(&[[255, 0, 0], [4, 40, 16], [10, 200, 90], [0, 0, 0], [4, 40, 16], [7, 7, 7]]);
    let reversed = rgba(&[[7, 7, 7], [4, 40, 16], [0, 0, 0], [10, 200, 90], [4, 40, 16], [255, 0, 0]]);
    assert_eq!(
        compute_histogram_from_pixels(&forward, 3, 2, false),
        compute_histogram_from_pixels(&reversed, 2, 3, false)
    );
}
