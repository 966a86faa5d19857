//! Properties of the scopes that span functions: what the buckets add up to,
//! how the per-column scopes relate to the whole-frame histogram, and what the
//! BGRA flag does.

use vstd::prelude::*;
use crate::frame::{Rgb, RED, GREEN, BLUE, LUMA, channel_value, channel_values, chroma_values, count_eq, frame_pixels};
use crate::histogram::Histogram;
use crate::waveform::{column_counts, column_values};
use crate::vectorscope::chroma_counts;

verus! {

/// Sum of the first `n` buckets.
pub open spec fn bucket_total(buckets: Seq<u32>, n: int) -> int
    decreases n,
{
    if n <= 0 {
        0
    } else {
        bucket_total(buckets, n - 1) + buckets[n - 1]
    }
}

/// Sum of bucket `v` over the first `n` columns.
pub open spec fn column_total(columns: Seq<[u32; 256]>, v: int, n: int) -> int
    decreases n,
{
    if n <= 0 {
        0
    } else {
        column_total(columns, v, n - 1) + columns[n - 1]@[v]
    }
}

/// Sum of all `256 x 256` cells of the first `n` rows of a grid.
pub open spec fn grid_total(grid: Seq<[u32; 256]>, n: int) -> int
    decreases n,
{
    if n <= 0 {
        0
    } else {
        grid_total(grid, n - 1) + bucket_total(grid[n - 1]@, 256)
    }
}

// ---- counting lemmas ----

proof fn lemma_count_eq_push<T>(s: Seq<T>, e: T, v: T)
    ensures
        count_eq(s.push(e), v) == count_eq(s, v) + if e == v { 1int } else { 0int },
{
    assert(s.push(e).drop_last() =~= s);
}

proof fn lemma_count_eq_concat<T>(a: Seq<T>, b: Seq<T>, v: T)
    ensures
        count_eq(a + b, v) == count_eq(a, v) + count_eq(b, v),
    decreases b.len(),
{
    if b.len() == 0 {
        assert(a + b =~= a);
    } else {
        assert((a + b).drop_last() =~= a + b.drop_last());
        lemma_count_eq_concat(a, b.drop_last(), v);
    }
}

/// Sum over levels `v < k` of the occurrences of `v`.
spec fn counts_below(values: Seq<int>, k: int) -> int
    decreases k,
{
    if k <= 0 {
        0
    } else {
        counts_below(values, k - 1) + count_eq(values, k - 1)
    }
}

proof fn lemma_counts_below_push(values: Seq<int>, e: int, k: int)
    ensures
        counts_below(values.push(e), k) == counts_below(values, k) + if 0 <= e < k { 1int } else { 0int },
    decreases k,
{
    if k > 0 {
        lemma_counts_below_push(values, e, k - 1);
        lemma_count_eq_push(values, e, k - 1);
    }
}

proof fn lemma_counts_below_all(values: Seq<int>)
    requires
        forall|i: int| 0 <= i < values.len() ==> 0 <= #[trigger] values[i] < 256,
    ensures
        counts_below(values, 256) == values.len(),
    decreases values.len(),
{
    if values.len() == 0 {
        lemma_counts_below_empty(values, 256);
    } else {
        let init = values.drop_last();
        lemma_counts_below_all(init);
        assert(init.push(values.last()) =~= values);
        lemma_counts_below_push(init, values.last(), 256);
    }
}

proof fn lemma_counts_below_empty(values: Seq<int>, k: int)
    requires
        values.len() == 0,
    ensures
        counts_below(values, k) == 0,
    decreases k,
{
    if k > 0 {
        lemma_counts_below_empty(values, k - 1);
    }
}

proof fn lemma_bucket_total_counts(buckets: Seq<u32>, values: Seq<int>, k: int)
    requires
        0 <= k <= 256,
        forall|v: int| 0 <= v < 256 ==> #[trigger] buckets[v] == count_eq(values, v),
    ensures
        bucket_total(buckets, k) == counts_below(values, k),
    decreases k,
{
    if k > 0 {
        lemma_bucket_total_counts(buckets, values, k - 1);
    }
}

proof fn lemma_channel_values_in_range(frame: Seq<Rgb>, c: u8)
    ensures
        forall|i: int| 0 <= i < frame.len() ==> 0 <= #[trigger] channel_values(frame, c)[i] < 256,
{
}

/// Buckets that count a sequence of levels add up to its length.
proof fn lemma_buckets_add_up(buckets: Seq<u32>, values: Seq<int>)
    requires
        forall|i: int| 0 <= i < values.len() ==> 0 <= #[trigger] values[i] < 256,
        forall|v: int| 0 <= v < 256 ==> #[trigger] buckets[v] == count_eq(values, v),
    ensures
        bucket_total(buckets, 256) == values.len(),
{
    lemma_bucket_total_counts(buckets, values, 256);
    lemma_counts_below_all(values);
}

// ---- whole-frame totals ----

/// Every channel of a histogram accounts for every pixel exactly once: its
/// 256 buckets add up to the number of pixels.
pub proof fn law_histogram_counts_every_pixel(histogram: Histogram, frame: Seq<Rgb>)
    requires
        histogram.counts(frame),
    ensures
        forall|c: u8| c <= LUMA ==> bucket_total(#[trigger] histogram.channel(c), 256) == frame.len(),
{
    assert forall|c: u8| c <= LUMA implies bucket_total(#[trigger] histogram.channel(c), 256) == frame.len() by {
        lemma_channel_values_in_range(frame, c);
        assert forall|v: int| 0 <= v < 256 implies #[trigger] histogram.channel(c)[v] == count_eq(channel_values(frame, c), v) by {}
        lemma_buckets_add_up(histogram.channel(c), channel_values(frame, c));
    }
}

/// Every column of a per-column scope accounts for each of the column's pixels
/// exactly once: its 256 buckets add up to the frame's height.
pub proof fn law_columns_count_every_row(columns: Seq<[u32; 256]>, frame: Seq<Rgb>, width: nat, height: nat, c: u8)
    requires
        column_counts(columns, frame, width, height, c),
    ensures
        forall|x: int| 0 <= x < width ==> bucket_total(#[trigger] columns[x]@, 256) == height,
{
    assert forall|x: int| 0 <= x < width implies bucket_total(#[trigger] columns[x]@, 256) == height by {
        let values = column_values(frame, width, height, x, c);
        assert forall|v: int| 0 <= v < 256 implies #[trigger] columns[x]@[v] == count_eq(values, v) by {}
        assert forall|i: int| 0 <= i < values.len() implies 0 <= #[trigger] values[i] < 256 by {}
        lemma_buckets_add_up(columns[x]@, values);
    }
}

// ---- vectorscope total ----

/// Occurrences of the pairs `(a, b)` with `b < m`.
spec fn row_counts(values: Seq<(int, int)>, a: int, m: int) -> int
    decreases m,
{
    if m <= 0 {
        0
    } else {
        row_counts(values, a, m - 1) + count_eq(values, (a, m - 1))
    }
}

/// Occurrences of the pairs `(a, b)` with `a < k`, `b < 256`.
spec fn grid_counts(values: Seq<(int, int)>, k: int) -> int
    decreases k,
{
    if k <= 0 {
        0
    } else {
        grid_counts(values, k - 1) + row_counts(values, k - 1, 256)
    }
}

proof fn lemma_row_counts_push(values: Seq<(int, int)>, e: (int, int), a: int, m: int)
    ensures
        row_counts(values.push(e), a, m) == row_counts(values, a, m) + if e.0 == a && 0 <= e.1 < m { 1int } else { 0int },
    decreases m,
{
    if m > 0 {
        lemma_row_counts_push(values, e, a, m - 1);
        lemma_count_eq_push(values, e, (a, m - 1));
    }
}

proof fn lemma_grid_counts_push(values: Seq<(int, int)>, e: (int, int), k: int)
    ensures
        grid_counts(values.push(e), k) == grid_counts(values, k) + if 0 <= e.0 < k && 0 <= e.1 < 256 { 1int } else { 0int },
    decreases k,
{
    if k > 0 {
        lemma_grid_counts_push(values, e, k - 1);
        lemma_row_counts_push(values, e, k - 1, 256);
    }
}

proof fn lemma_grid_counts_empty(values: Seq<(int, int)>, k: int)
    requires
        values.len() == 0,
    ensures
        grid_counts(values, k) == 0,
    decreases k,
{
    if k > 0 {
        lemma_grid_counts_empty(values, k - 1);
        lemma_row_counts_empty(values, k - 1, 256);
    }
}

proof fn lemma_row_counts_empty(values: Seq<(int, int)>, a: int, m: int)
    requires
        values.len() == 0,
    ensures
        row_counts(values, a, m) == 0,
    decreases m,
{
    if m > 0 {
        lemma_row_counts_empty(values, a, m - 1);
    }
}

proof fn lemma_grid_counts_all(values: Seq<(int, int)>)
    requires
        forall|i: int| 0 <= i < values.len() ==> 0 <= (#[trigger] values[i]).0 < 256 && 0 <= values[i].1 < 256,
    ensures
        grid_counts(values, 256) == values.len(),
    decreases values.len(),
{
    if values.len() == 0 {
        lemma_grid_counts_empty(values, 256);
    } else {
        let init = values.drop_last();
        lemma_grid_counts_all(init);
        assert(init.push(values.last()) =~= values);
        lemma_grid_counts_push(init, values.last(), 256);
    }
}

proof fn lemma_bucket_total_row(row: Seq<u32>, values: Seq<(int, int)>, a: int, m: int)
    requires
        0 <= m <= 256,
        forall|b: int| 0 <= b < 256 ==> #[trigger] row[b] == count_eq(values, (a, b)),
    ensures
        bucket_total(row, m) == row_counts(values, a, m),
    decreases m,
{
    if m > 0 {
        lemma_bucket_total_row(row, values, a, m - 1);
    }
}

proof fn lemma_grid_total_counts(grid: Seq<[u32; 256]>, values: Seq<(int, int)>, k: int)
    requires
        0 <= k <= 256,
        chroma_counts_of(grid, values),
    ensures
        grid_total(grid, k) == grid_counts(values, k),
    decreases k,
{
    if k > 0 {
        lemma_grid_total_counts(grid, values, k - 1);
        assert forall|b: int| 0 <= b < 256 implies #[trigger] grid[k - 1]@[b] == count_eq(values, (k - 1, b)) by {}
        lemma_bucket_total_row(grid[k - 1]@, values, k - 1, 256);
    }
}

spec fn chroma_counts_of(grid: Seq<[u32; 256]>, values: Seq<(int, int)>) -> bool {
    &&& grid.len() == 256
    &&& forall|cb: int, cr: int| 0 <= cb < 256 && 0 <= cr < 256 ==> #[trigger] grid[cb]@[cr] == count_eq(values, (cb, cr))
}

/// The vectorscope accounts for every pixel exactly once: its `256 x 256`
/// cells add up to the number of pixels.
pub proof fn law_vectorscope_counts_every_pixel(buckets: Seq<[u32; 256]>, frame: Seq<Rgb>)
    requires
        chroma_counts(buckets, frame),
    ensures
        grid_total(buckets, 256) == frame.len(),
{
    let values = chroma_values(frame);
    lemma_grid_total_counts(buckets, values, 256);
    lemma_grid_counts_all(values);
}

// ---- per-column scopes against the whole-frame histogram ----

/// Sum over the first `n` columns of the occurrences of `v` in the first
/// `rows` rows of each column.
spec fn column_count_sum(frame: Seq<Rgb>, width: nat, rows: nat, c: u8, v: int, n: int) -> int
    decreases n,
{
    if n <= 0 {
        0
    } else {
        column_count_sum(frame, width, rows, c, v, n - 1) + count_eq(column_values(frame, width, rows, n - 1, c), v)
    }
}

/// Occurrences of `v` among `values[start + x]`, `x < n`.
spec fn run_count(values: Seq<int>, start: int, v: int, n: int) -> int
    decreases n,
{
    if n <= 0 {
        0
    } else {
        run_count(values, start, v, n - 1) + if values[start + n - 1] == v { 1int } else { 0int }
    }
}

proof fn lemma_count_subrange(values: Seq<int>, start: int, v: int, n: int)
    requires
        0 <= start,
        0 <= n,
        start + n <= values.len(),
    ensures
        count_eq(values.subrange(start, start + n), v) == run_count(values, start, v, n),
    decreases n,
{
    if n > 0 {
        lemma_count_subrange(values, start, v, n - 1);
        assert(values.subrange(start, start + n).drop_last() =~= values.subrange(start, start + n - 1));
    }
}

proof fn lemma_column_count_sum_zero_rows(frame: Seq<Rgb>, width: nat, c: u8, v: int, n: int)
    ensures
        column_count_sum(frame, width, 0, c, v, n) == 0,
    decreases n,
{
    if n > 0 {
        lemma_column_count_sum_zero_rows(frame, width, c, v, n - 1);
    }
}

/// Adding row `y` to every column adds that row's occurrences of `v`.
proof fn lemma_column_count_sum_next_row(frame: Seq<Rgb>, width: nat, y: nat, c: u8, v: int, n: int)
    requires
        0 <= n <= width,
        y * width + width <= frame.len(),
    ensures
        column_count_sum(frame, width, y + 1, c, v, n) == column_count_sum(frame, width, y, c, v, n) + run_count(
            channel_values(frame, c),
            (y * width) as int,
            v,
            n,
        ),
    decreases n,
{
    if n > 0 {
        lemma_column_count_sum_next_row(frame, width, y, c, v, n - 1);
        let x = n - 1;
        let before = column_values(frame, width, y, x, c);
        let after = column_values(frame, width, (y + 1) as nat, x, c);
        assert(after =~= before.push(channel_value(frame[y * width + x], c)));
        lemma_count_eq_push(before, channel_value(frame[y * width + x], c), v);
        assert(channel_values(frame, c)[y * width + x] == channel_value(frame[y * width + x], c));
    }
}

/// Counting `v` column by column over the first `y` rows is counting it over
/// the first `y` rows of the frame.
proof fn lemma_columns_sum_to_rows(frame: Seq<Rgb>, width: nat, y: nat, c: u8, v: int)
    requires
        y * width <= frame.len(),
    ensures
        column_count_sum(frame, width, y, c, v, width as int) == count_eq(channel_values(frame, c).take((y * width) as int), v),
    decreases y,
{
    let values = channel_values(frame, c);
    if y == 0 {
        lemma_column_count_sum_zero_rows(frame, width, c, v, width as int);
        assert(y * width == 0) by (nonlinear_arith)
            requires y == 0;
        assert(values.take(0).len() == 0);
    } else {
        let p = (y - 1) as nat;
        assert(p * width + width == y * width) by (nonlinear_arith)
            requires p == y - 1;
        assert(p * width <= y * width) by (nonlinear_arith)
            requires p == y - 1;
        lemma_columns_sum_to_rows(frame, width, p, c, v);
        lemma_column_count_sum_next_row(frame, width, p, c, v, width as int);
        let a = (p * width) as int;
        let b = (y * width) as int;
        assert(values.take(b) =~= values.take(a) + values.subrange(a, a + width));
        lemma_count_eq_concat(values.take(a), values.subrange(a, a + width), v);
        lemma_count_subrange(values, a, v, width as int);
    }
}

proof fn lemma_column_total_counts(columns: Seq<[u32; 256]>, frame: Seq<Rgb>, width: nat, height: nat, c: u8, v: int, n: int)
    requires
        column_counts(columns, frame, width, height, c),
        0 <= v < 256,
        0 <= n <= width,
    ensures
        column_total(columns, v, n) == column_count_sum(frame, width, height, c, v, n),
    decreases n,
{
    if n > 0 {
        lemma_column_total_counts(columns, frame, width, height, c, v, n - 1);
        assert(columns[n - 1]@[v] == count_eq(column_values(frame, width, height, n - 1, c), v));
    }
}

/// A per-column scope splits the whole-frame histogram by column: for each
/// level, the column buckets of a channel add up to the histogram's bucket.
/// (Waveform columns add up to the luma histogram; parade columns to the red,
/// green and blue histograms.)
pub proof fn law_columns_add_up_to_histogram(
    columns: Seq<[u32; 256]>,
    histogram: Histogram,
    frame: Seq<Rgb>,
    width: nat,
    height: nat,
    c: u8,
)
    requires
        frame.len() == width * height,
        c <= LUMA,
        column_counts(columns, frame, width, height, c),
        histogram.counts(frame),
    ensures
        forall|v: int| 0 <= v < 256 ==> #[trigger] column_total(columns, v, width as int) == histogram.channel(c)[v],
{
    assert forall|v: int| 0 <= v < 256 implies #[trigger] column_total(columns, v, width as int) == histogram.channel(c)[v] by {
        assert(height * width == width * height) by (nonlinear_arith);
        lemma_column_total_counts(columns, frame, width, height, c, v, width as int);
        lemma_columns_sum_to_rows(frame, width, height, c, v);
        assert(channel_values(frame, c).take((height * width) as int) =~= channel_values(frame, c));
    }
}

// ---- the BGRA flag ----

/// Reading the same bytes as BGRA instead of RGBA swaps the red and blue
/// histograms and leaves green unchanged.
pub proof fn law_bgra_swaps_red_and_blue(pixels: Seq<u8>, width: nat, height: nat, as_rgba: Histogram, as_bgra: Histogram)
    requires
        as_rgba.counts(frame_pixels(pixels, width, height, false)),
        as_bgra.counts(frame_pixels(pixels, width, height, true)),
    ensures
        as_bgra.red@ == as_rgba.blue@,
        as_bgra.blue@ == as_rgba.red@,
        as_bgra.green@ == as_rgba.green@,
{
    let rgba = frame_pixels(pixels, width, height, false);
    let bgra = frame_pixels(pixels, width, height, true);
    assert(channel_values(bgra, RED) =~= channel_values(rgba, BLUE));
    assert(channel_values(bgra, BLUE) =~= channel_values(rgba, RED));
    assert(channel_values(bgra, GREEN) =~= channel_values(rgba, GREEN));
    assert forall|v: int| 0 <= v < 256 implies #[trigger] as_bgra.red@[v] == as_rgba.blue@[v] by {
        assert(as_bgra.channel(RED)[v] == as_rgba.channel(BLUE)[v]);
    }
    assert forall|v: int| 0 <= v < 256 implies #[trigger] as_bgra.blue@[v] == as_rgba.red@[v] by {
        assert(as_bgra.channel(BLUE)[v] == as_rgba.channel(RED)[v]);
    }
    assert forall|v: int| 0 <= v < 256 implies #[trigger] as_bgra.green@[v] == as_rgba.green@[v] by {
        assert(as_bgra.channel(GREEN)[v] == as_rgba.channel(GREEN)[v]);
    }
    assert(as_bgra.red@ =~= as_rgba.blue@);
    assert(as_bgra.blue@ =~= as_rgba.red@);
    assert(as_bgra.green@ =~= as_rgba.green@);
}

// ---- joining and reordering frames ----

/// The pixels of bytes `a + b` are the pixels of `a` followed by those of `b`,
/// when `a` holds exactly `na` whole pixels.
proof fn lemma_joined_bytes_join_pixels(a: Seq<u8>, b: Seq<u8>, na: nat, nb: nat, width: nat, height: nat, is_bgra: bool)
    requires
        a.len() == 4 * na,
        b.len() >= 4 * nb,
        width * height == na + nb,
    ensures
        frame_pixels(a + b, width, height, is_bgra) =~= frame_pixels(a, na, 1, is_bgra) + frame_pixels(b, nb, 1, is_bgra),
{
    let whole = frame_pixels(a + b, width, height, is_bgra);
    let left = frame_pixels(a, na, 1, is_bgra);
    let right = frame_pixels(b, nb, 1, is_bgra);
    assert(na * 1 == na && nb * 1 == nb);
    assert forall|i: int| 0 <= i < whole.len() implies #[trigger] whole[i] == (left + right)[i] by {
        if i < na {
            assert((a + b)[4 * i] == a[4 * i]);
            assert((a + b)[4 * i + 1] == a[4 * i + 1]);
            assert((a + b)[4 * i + 2] == a[4 * i + 2]);
        } else {
            let j = i - na;
            assert((a + b)[4 * i] == b[4 * j]);
            assert((a + b)[4 * i + 1] == b[4 * j + 1]);
            assert((a + b)[4 * i + 2] == b[4 * j + 2]);
        }
    }
}

/// Histograms add up over joined frames: binning the bytes of one frame
/// followed by those of another counts, in every bucket, the sum of what the
/// two frames count apart, whatever the shapes of the three frames.
pub proof fn law_histograms_add_over_joined_frames(
    a: Seq<u8>,
    width_a: nat,
    height_a: nat,
    b: Seq<u8>,
    width_b: nat,
    height_b: nat,
    width: nat,
    height: nat,
    is_bgra: bool,
    of_a: Histogram,
    of_b: Histogram,
    of_both: Histogram,
)
    requires
        a.len() == 4 * (width_a * height_a),
        b.len() >= 4 * (width_b * height_b),
        width * height == width_a * height_a + width_b * height_b,
        of_a.counts(frame_pixels(a, width_a, height_a, is_bgra)),
        of_b.counts(frame_pixels(b, width_b, height_b, is_bgra)),
        of_both.counts(frame_pixels(a + b, width, height, is_bgra)),
    ensures
        forall|c: u8, v: int|
            c <= LUMA && 0 <= v < 256 ==> #[trigger] of_both.channel(c)[v] == of_a.channel(c)[v] + of_b.channel(c)[v],
{
    let na = width_a * height_a;
    let nb = width_b * height_b;
    lemma_joined_bytes_join_pixels(a, b, na, nb, width, height, is_bgra);
    let fa = frame_pixels(a, width_a, height_a, is_bgra);
    let fb = frame_pixels(b, width_b, height_b, is_bgra);
    assert(fa =~= frame_pixels(a, na, 1, is_bgra));
    assert(fb =~= frame_pixels(b, nb, 1, is_bgra));
    let both = frame_pixels(a + b, width, height, is_bgra);
    assert forall|c: u8, v: int| c <= LUMA && 0 <= v < 256 implies #[trigger] of_both.channel(c)[v] == of_a.channel(c)[v]
        + of_b.channel(c)[v] by {
        assert(channel_values(both, c) =~= channel_values(fa, c) + channel_values(fb, c));
        lemma_count_eq_concat(channel_values(fa, c), channel_values(fb, c), v);
    }
}

/// Removing element `j` takes one occurrence of it out of every count.
proof fn lemma_count_eq_remove<T>(s: Seq<T>, j: int, v: T)
    requires
        0 <= j < s.len(),
    ensures
        count_eq(s, v) == count_eq(s.remove(j), v) + if s[j] == v { 1int } else { 0int },
{
    let head = s.take(j);
    let tail = s.skip(j + 1);
    assert(s.remove(j) =~= head + tail);
    assert(s =~= head + (seq![s[j]] + tail));
    lemma_count_eq_concat(head, tail, v);
    lemma_count_eq_concat(head, seq![s[j]] + tail, v);
    lemma_count_eq_concat(seq![s[j]], tail, v);
    assert(seq![s[j]].drop_last() =~= Seq::<T>::empty());
    assert(count_eq(Seq::<T>::empty(), v) == 0);
    assert(seq![s[j]].last() == s[j]);
    assert(count_eq(seq![s[j]], v) == if s[j] == v { 1nat } else { 0nat });
}

/// Frames holding the same pixels, each as often, have the same channel counts.
proof fn lemma_counts_ignore_order(f1: Seq<Rgb>, f2: Seq<Rgb>, c: u8, v: int)
    requires
        f1.to_multiset() == f2.to_multiset(),
    ensures
        count_eq(channel_values(f1, c), v) == count_eq(channel_values(f2, c), v),
    decreases f1.len(),
{
    broadcast use vstd::seq_lib::group_to_multiset_ensures;
    if f1.len() == 0 {
        assert(f1.to_multiset().len() == 0);
        assert(f2.to_multiset().len() == f2.len());
        assert(f2.len() == 0);
        assert(channel_values(f1, c).len() == 0);
        assert(channel_values(f2, c).len() == 0);
    } else {
        let e = f1.last();
        let rest1 = f1.drop_last();
        assert(f1 =~= rest1.push(e));
        assert(f1.to_multiset() =~= rest1.to_multiset().insert(e));
        assert(f2.to_multiset().count(e) > 0);
        assert(f2.contains(e));
        let j = choose|j: int| 0 <= j < f2.len() && f2[j] == e;
        let rest2 = f2.remove(j);
        assert(rest2.to_multiset() =~= f2.to_multiset().remove(e));
        assert(rest1.to_multiset() =~= rest1.to_multiset().insert(e).remove(e));
        lemma_counts_ignore_order(rest1, rest2, c, v);
        assert(channel_values(f1, c) =~= channel_values(rest1, c).push(channel_value(e, c)));
        lemma_count_eq_push(channel_values(rest1, c), channel_value(e, c), v);
        assert(channel_values(rest2, c) =~= channel_values(f2, c).remove(j));
        lemma_count_eq_remove(channel_values(f2, c), j, v);
    }
}

/// Only which pixels a frame holds matters to its histogram, not their order:
/// two frames holding the same pixels, each as often, have equal histograms.
pub proof fn law_histogram_ignores_pixel_order(h1: Histogram, f1: Seq<Rgb>, h2: Histogram, f2: Seq<Rgb>)
    requires
        h1.counts(f1),
        h2.counts(f2),
        f1.to_multiset() == f2.to_multiset(),
    ensures
        h1.red@ == h2.red@,
        h1.green@ == h2.green@,
        h1.blue@ == h2.blue@,
        h1.luma@ == h2.luma@,
{
    assert forall|c: u8, v: int| c <= LUMA && 0 <= v < 256 implies #[trigger] h1.channel(c)[v] == h2.channel(c)[v] by {
        lemma_counts_ignore_order(f1, f2, c, v);
    }
    assert forall|v: int| 0 <= v < 256 implies #[trigger] h1.red@[v] == h2.red@[v] by {
        assert(h1.channel(RED)[v] == h2.channel(RED)[v]);
    }
    assert forall|v: int| 0 <= v < 256 implies #[trigger] h1.green@[v] == h2.green@[v] by {
        assert(h1.channel(GREEN)[v] == h2.channel(GREEN)[v]);
    }
    assert forall|v: int| 0 <= v < 256 implies #[trigger] h1.blue@[v] == h2.blue@[v] by {
        assert(h1.channel(BLUE)[v] == h2.channel(BLUE)[v]);
    }
    assert forall|v: int| 0 <= v < 256 implies #[trigger] h1.luma@[v] == h2.luma@[v] by {
        assert(h1.channel(LUMA)[v] == h2.channel(LUMA)[v]);
    }
    assert(h1.red@ =~= h2.red@);
    assert(h1.green@ =~= h2.green@);
    assert(h1.blue@ =~= h2.blue@);
    assert(h1.luma@ =~= h2.luma@);
}

} // verus!
