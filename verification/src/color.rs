//! BT.601 luma and full-swing Cb/Cr bucket indices of an 8-bit RGB pixel.
//!
//! The scopes evaluate the BT.601 sums in IEEE 754 binary32 arithmetic and
//! round the sum to the nearest level, halves away from zero. Near a half
//! level the binary32 sum may land on either side of it, so the bucket is not
//! the exactly rounded real value. This module states and computes that
//! arithmetic with integers: every value the sums reach is a multiple of
//! `2^-27`, so it is held as an integer count of `2^-27` units, and each
//! binary32 operation is the exact integer result rounded to 24 significant
//! bits, ties to even.

use vstd::prelude::*;

verus! {

/// `1.0` in units of `2^-27`.
pub const UNIT_SCALE: u64 = 134217728;

/// `0.5` in units of `2^-27`.
pub const HALF_SCALE: u64 = 67108864;

/// The binary32 value nearest to `0.299`, in units of `2^-27`.
pub const LUMA_RED_WEIGHT: u64 = 40131100;

/// The binary32 value nearest to `0.587`, in units of `2^-27`.
pub const LUMA_GREEN_WEIGHT: u64 = 78785808;

/// The binary32 value nearest to `0.114`, in units of `2^-27`.
pub const LUMA_BLUE_WEIGHT: u64 = 15300821;

/// The binary32 value nearest to `0.168736`, in units of `2^-27`.
pub const CB_RED_WEIGHT: u64 = 22647362;

/// The binary32 value nearest to `0.331264`, in units of `2^-27`.
pub const CB_GREEN_WEIGHT: u64 = 44461500;

/// The binary32 value nearest to `0.418688`, in units of `2^-27`.
pub const CR_GREEN_WEIGHT: u64 = 56195352;

/// The binary32 value nearest to `0.081312`, in units of `2^-27`.
pub const CR_BLUE_WEIGHT: u64 = 10913512;

/// Below this bound (`2^36` units, that is `512.0`) every value of the
/// module is held in a `u64` with room to spare.
pub const VALUE_BOUND: u64 = 68719476736;

/// Spacing of the binary32 values around a magnitude of `m` units: the least
/// power of two `u` with `m < 2^24 * u`.
pub open spec fn f32_unit(m: nat) -> nat
    decreases m,
{
    if m < 0x1000000 {
        1
    } else {
        2 * f32_unit(m / 2)
    }
}

/// The binary32 value nearest to `n` units (ties to even), in units.
pub open spec fn f32_round(n: int) -> int {
    let m = if n < 0 { -n } else { n };
    let u = f32_unit(m as nat) as int;
    let q = m / u;
    let r = m % u;
    let k = if r * 2 > u || (r * 2 == u && q % 2 == 1) { q + 1 } else { q };
    if n < 0 { -(k * u) } else { k * u }
}

/// `f32::round` of `s` units: the nearest whole number, halves away from zero.
pub open spec fn round_half_away(s: int) -> int {
    if s >= 0 {
        (s + HALF_SCALE) / (UNIT_SCALE as int)
    } else {
        -((-s + HALF_SCALE) / (UNIT_SCALE as int))
    }
}

/// Clamps `v` into the 8-bit range `0..=255`.
pub open spec fn clamp_255(v: int) -> int {
    if v < 0 { 0 } else if v > 255 { 255 } else { v }
}

/// BT.601 luma `0.299 R + 0.587 G + 0.114 B`, each product and each sum in
/// binary32 and left to right, rounded to a level and clamped to a bucket.
pub open spec fn spec_luma(r: u8, g: u8, b: u8) -> int {
    let red = f32_round(LUMA_RED_WEIGHT * r);
    let green = f32_round(LUMA_GREEN_WEIGHT * g);
    let blue = f32_round(LUMA_BLUE_WEIGHT * b);
    clamp_255(round_half_away(f32_round(f32_round(red + green) + blue)))
}

/// Full-swing BT.601 `Cb = 128 - 0.168736 R - 0.331264 G + 0.5 B`, evaluated
/// left to right in binary32, rounded to a level and clamped to a bucket.
pub open spec fn spec_cb(r: u8, g: u8, b: u8) -> int {
    let t1 = f32_round(128 * UNIT_SCALE - f32_round(CB_RED_WEIGHT * r));
    let t2 = f32_round(t1 - f32_round(CB_GREEN_WEIGHT * g));
    clamp_255(round_half_away(f32_round(t2 + HALF_SCALE * b)))
}

/// Full-swing BT.601 `Cr = 128 + 0.5 R - 0.418688 G - 0.081312 B`, evaluated
/// left to right in binary32, rounded to a level and clamped to a bucket.
pub open spec fn spec_cr(r: u8, g: u8, b: u8) -> int {
    let u1 = f32_round(128 * UNIT_SCALE + HALF_SCALE * r);
    let u2 = f32_round(u1 - f32_round(CR_GREEN_WEIGHT * g));
    clamp_255(round_half_away(f32_round(u2 - f32_round(CR_BLUE_WEIGHT * b))))
}

/// The spacing is at least one unit, and `m` has at most 24 significant
/// bits at that spacing and, past one unit, exactly 24.
proof fn lemma_unit_bounds(m: nat)
    ensures
        f32_unit(m) >= 1,
        m < 0x1000000 * f32_unit(m),
        f32_unit(m) == 1 || 0x800000 * f32_unit(m) <= m,
    decreases m,
{
    if m >= 0x1000000 {
        lemma_unit_bounds(m / 2);
    }
}

/// Rounding to binary32 moves a value of less than `2^36` units by at most
/// 4096 units, and keeps it non-negative.
proof fn lemma_round_is_close(n: int)
    requires
        0 <= n < VALUE_BOUND,
    ensures
        n - 4096 <= f32_round(n) <= n + 4096,
        f32_round(n) >= 0,
{
    let m = n as nat;
    lemma_unit_bounds(m);
    let u = f32_unit(m) as int;
    assert(u < 8192);
    let q = n / u;
    let r = n % u;
    vstd::arithmetic::div_mod::lemma_fundamental_div_mod(n, u);
    vstd::arithmetic::div_mod::lemma_mod_bound(n, u);
    vstd::arithmetic::div_mod::lemma_div_pos_is_pos(n, u);
    assert((q + 1) * u == q * u + u) by (nonlinear_arith);
    assert(q * u >= 0) by (nonlinear_arith)
        requires
            q >= 0,
            u >= 1,
    ;
}

/// `n` units rounded to binary32.
fn round_to_binary32(n: u64) -> (rounded: u64)
    requires
        n < VALUE_BOUND,
    ensures
        rounded == f32_round(n as int),
        n - 4096 <= rounded <= n + 4096,
{
    proof {
        lemma_round_is_close(n as int);
    }
    let mut m: u64 = n;
    let mut u: u64 = 1;
    while m >= 0x1000000
        invariant
            f32_unit(n as nat) == u * f32_unit(m as nat),
            1 <= u,
            u * m <= n,
            n < VALUE_BOUND,
        decreases m,
    {
        let um: u64 = u;
        let mm: u64 = m;
        assert(um < 0x1000) by (nonlinear_arith)
            requires
                um * mm <= n,
                n < VALUE_BOUND,
                mm >= 0x1000000,
        ;
        m = mm / 2;
        u = 2 * um;
        assert(f32_unit(mm as nat) == 2 * f32_unit(m as nat));
        assert(u * m <= n && f32_unit(n as nat) == u * f32_unit(m as nat)) by (nonlinear_arith)
            requires
                um * mm <= n,
                u == 2 * um,
                m == mm / 2,
                f32_unit(n as nat) == um * f32_unit(mm as nat),
                f32_unit(mm as nat) == 2 * f32_unit(m as nat),
        ;
    }
    let q: u64 = n / u;
    let r: u64 = n % u;
    proof {
        assert(f32_unit(m as nat) == 1);
        assert(f32_unit(n as nat) == u) by (nonlinear_arith)
            requires
                f32_unit(n as nat) == u * f32_unit(m as nat),
                f32_unit(m as nat) == 1,
        ;
        lemma_unit_bounds(n as nat);
        vstd::arithmetic::div_mod::lemma_fundamental_div_mod(n as int, u as int);
        assert(q * u <= n) by (nonlinear_arith)
            requires
                n == u * q + r,
                r >= 0,
        ;
        assert((q + 1) * u == q * u + u) by (nonlinear_arith);
    }
    if r * 2 > u || (r * 2 == u && q % 2 == 1) {
        (q + 1) * u
    } else {
        q * u
    }
}

/// Maps a non-negative sum of `units` to its clamped level.
fn level_of(units: u64) -> (level: usize)
    requires
        units < VALUE_BOUND,
    ensures
        level == clamp_255(round_half_away(units as int)),
        level <= 255,
{
    let rounded: u64 = (units + HALF_SCALE) / UNIT_SCALE;
    if rounded > 255 { 255 } else { rounded as usize }
}

/// Luma bucket (0..=255) of a pixel.
pub fn luma_index(r: u8, g: u8, b: u8) -> (index: usize)
    ensures
        index == spec_luma(r, g, b),
        index <= 255,
{
    let red = round_to_binary32(LUMA_RED_WEIGHT * (r as u64));
    let green = round_to_binary32(LUMA_GREEN_WEIGHT * (g as u64));
    let blue = round_to_binary32(LUMA_BLUE_WEIGHT * (b as u64));
    let partial = round_to_binary32(red + green);
    let sum = round_to_binary32(partial + blue);
    level_of(sum)
}

/// `(Cb, Cr)` bucket coordinates (each 0..=255) of a pixel.
pub fn chroma_indices(r: u8, g: u8, b: u8) -> (indices: (usize, usize))
    ensures
        indices.0 == spec_cb(r, g, b),
        indices.1 == spec_cr(r, g, b),
        indices.0 <= 255,
        indices.1 <= 255,
{
    let (r, g, b) = (r as u64, g as u64, b as u64);
    let t1 = round_to_binary32(128 * UNIT_SCALE - round_to_binary32(CB_RED_WEIGHT * r));
    let t2 = round_to_binary32(t1 - round_to_binary32(CB_GREEN_WEIGHT * g));
    let cb = round_to_binary32(t2 + HALF_SCALE * b);
    let u1 = round_to_binary32(128 * UNIT_SCALE + HALF_SCALE * r);
    let u2 = round_to_binary32(u1 - round_to_binary32(CR_GREEN_WEIGHT * g));
    let cr = round_to_binary32(u2 - round_to_binary32(CR_BLUE_WEIGHT * b));
    (level_of(cb), level_of(cr))
}

/// An achromatic pixel (`R = G = B`) has luma equal to its level.
pub proof fn law_gray_luma_is_its_level(v: u8)
    ensures
        spec_luma(v, v, v) == v,
{
    lemma_round_is_close(LUMA_RED_WEIGHT * v);
    lemma_round_is_close(LUMA_GREEN_WEIGHT * v);
    lemma_round_is_close(LUMA_BLUE_WEIGHT * v);
    let red = f32_round(LUMA_RED_WEIGHT * v);
    let green = f32_round(LUMA_GREEN_WEIGHT * v);
    let blue = f32_round(LUMA_BLUE_WEIGHT * v);
    lemma_round_is_close(red + green);
    lemma_round_is_close(f32_round(red + green) + blue);
}

/// An achromatic pixel (`R = G = B`) lands at the centre `(128, 128)` of the
/// Cb/Cr plane, whatever its brightness.
pub proof fn law_gray_lands_at_chroma_center(v: u8)
    ensures
        spec_cb(v, v, v) == 128,
        spec_cr(v, v, v) == 128,
{
    lemma_round_is_close(CB_RED_WEIGHT * v);
    let t1 = f32_round(128 * UNIT_SCALE - f32_round(CB_RED_WEIGHT * v));
    lemma_round_is_close(128 * UNIT_SCALE - f32_round(CB_RED_WEIGHT * v));
    lemma_round_is_close(CB_GREEN_WEIGHT * v);
    let t2 = f32_round(t1 - f32_round(CB_GREEN_WEIGHT * v));
    lemma_round_is_close(t1 - f32_round(CB_GREEN_WEIGHT * v));
    lemma_round_is_close(t2 + HALF_SCALE * v);
    lemma_round_is_close(128 * UNIT_SCALE + HALF_SCALE * v);
    let u1 = f32_round(128 * UNIT_SCALE + HALF_SCALE * v);
    lemma_round_is_close(CR_GREEN_WEIGHT * v);
    lemma_round_is_close(u1 - f32_round(CR_GREEN_WEIGHT * v));
    let u2 = f32_round(u1 - f32_round(CR_GREEN_WEIGHT * v));
    lemma_round_is_close(CR_BLUE_WEIGHT * v);
    lemma_round_is_close(u2 - f32_round(CR_BLUE_WEIGHT * v));
}

} // verus!
