//! Arithmetic on `0xAABBGGRR` colours: averaging, darkening, lightening and the blending of
//! glyph coverage into a destination pixel.

use vstd::prelude::*;
use crate::image::PixelOp;

verus! {

/// The channel of `c` that starts at bit `shift` (0 red, 8 green, 16 blue, 24 alpha).
pub open spec fn channel(c: u32, shift: u32) -> u32 {
    (c >> shift) & 0xFF
}

/// The colour made of the four channels `r`, `g`, `b`, `a`.
pub open spec fn pack(r: u32, g: u32, b: u32, a: u32) -> u32 {
    r | (g << 8u32) | (b << 16u32) | (a << 24u32)
}

/// The average of two colours as the GUI computes it: each of the three colour channels is
/// the mean of the two rounded down, the alpha byte is the bitwise and of the two.
pub open spec fn spec_avg_color(color1: u32, color2: u32) -> u32 {
    ((((color1 ^ color2) & 0xFEFEFEu32) >> 1u32) + (color1 & color2)) as u32
}

/// Averages two colours channel by channel.
pub fn avg_color(color1: u32, color2: u32) -> (r: u32)
    ensures
        r == spec_avg_color(color1, color2),
{
    proof {
        lemma_avg_color_no_overflow(color1, color2);
    }
    (((color1 ^ color2) & 0xFEFEFE) >> 1) + (color1 & color2)
}

proof fn lemma_avg_color_no_overflow(color1: u32, color2: u32)
    ensures
        (((color1 ^ color2) & 0xFEFEFEu32) >> 1u32) + (color1 & color2) <= u32::MAX,
{
    assert((((color1 ^ color2) & 0xFEFEFEu32) >> 1u32) + (color1 & color2) <= 0xFFFF_FFFFu32)
        by (bit_vector);
}

/// Each colour channel of the average of two colours is the mean of the two channels,
/// rounded down; the alpha byte keeps only the bits that both colours have.
pub proof fn lemma_avg_color_channels(color1: u32, color2: u32)
    ensures
        channel(spec_avg_color(color1, color2), 0) == (channel(color1, 0) + channel(color2, 0))
            / 2,
        channel(spec_avg_color(color1, color2), 8) == (channel(color1, 8) + channel(color2, 8))
            / 2,
        channel(spec_avg_color(color1, color2), 16) == (channel(color1, 16) + channel(
            color2,
            16,
        )) / 2,
        channel(spec_avg_color(color1, color2), 24) == channel(color1, 24) & channel(color2, 24),
{
    assert((((((((color1 ^ color2) & 0xFEFEFEu32) >> 1u32) + (color1 & color2)) as u32) >> 0u32) & 0xFFu32)
        == (((color1 >> 0u32) & 0xFFu32) + ((color2 >> 0u32) & 0xFFu32)) / 2) by (bit_vector);
    assert((((((((color1 ^ color2) & 0xFEFEFEu32) >> 1u32) + (color1 & color2)) as u32) >> 8u32) & 0xFFu32)
        == (((color1 >> 8u32) & 0xFFu32) + ((color2 >> 8u32) & 0xFFu32)) / 2) by (bit_vector);
    assert((((((((color1 ^ color2) & 0xFEFEFEu32) >> 1u32) + (color1 & color2)) as u32) >> 16u32)
        & 0xFFu32) == (((color1 >> 16u32) & 0xFFu32) + ((color2 >> 16u32) & 0xFFu32)) / 2)
        by (bit_vector);
    assert((((((((color1 ^ color2) & 0xFEFEFEu32) >> 1u32) + (color1 & color2)) as u32) >> 24u32)
        & 0xFFu32) == (((color1 >> 24u32) & 0xFFu32) & ((color2 >> 24u32) & 0xFFu32)))
        by (bit_vector);
}

/// Averaging a colour with itself gives the colour back, and the order of the two colours
/// does not matter.
pub proof fn lemma_avg_color_idempotent_commutative(color1: u32, color2: u32)
    ensures
        spec_avg_color(color1, color1) == color1,
        spec_avg_color(color1, color2) == spec_avg_color(color2, color1),
{
    assert(((((color1 ^ color1) & 0xFEFEFEu32) >> 1u32) + (color1 & color1)) as u32 == color1)
        by (bit_vector);
    assert(((((color1 ^ color2) & 0xFEFEFEu32) >> 1u32) + (color1 & color2)) as u32 == ((((color2
        ^ color1) & 0xFEFEFEu32) >> 1u32) + (color2 & color1)) as u32) by (bit_vector);
}

/// Moves a colour half of the way to black.
pub fn _to_black_1_2(p: &mut u32)
    ensures
        *final(p) == *old(p) - ((*old(p) & 0xFEFEFEu32) >> 1u32),
{
    let v = *p;
    assert((v & 0xFEFEFEu32) >> 1u32 <= v) by (bit_vector);
    *p = v - ((v & 0xFEFEFE) >> 1);
}

/// Moves a colour a quarter of the way to black.
pub fn to_black_1_4(p: &mut u32)
    ensures
        *final(p) == *old(p) - ((*old(p) & 0xFCFCFCu32) >> 2u32),
{
    let v = *p;
    assert((v & 0xFCFCFCu32) >> 2u32 <= v) by (bit_vector);
    *p = v - ((v & 0xFCFCFC) >> 2);
}

/// Moves a colour an eighth of the way to black.
pub fn to_black_1_8(p: &mut u32)
    ensures
        *final(p) == *old(p) - ((*old(p) & 0xF8F8F8u32) >> 3u32),
{
    let v = *p;
    assert((v & 0xF8F8F8u32) >> 3u32 <= v) by (bit_vector);
    *p = v - ((v & 0xF8F8F8) >> 3);
}

/// Replaces a colour by a light grey that keeps a quarter of it.
pub fn to_white_3_4(p: &mut u32)
    ensures
        *final(p) == ((*old(p) & 0xFCFCFCu32) >> 2u32) + 0xC0C0C0,
{
    let v = *p;
    assert(((v & 0xFCFCFCu32) >> 2u32) + 0xC0C0C0u32 <= 0xFFFF_FFFFu32) by (bit_vector);
    *p = ((v & 0xFCFCFC) >> 2) + 0xC0C0C0;
}

/// Moves a colour without alpha half of the way to white.
pub fn to_white_1_2(p: &mut u32)
    requires
        *old(p) <= 0xFFFFFF,
    ensures
        *final(p) == *old(p) + (((0xFFFFFFu32 - *old(p)) as u32 & 0xFEFEFEu32) >> 1u32),
{
    let v = *p;
    let rest: u32 = 0xFFFFFF - v;
    assert(rest <= 0xFFFFFFu32 ==> (rest & 0xFEFEFEu32) >> 1u32 <= 0x7FFFFFu32) by (bit_vector);
    *p = v + ((rest & 0xFEFEFE) >> 1);
}

/// Moves a colour without alpha a quarter of the way to white.
pub fn _to_white_1_4(p: &mut u32)
    requires
        *old(p) <= 0xFFFFFF,
    ensures
        *final(p) == *old(p) + (((0xFFFFFFu32 - *old(p)) as u32 & 0xFCFCFCu32) >> 2u32),
{
    let v = *p;
    let rest: u32 = 0xFFFFFF - v;
    assert(rest <= 0xFFFFFFu32 ==> (rest & 0xFCFCFCu32) >> 2u32 <= 0x7FFFFFu32) by (bit_vector);
    *p = v + ((rest & 0xFCFCFC) >> 2);
}

/// Moves a colour without alpha an eighth of the way to white.
pub fn _to_white_1_8(p: &mut u32)
    requires
        *old(p) <= 0xFFFFFF,
    ensures
        *final(p) == *old(p) + (((0xFFFFFFu32 - *old(p)) as u32 & 0xF8F8F8u32) >> 3u32),
{
    let v = *p;
    let rest: u32 = 0xFFFFFF - v;
    assert(rest <= 0xFFFFFFu32 ==> (rest & 0xF8F8F8u32) >> 3u32 <= 0x7FFFFFu32) by (bit_vector);
    *p = v + ((rest & 0xF8F8F8) >> 3);
}

/// One channel `dst` moved towards `color` by the coverage `alpha` out of 255:
/// `dst + ((color - dst) * alpha + 255) >> 8`, the shift rounding down.
pub open spec fn spec_blend_channel(dst: int, color: int, alpha: int) -> int {
    dst + ((color - dst) * alpha + 255) / 256
}

/// A blended channel lies between the destination and the colour.
pub proof fn lemma_blend_channel_between(dst: int, color: int, alpha: int)
    requires
        0 <= dst <= 255,
        0 <= color <= 255,
        0 <= alpha <= 255,
    ensures
        dst <= color ==> dst <= spec_blend_channel(dst, color, alpha) <= color,
        color <= dst ==> color <= spec_blend_channel(dst, color, alpha) <= dst,
        alpha == 0 ==> spec_blend_channel(dst, color, alpha) == dst,
{
    let d = color - dst;
    if d >= 0 {
        assert(0 <= d * alpha <= d * 255) by (nonlinear_arith)
            requires
                d >= 0,
                0 <= alpha <= 255,
        ;
        assert((d * alpha + 255) / 256 <= d) by (nonlinear_arith)
            requires
                d >= 0,
                0 <= d * alpha <= d * 255,
        ;
    } else {
        assert(d * 255 <= d * alpha <= 0) by (nonlinear_arith)
            requires
                d < 0,
                0 <= alpha <= 255,
        ;
        assert(d <= (d * alpha + 255) / 256 <= 0) by (nonlinear_arith)
            requires
                d < 0,
                d * 255 <= d * alpha <= 0,
        ;
    }
}

/// Blends one channel: `dst + ((color - dst) * alpha + 255) >> 8`.
fn blend_channel(dst: u32, color: u32, alpha: u32) -> (r: u32)
    requires
        dst <= 255,
        color <= 255,
        alpha <= 255,
    ensures
        r == spec_blend_channel(dst as int, color as int, alpha as int),
        r <= 255,
{
    proof {
        lemma_blend_channel_between(dst as int, color as int, alpha as int);
    }
    let d: i32 = color as i32 - dst as i32;
    assert(-65025 <= d * alpha <= 65025) by (nonlinear_arith)
        requires
            -255 <= d <= 255,
            0 <= alpha <= 255,
    ;
    // shifted to a non-negative value, so that the division rounds down like the shift
    let shifted: i32 = d * alpha as i32 + 255 + 255 * 256;
    let q: i32 = shifted / 256 - 255;
    assert(q == (d * alpha + 255) / 256) by (nonlinear_arith)
        requires
            shifted == d * alpha + 255 + 255 * 256,
            shifted >= 0,
            q == shifted / 256 - 255,
    ;
    (dst as i32 + q) as u32
}

/// Packing four channels below 256 and reading them back gives the channels.
pub proof fn lemma_pack_channels(r: u32, g: u32, b: u32, a: u32)
    requires
        r <= 255,
        g <= 255,
        b <= 255,
        a <= 255,
    ensures
        channel(pack(r, g, b, a), 0) == r,
        channel(pack(r, g, b, a), 8) == g,
        channel(pack(r, g, b, a), 16) == b,
        channel(pack(r, g, b, a), 24) == a,
{
    assert(((((r | (g << 8u32) | (b << 16u32) | (a << 24u32)) >> 0u32) & 0xFFu32) == r) && ((((r
        | (g << 8u32) | (b << 16u32) | (a << 24u32)) >> 8u32) & 0xFFu32) == g) && ((((r | (g
        << 8u32) | (b << 16u32) | (a << 24u32)) >> 16u32) & 0xFFu32) == b) && ((((r | (g << 8u32)
        | (b << 16u32) | (a << 24u32)) >> 24u32) & 0xFFu32) == a)) by (bit_vector)
        requires
            r <= 255u32,
            g <= 255u32,
            b <= 255u32,
            a <= 255u32,
    ;
}

/// A destination pixel after a glyph pixel of gray coverage `alpha` in colour `color` is
/// drawn over it: every channel, alpha included, is blended with the same coverage.
pub open spec fn spec_blend_gray(dst: u32, color: u32, alpha: u8) -> u32 {
    pack(
        spec_blend_channel(channel(dst, 0) as int, channel(color, 0) as int, alpha as int) as u32,
        spec_blend_channel(channel(dst, 8) as int, channel(color, 8) as int, alpha as int) as u32,
        spec_blend_channel(channel(dst, 16) as int, channel(color, 16) as int, alpha as int) as u32,
        spec_blend_channel(channel(dst, 24) as int, channel(color, 24) as int, alpha as int) as u32,
    )
}

/// A destination pixel after a sub-pixel glyph pixel `coverage` in colour `color` is drawn
/// over it: every channel is blended with the coverage of the same channel.
pub open spec fn spec_blend_subpixel(dst: u32, color: u32, coverage: u32) -> u32 {
    pack(
        spec_blend_channel(
            channel(dst, 0) as int,
            channel(color, 0) as int,
            channel(coverage, 0) as int,
        ) as u32,
        spec_blend_channel(
            channel(dst, 8) as int,
            channel(color, 8) as int,
            channel(coverage, 8) as int,
        ) as u32,
        spec_blend_channel(
            channel(dst, 16) as int,
            channel(color, 16) as int,
            channel(coverage, 16) as int,
        ) as u32,
        spec_blend_channel(
            channel(dst, 24) as int,
            channel(color, 24) as int,
            channel(coverage, 24) as int,
        ) as u32,
    )
}

proof fn lemma_channel_bound(c: u32, shift: u32)
    ensures
        channel(c, shift) <= 255,
{
    assert((c >> shift) & 0xFFu32 <= 255u32) by (bit_vector);
}

/// Draws one glyph pixel of gray coverage `alpha` in colour `color` over `dst`.
pub fn blend_gray(dst: u32, color: u32, alpha: u8) -> (r: u32)
    ensures
        r == spec_blend_gray(dst, color, alpha),
{
    proof {
        lemma_channel_bound(dst, 0);
        lemma_channel_bound(dst, 8);
        lemma_channel_bound(dst, 16);
        lemma_channel_bound(dst, 24);
        lemma_channel_bound(color, 0);
        lemma_channel_bound(color, 8);
        lemma_channel_bound(color, 16);
        lemma_channel_bound(color, 24);
    }
    let r = blend_channel((dst >> 0) & 0xFF, (color >> 0) & 0xFF, alpha as u32);
    let g = blend_channel((dst >> 8) & 0xFF, (color >> 8) & 0xFF, alpha as u32);
    let b = blend_channel((dst >> 16) & 0xFF, (color >> 16) & 0xFF, alpha as u32);
    let a = blend_channel((dst >> 24) & 0xFF, (color >> 24) & 0xFF, alpha as u32);
    r | (g << 8) | (b << 16) | (a << 24)
}

/// Draws one sub-pixel glyph pixel `coverage` in colour `color` over `dst`.
pub fn blend_subpixel(dst: u32, color: u32, coverage: u32) -> (r: u32)
    ensures
        r == spec_blend_subpixel(dst, color, coverage),
{
    proof {
        lemma_channel_bound(dst, 0);
        lemma_channel_bound(dst, 8);
        lemma_channel_bound(dst, 16);
        lemma_channel_bound(dst, 24);
        lemma_channel_bound(color, 0);
        lemma_channel_bound(color, 8);
        lemma_channel_bound(color, 16);
        lemma_channel_bound(color, 24);
        lemma_channel_bound(coverage, 0);
        lemma_channel_bound(coverage, 8);
        lemma_channel_bound(coverage, 16);
        lemma_channel_bound(coverage, 24);
    }
    let r = blend_channel((dst >> 0) & 0xFF, (color >> 0) & 0xFF, (coverage >> 0) & 0xFF);
    let g = blend_channel((dst >> 8) & 0xFF, (color >> 8) & 0xFF, (coverage >> 8) & 0xFF);
    let b = blend_channel((dst >> 16) & 0xFF, (color >> 16) & 0xFF, (coverage >> 16) & 0xFF);
    let a = blend_channel((dst >> 24) & 0xFF, (color >> 24) & 0xFF, (coverage >> 24) & 0xFF);
    r | (g << 8) | (b << 16) | (a << 24)
}

/// Where the glyph does not cover the pixel at all, the pixel stays as it was.
pub proof fn lemma_blend_gray_transparent(dst: u32, color: u32)
    ensures
        spec_blend_gray(dst, color, 0) == dst,
{
    lemma_channel_bound(dst, 0);
    lemma_channel_bound(dst, 8);
    lemma_channel_bound(dst, 16);
    lemma_channel_bound(dst, 24);
    lemma_channel_bound(color, 0);
    lemma_channel_bound(color, 8);
    lemma_channel_bound(color, 16);
    lemma_channel_bound(color, 24);
    lemma_blend_channel_between(channel(dst, 0) as int, channel(color, 0) as int, 0);
    lemma_blend_channel_between(channel(dst, 8) as int, channel(color, 8) as int, 0);
    lemma_blend_channel_between(channel(dst, 16) as int, channel(color, 16) as int, 0);
    lemma_blend_channel_between(channel(dst, 24) as int, channel(color, 24) as int, 0);
    assert((((dst >> 0u32) & 0xFFu32) | (((dst >> 8u32) & 0xFFu32) << 8u32) | (((dst >> 16u32)
        & 0xFFu32) << 16u32) | (((dst >> 24u32) & 0xFFu32) << 24u32)) == dst) by (bit_vector);
}

/// Mixes the pixel half and half with the colour.
pub struct AvgWith(pub u32);

impl PixelOp<u32, ()> for AvgWith {
    open spec fn spec_apply(&self, dst: u32, src: ()) -> u32 {
        spec_avg_color(dst, self.0)
    }

    fn apply(&self, dst: u32, src: ()) -> (r: u32) {
        avg_color(dst, self.0)
    }
}

/// Moves a pixel without alpha half of the way to white; a pixel with alpha is left as it
/// is.
pub struct WhitenHalf;

impl PixelOp<u32, ()> for WhitenHalf {
    open spec fn spec_apply(&self, dst: u32, src: ()) -> u32 {
        if dst <= 0xFFFFFF {
            (dst + (((0xFFFFFFu32 - dst) as u32 & 0xFEFEFEu32) >> 1u32)) as u32
        } else {
            dst
        }
    }

    fn apply(&self, dst: u32, src: ()) -> (r: u32) {
        let mut p = dst;
        if p <= 0xFFFFFF {
            to_white_1_2(&mut p);
        }
        p
    }
}

/// Moves a pixel an eighth of the way to black.
pub struct BlackenEighth;

impl PixelOp<u32, ()> for BlackenEighth {
    open spec fn spec_apply(&self, dst: u32, src: ()) -> u32 {
        (dst - ((dst & 0xF8F8F8u32) >> 3u32)) as u32
    }

    fn apply(&self, dst: u32, src: ()) -> (r: u32) {
        let mut p = dst;
        to_black_1_8(&mut p);
        p
    }
}

} // verus!
