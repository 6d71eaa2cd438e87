//! Color identities, their 8-bit projection and the dissimilarity measure
//! that drives the arrangement.

use vstd::prelude::*;

verus! {

/// A color identity: one point of the color cube, before it is scaled to
/// eight bits per channel.
#[derive(Clone, Copy, Debug, PartialEq, Eq, Structural)]
pub struct ColorBase {
    pub r: u8,
    pub g: u8,
    pub b: u8,
}

/// A displayable color with eight bits per channel.
#[derive(Clone, Copy, Debug, PartialEq, Eq, Structural)]
pub struct Color {
    pub r: u8,
    pub g: u8,
    pub b: u8,
}

/// Whether every channel of `cb` lies in `[0, color_size)`.
pub open spec fn in_cube(cb: ColorBase, color_size: int) -> bool {
    cb.r < color_size && cb.g < color_size && cb.b < color_size
}

/// One channel of the cube scaled linearly onto `0..=255`, rounding down.
pub open spec fn spec_channel(c: int, color_size: int) -> int {
    c * 255 / (color_size - 1)
}

/// The displayable color that stands for `cb` in a cube of side `color_size`.
pub open spec fn spec_color(cb: ColorBase, color_size: int) -> Color {
    Color {
        r: spec_channel(cb.r as int, color_size) as u8,
        g: spec_channel(cb.g as int, color_size) as u8,
        b: spec_channel(cb.b as int, color_size) as u8,
    }
}

/// A channel inside the cube scales to a value that fits in eight bits.
pub proof fn lemma_channel_range(c: int, color_size: int)
    requires
        color_size >= 2,
        0 <= c < color_size,
    ensures
        0 <= spec_channel(c, color_size) <= 255,
{
    let d = color_size - 1;
    assert(0 <= c * 255 / d <= 255) by (nonlinear_arith)
        requires
            0 <= c <= d,
            d > 0,
    ;
}

/// Whatever the side of the cube, its lowest channel value scales to 0 and
/// its highest to 255: the darkest corner of the cube is black, and the
/// brightest is white.
pub proof fn lemma_quantize_corners(color_size: int)
    requires
        color_size >= 2,
    ensures
        spec_channel(0, color_size) == 0,
        spec_channel(color_size - 1, color_size) == 255,
        spec_color(ColorBase { r: 0, g: 0, b: 0 }, color_size) == (Color { r: 0, g: 0, b: 0 }),
        color_size <= 256 ==> spec_color(
            ColorBase {
                r: (color_size - 1) as u8,
                g: (color_size - 1) as u8,
                b: (color_size - 1) as u8,
            },
            color_size,
        ) == (Color { r: 255, g: 255, b: 255 }),
{
    let d = color_size - 1;
    assert(0int * 255 / d == 0 && d * 255 / d == 255) by (nonlinear_arith)
        requires
            d > 0,
    ;
}

/// Over a cube of at most 256 steps per channel the scaling is strictly
/// increasing, so distinct channel values stay distinct.
pub proof fn lemma_channel_increasing(c1: int, c2: int, color_size: int)
    requires
        2 <= color_size <= 256,
        0 <= c1 < c2 < color_size,
    ensures
        spec_channel(c1, color_size) < spec_channel(c2, color_size),
{
    let d = color_size - 1;
    assert(c1 * 255 / d < c2 * 255 / d) by (nonlinear_arith)
        requires
            0 < d <= 255,
            0 <= c1 < c2,
    ;
}

/// Over a cube of at most 256 steps per channel no two color identities are
/// displayed as the same color.
pub proof fn lemma_quantize_injective(a: ColorBase, b: ColorBase, color_size: int)
    requires
        2 <= color_size <= 256,
        in_cube(a, color_size),
        in_cube(b, color_size),
        spec_color(a, color_size) == spec_color(b, color_size),
    ensures
        a == b,
{
    lemma_channel_range(a.r as int, color_size);
    lemma_channel_range(a.g as int, color_size);
    lemma_channel_range(a.b as int, color_size);
    lemma_channel_range(b.r as int, color_size);
    lemma_channel_range(b.g as int, color_size);
    lemma_channel_range(b.b as int, color_size);
    if a.r < b.r {
        lemma_channel_increasing(a.r as int, b.r as int, color_size);
    }
    if b.r < a.r {
        lemma_channel_increasing(b.r as int, a.r as int, color_size);
    }
    if a.g < b.g {
        lemma_channel_increasing(a.g as int, b.g as int, color_size);
    }
    if b.g < a.g {
        lemma_channel_increasing(b.g as int, a.g as int, color_size);
    }
    if a.b < b.b {
        lemma_channel_increasing(a.b as int, b.b as int, color_size);
    }
    if b.b < a.b {
        lemma_channel_increasing(b.b as int, a.b as int, color_size);
    }
}

fn channel_to_u8(c: u8, color_size: u64) -> (out: u8)
    requires
        color_size >= 2,
        c < color_size,
    ensures
        out == spec_channel(c as int, color_size as int),
{
    proof {
        lemma_channel_range(c as int, color_size as int);
    }
    let scaled: u64 = c as u64 * 255 / (color_size - 1);
    scaled as u8
}

/// Scales a color identity to eight bits per channel.
pub fn color_base_to_color(cb: ColorBase, color_size: u64) -> (color: Color)
    requires
        color_size >= 2,
        in_cube(cb, color_size as int),
    ensures
        color == spec_color(cb, color_size as int),
        color.r == spec_channel(cb.r as int, color_size as int),
        color.g == spec_channel(cb.g as int, color_size as int),
        color.b == spec_channel(cb.b as int, color_size as int),
{
    Color {
        r: channel_to_u8(cb.r, color_size),
        g: channel_to_u8(cb.g, color_size),
        b: channel_to_u8(cb.b, color_size),
    }
}

/// Whether `r` is the square root of `n` rounded down.
pub open spec fn is_floor_sqrt(n: int, r: int) -> bool {
    0 <= r && r * r <= n < (r + 1) * (r + 1)
}

/// The square root of `n` rounded down.
pub open spec fn floor_sqrt(n: int) -> int {
    choose|r: int| is_floor_sqrt(n, r)
}

/// At most one number is the rounded-down square root of `n`.
pub proof fn lemma_floor_sqrt_unique(n: int, r1: int, r2: int)
    requires
        is_floor_sqrt(n, r1),
        is_floor_sqrt(n, r2),
    ensures
        r1 == r2,
{
    assert(r1 == r2) by (nonlinear_arith)
        requires
            0 <= r1,
            0 <= r2,
            r1 * r1 <= n < (r1 + 1) * (r1 + 1),
            r2 * r2 <= n < (r2 + 1) * (r2 + 1),
    ;
}

/// Every number from zero on has a rounded-down square root.
pub proof fn lemma_floor_sqrt_exists(n: int)
    requires
        n >= 0,
    ensures
        is_floor_sqrt(n, floor_sqrt(n)),
    decreases n,
{
    if n == 0 {
        assert(is_floor_sqrt(0, 0));
    } else {
        lemma_floor_sqrt_exists(n - 1);
        let r = floor_sqrt(n - 1);
        if (r + 1) * (r + 1) <= n {
            assert(is_floor_sqrt(n, r + 1)) by (nonlinear_arith)
                requires
                    0 <= r,
                    n - 1 < (r + 1) * (r + 1),
                    (r + 1) * (r + 1) <= n,
            ;
        } else {
            assert(is_floor_sqrt(n, r));
        }
    }
}

/// Any number that satisfies the defining inequalities is the rounded-down
/// square root.
pub proof fn lemma_floor_sqrt_is(n: int, r: int)
    requires
        is_floor_sqrt(n, r),
    ensures
        floor_sqrt(n) == r,
{
    lemma_floor_sqrt_unique(n, r, floor_sqrt(n));
}

/// The square root of a channel difference, rounded down.
pub fn isqrt(n: u8) -> (r: u8)
    ensures
        r == floor_sqrt(n as int),
        is_floor_sqrt(n as int, r as int),
{
    let mut r: u8 = 0;
    loop
        invariant
            r * r <= n,
            r <= 15,
        ensures
            is_floor_sqrt(n as int, r as int),
        decreases 16 - r,
    {
        let next: u16 = r as u16 + 1;
        assert(next * next <= 256) by (nonlinear_arith)
            requires
                0 <= next <= 16,
        ;
        if next * next > n as u16 {
            break;
        }
        assert(next <= 15) by (nonlinear_arith)
            requires
                next * next <= 255,
                next >= 0,
        ;
        r = r + 1;
    }
    proof {
        lemma_floor_sqrt_is(n as int, r as int);
    }
    r
}

/// The distance between two channel values.
pub open spec fn channel_gap(x: int, y: int) -> int {
    if x >= y {
        x - y
    } else {
        y - x
    }
}

/// The dissimilarity of two color identities: for each channel the square
/// root of the absolute difference, rounded down, and the three results added.
pub open spec fn spec_color_dist(c1: ColorBase, c2: ColorBase) -> int {
    floor_sqrt(channel_gap(c1.r as int, c2.r as int)) + floor_sqrt(
        channel_gap(c1.g as int, c2.g as int),
    ) + floor_sqrt(channel_gap(c1.b as int, c2.b as int))
}

fn channel_dist(x: u8, y: u8) -> (d: i64)
    ensures
        d == floor_sqrt(channel_gap(x as int, y as int)),
        0 <= d <= 15,
{
    let gap: u8 = if x >= y {
        x - y
    } else {
        y - x
    };
    let root = isqrt(gap);
    assert(root <= 15) by (nonlinear_arith)
        requires
            root * root <= 255,
            root >= 0,
    ;
    root as i64
}

/// Computes the dissimilarity of two color identities.
pub fn color_dist(c1: ColorBase, c2: ColorBase) -> (d: i64)
    ensures
        d == spec_color_dist(c1, c2),
        0 <= d <= 45,
{
    channel_dist(c1.r, c2.r) + channel_dist(c1.g, c2.g) + channel_dist(c1.b, c2.b)
}

/// A color identity is at distance zero from itself.
pub proof fn lemma_color_dist_self(c: ColorBase)
    ensures
        spec_color_dist(c, c) == 0,
{
    lemma_floor_sqrt_is(0, 0);
}

/// The dissimilarity does not depend on the order of its arguments.
pub proof fn lemma_color_dist_symmetric(c1: ColorBase, c2: ColorBase)
    ensures
        spec_color_dist(c1, c2) == spec_color_dist(c2, c1),
{
}

} // verus!
