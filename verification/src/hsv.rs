//! Conversion from hue, saturation and value to RGB, in exact integer
//! arithmetic.
//!
//! A hue is a whole number of millidegrees below a full turn. Saturation
//! and value are parts per million, so `UNIT` stands for one.

use crate::hex::{hex_color, is_hex_color, lemma_hex_color_well_formed, Rgb};
use vstd::prelude::*;

verus! {

/// A full turn of hue, in millidegrees.
pub const TURN: u32 = 360_000;

/// The width of one sextant of hue, in millidegrees.
pub const SEXTANT: u32 = 60_000;

/// The fixed-point representation of one, for saturation and value.
pub const UNIT: u32 = 1_000_000;

/// The divisor of a channel: a sextant times the square of `UNIT`.
pub const CHANNEL_DIVISOR: u64 = 60_000_000_000_000_000;

/// How much of the chroma each channel carries, in parts of `SEXTANT`.
pub struct Weights {
    pub r: int,
    pub g: int,
    pub b: int,
}

/// The share of the chroma that the secondary channel carries at hue `h`:
/// it rises from nothing to `SEXTANT` over one sextant and falls back over
/// the next.
pub open spec fn ramp(h: int) -> int {
    let r = h % 120_000;
    if r <= 60_000 {
        r
    } else {
        120_000 - r
    }
}

/// The sextant table: which channel carries the full chroma, which the
/// secondary share and which none, for a hue below a full turn.
pub open spec fn weights(h: int) -> Weights {
    let full = SEXTANT as int;
    let x = ramp(h);
    if h < 60_000 {
        Weights { r: full, g: x, b: 0 }
    } else if h < 120_000 {
        Weights { r: x, g: full, b: 0 }
    } else if h < 180_000 {
        Weights { r: 0, g: full, b: x }
    } else if h < 240_000 {
        Weights { r: 0, g: x, b: full }
    } else if h < 300_000 {
        Weights { r: x, g: 0, b: full }
    } else {
        Weights { r: full, g: 0, b: x }
    }
}

/// The numerator of a component plus the offset `m`, before the value is
/// applied: with chroma `c = v * s` and `m = v - c`, a component of weight
/// `w` is `c * w / SEXTANT`, and component plus `m` is
/// `v * blend(w, s) / (SEXTANT * UNIT * UNIT)`.
pub open spec fn blend(w: int, s: int) -> int {
    s * w + SEXTANT as int * (UNIT as int - s)
}

/// One channel byte: component plus `m`, times 255, rounded down.
pub open spec fn channel(w: int, s: int, v: int) -> int {
    (255 * (v * blend(w, s))) / (CHANNEL_DIVISOR as int)
}

/// The colour of hue `h`, saturation `s` and value `v`.
pub open spec fn rgb_of_hsv(h: int, s: int, v: int) -> Rgb {
    let w = weights(h);
    Rgb { r: channel(w.r, s, v) as u8, g: channel(w.g, s, v) as u8, b: channel(w.b, s, v) as u8 }
}

/// Whether `h`, `s` and `v` are a hue below a full turn and a saturation
/// and a value of at most one.
pub open spec fn valid_hsv(h: int, s: int, v: int) -> bool {
    0 <= h < TURN && 0 <= s <= UNIT && 0 <= v <= UNIT
}

/// The weights of every hue lie between nothing and a full sextant.
pub proof fn lemma_weights_bounds(h: int)
    requires
        0 <= h < TURN,
    ensures
        0 <= weights(h).r <= SEXTANT,
        0 <= weights(h).g <= SEXTANT,
        0 <= weights(h).b <= SEXTANT,
{
}

/// A channel is a byte, and the products that lead to it stay below the
/// divisor times 256.
pub proof fn lemma_channel_bounds(w: int, s: int, v: int)
    requires
        0 <= w <= SEXTANT,
        0 <= s <= UNIT,
        0 <= v <= UNIT,
    ensures
        0 <= blend(w, s) <= 60_000_000_000,
        0 <= v * blend(w, s) <= CHANNEL_DIVISOR,
        0 <= channel(w, s, v) <= 255,
{
    assert(0 <= s * w <= s * 60_000) by (nonlinear_arith)
        requires
            0 <= w <= 60_000,
            0 <= s,
    ;
    let b = blend(w, s);
    assert(0 <= b <= 60_000_000_000);
    assert(0 <= v * b <= 1_000_000 * 60_000_000_000) by (nonlinear_arith)
        requires
            0 <= v <= 1_000_000,
            0 <= b <= 60_000_000_000,
    ;
}

/// The hue one millidegree after `h`, wrapping at a full turn.
pub open spec fn next_hue(h: int) -> int {
    (h + 1) % (TURN as int)
}

/// The distance between two channel bytes.
pub open spec fn channel_gap(a: u8, b: u8) -> int {
    if a <= b {
        b - a
    } else {
        a - b
    }
}

/// A colour without saturation and with full value is white, whatever the
/// hue.
pub proof fn lemma_desaturated_is_white(h: int)
    requires
        0 <= h < TURN,
    ensures
        rgb_of_hsv(h, 0, UNIT as int) == (Rgb { r: 255, g: 255, b: 255 }),
        hex_color(rgb_of_hsv(h, 0, UNIT as int)) == "#FFFFFF"@,
{
    let one = UNIT as int;
    assert forall|w: int| channel(w, 0, one) == 255 by {
        assert(0 * w == 0) by (nonlinear_arith);
        assert(blend(w, 0) == 60_000_000_000);
        assert(one * blend(w, 0) == 60_000_000_000_000_000) by (nonlinear_arith)
            requires
                one == 1_000_000,
                blend(w, 0) == 60_000_000_000,
        ;
    }
    reveal_strlit("#FFFFFF");
    assert(hex_color(Rgb { r: 255, g: 255, b: 255 }) =~= "#FFFFFF"@);
}

/// Channels whose weights are at most one apart are at most one apart
/// themselves.
pub proof fn lemma_channel_step(w1: int, w2: int, s: int, v: int)
    requires
        0 <= w1 <= SEXTANT,
        0 <= w2 <= SEXTANT,
        -1 <= w2 - w1 <= 1,
        0 <= s <= UNIT,
        0 <= v <= UNIT,
    ensures
        -1 <= channel(w2, s, v) - channel(w1, s, v) <= 1,
{
    lemma_channel_bounds(w1, s, v);
    lemma_channel_bounds(w2, s, v);
    let b1 = blend(w1, s);
    let b2 = blend(w2, s);
    assert(s * w2 - s * w1 == s * (w2 - w1)) by (nonlinear_arith);
    assert(-s <= s * (w2 - w1) <= s) by (nonlinear_arith)
        requires
            -1 <= w2 - w1 <= 1,
            0 <= s,
    ;
    assert(-1_000_000 <= b2 - b1 <= 1_000_000);
    assert(v * b2 - v * b1 == v * (b2 - b1)) by (nonlinear_arith);
    assert(-1_000_000_000_000 <= v * (b2 - b1) <= 1_000_000_000_000) by (nonlinear_arith)
        requires
            0 <= v <= 1_000_000,
            -1_000_000 <= b2 - b1 <= 1_000_000,
    ;
}

/// Hue continuity: moving the hue by one millidegree, across a sextant
/// boundary or the full turn too, moves each channel by at most one.
pub proof fn lemma_hue_continuity(h: int, s: int, v: int)
    requires
        valid_hsv(h, s, v),
    ensures
        channel_gap(rgb_of_hsv(h, s, v).r, rgb_of_hsv(next_hue(h), s, v).r) <= 1,
        channel_gap(rgb_of_hsv(h, s, v).g, rgb_of_hsv(next_hue(h), s, v).g) <= 1,
        channel_gap(rgb_of_hsv(h, s, v).b, rgb_of_hsv(next_hue(h), s, v).b) <= 1,
{
    let n = next_hue(h);
    let a = weights(h);
    let b = weights(n);
    lemma_weights_bounds(h);
    lemma_weights_bounds(n);
    assert(-1 <= b.r - a.r <= 1);
    assert(-1 <= b.g - a.g <= 1);
    assert(-1 <= b.b - a.b <= 1);
    lemma_channel_bounds(a.r, s, v);
    lemma_channel_bounds(a.g, s, v);
    lemma_channel_bounds(a.b, s, v);
    lemma_channel_bounds(b.r, s, v);
    lemma_channel_bounds(b.g, s, v);
    lemma_channel_bounds(b.b, s, v);
    lemma_channel_step(a.r, b.r, s, v);
    lemma_channel_step(a.g, b.g, s, v);
    lemma_channel_step(a.b, b.b, s, v);
}

/// Every colour that the conversion gives has `#RRGGBB` text.
pub proof fn lemma_hsv_hex_well_formed(h: int, s: int, v: int)
    requires
        valid_hsv(h, s, v),
    ensures
        is_hex_color(hex_color(rgb_of_hsv(h, s, v))),
{
    lemma_hex_color_well_formed(rgb_of_hsv(h, s, v));
}

/// One channel byte from its weight.
fn channel_byte(w: u32, s: u32, v: u32) -> (c: u8)
    requires
        w <= SEXTANT,
        s <= UNIT,
        v <= UNIT,
    ensures
        c as int == channel(w as int, s as int, v as int),
{
    proof {
        lemma_channel_bounds(w as int, s as int, v as int);
        assert(0 <= (s as int) * (w as int) <= 60_000_000_000) by (nonlinear_arith)
            requires
                0 <= w <= 60_000,
                0 <= s <= 1_000_000,
        ;
    }
    let chroma: u64 = (s as u64) * (w as u64);
    let rest: u64 = (SEXTANT as u64) * ((UNIT - s) as u64);
    let mixed: u64 = chroma + rest;
    let scaled: u64 = (v as u64) * mixed;
    let byte: u64 = (255 * scaled) / CHANNEL_DIVISOR;
    byte as u8
}

/// The three weights of a hue, as the sextant table gives them.
fn sextant_weights(h: u32) -> (w: (u32, u32, u32))
    requires
        h < TURN,
    ensures
        weights(h as int) == (Weights { r: w.0 as int, g: w.1 as int, b: w.2 as int }),
        w.0 <= SEXTANT,
        w.1 <= SEXTANT,
        w.2 <= SEXTANT,
{
    let r: u32 = h % 120_000;
    let x: u32 = if r <= 60_000 {
        r
    } else {
        120_000 - r
    };
    if h < 60_000 {
        (SEXTANT, x, 0)
    } else if h < 120_000 {
        (x, SEXTANT, 0)
    } else if h < 180_000 {
        (0, SEXTANT, x)
    } else if h < 240_000 {
        (0, x, SEXTANT)
    } else if h < 300_000 {
        (x, 0, SEXTANT)
    } else {
        (SEXTANT, 0, x)
    }
}

/// Converts a hue in millidegrees and a saturation and a value in parts per
/// million to a colour.
pub fn hsv_to_rgb(h: u32, s: u32, v: u32) -> (c: Rgb)
    requires
        valid_hsv(h as int, s as int, v as int),
    ensures
        c == rgb_of_hsv(h as int, s as int, v as int),
{
    let (wr, wg, wb) = sextant_weights(h);
    Rgb { r: channel_byte(wr, s, v), g: channel_byte(wg, s, v), b: channel_byte(wb, s, v) }
}

/// Converts a hue, a saturation and a value to `#RRGGBB` text.
pub fn hsv_to_hex(h: u32, s: u32, v: u32) -> (hex: String)
    requires
        valid_hsv(h as int, s as int, v as int),
    ensures
        hex@ == hex_color(rgb_of_hsv(h as int, s as int, v as int)),
        is_hex_color(hex@),
{
    hsv_to_rgb(h, s, v).to_hex()
}

} // verus!
