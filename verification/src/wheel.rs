//! The geometry of the wheel: which positions lie on it, and the hue and
//! saturation that a position stands for.
//!
//! Positions are offsets from the widget's top left corner, in
//! ten-thousandths of a pixel. Angles are millidegrees.

use crate::hsv::{TURN, UNIT};
use vstd::prelude::*;

verus! {

/// The number of position units in one pixel.
pub const PIXEL: i64 = 10_000;

/// The offset of the wheel's centre along each axis: 150 pixels.
pub const CENTER: i64 = 1_500_000;

/// The wheel's radius: 150 pixels.
pub const RADIUS: i64 = 1_500_000;

/// The square of the radius.
pub const RADIUS_SQUARED: u64 = 2_250_000_000_000;

/// The square of `UNIT`.
pub const UNIT_SQUARED: u128 = 1_000_000_000_000;

/// The square of the distance from the centre to `(x, y)`.
pub open spec fn distance_squared(x: int, y: int) -> int {
    (x - CENTER) * (x - CENTER) + (y - CENTER) * (y - CENTER)
}

/// Whether `(x, y)` lies on the wheel: its distance from the centre is at
/// most the radius. The rim itself belongs to the wheel.
pub open spec fn within_wheel(x: int, y: int) -> bool {
    distance_squared(x, y) <= RADIUS * RADIUS
}

/// Whether `s` parts per million of the radius reach no further than the
/// distance whose square is `d2`.
pub open spec fn reaches(s: int, d2: int) -> bool {
    (s * RADIUS) * (s * RADIUS) <= (UNIT * UNIT) * d2
}

/// Whether `s` is the distance whose square is `d2`, as a share of the
/// radius in parts per million, rounded down.
pub open spec fn is_saturation(d2: int, s: int) -> bool {
    &&& 0 <= s
    &&& reaches(s, d2)
    &&& !reaches(s + 1, d2)
}

/// The saturation of a position whose squared distance from the centre is
/// `d2`: distance over radius, in parts per million, rounded down.
pub open spec fn saturation_of(d2: int) -> int {
    choose|s: int| is_saturation(d2, s)
}

/// The hue of a position whose direction from the centre has the given
/// angle: the angle plus half a turn, reduced to a full turn.
pub open spec fn hue_from_angle(angle: int) -> int {
    (angle + 180_000) % (TURN as int)
}

/// A squared distance has one saturation only.
pub proof fn lemma_saturation_unique(d2: int, s1: int, s2: int)
    requires
        is_saturation(d2, s1),
        is_saturation(d2, s2),
    ensures
        s1 == s2,
{
    let r = RADIUS as int;
    if s1 < s2 {
        assert(((s1 + 1) * r) * ((s1 + 1) * r) <= (s2 * r) * (s2 * r)) by (nonlinear_arith)
            requires
                0 <= s1 + 1 <= s2,
                r > 0,
        ;
    }
    if s2 < s1 {
        assert(((s2 + 1) * r) * ((s2 + 1) * r) <= (s1 * r) * (s1 * r)) by (nonlinear_arith)
            requires
                0 <= s2 + 1 <= s1,
                r > 0,
        ;
    }
}

/// From a share `s` that the distance reaches, the saturation is found at
/// or above `s`.
proof fn lemma_saturation_from(d2: int, s: int) -> (found: int)
    requires
        0 <= d2 <= RADIUS_SQUARED,
        0 <= s <= UNIT,
        reaches(s, d2),
    ensures
        is_saturation(d2, found),
        s <= found <= UNIT,
    decreases UNIT - s,
{
    if !reaches(s + 1, d2) {
        s
    } else {
        if s == UNIT {
            let r = RADIUS as int;
            let u = UNIT as int;
            assert(((u + 1) * r) * ((u + 1) * r) > (u * u) * d2) by (nonlinear_arith)
                requires
                    r == 1_500_000,
                    u == 1_000_000,
                    0 <= d2 <= 2_250_000_000_000,
            ;
        }
        lemma_saturation_from(d2, s + 1)
    }
}

/// Every squared distance up to the square of the radius has a saturation,
/// and it lies between nothing and one.
pub proof fn lemma_saturation_in_range(d2: int)
    requires
        0 <= d2 <= RADIUS_SQUARED,
    ensures
        is_saturation(d2, saturation_of(d2)),
        0 <= saturation_of(d2) <= UNIT,
{
    let r = RADIUS as int;
    let u = UNIT as int;
    assert((0 * r) * (0 * r) == 0 && 0 <= (u * u) * d2) by (nonlinear_arith)
        requires
            0 <= d2,
    ;
    let found = lemma_saturation_from(d2, 0);
    lemma_saturation_unique(d2, found, saturation_of(d2));
}

/// The centre has no saturation and the rim has saturation one.
pub proof fn lemma_saturation_ends()
    ensures
        saturation_of(0) == 0,
        saturation_of(RADIUS_SQUARED as int) == UNIT,
{
    let r = RADIUS as int;
    let u = UNIT as int;
    let rim = RADIUS_SQUARED as int;
    assert(is_saturation(0, 0)) by {
        assert((0 * r) * (0 * r) == 0 && (u * u) * 0 == 0 && ((0 + 1) * r) * ((0 + 1) * r) > 0)
            by (nonlinear_arith)
            requires
                r == 1_500_000,
        ;
    }
    assert(is_saturation(rim, u)) by {
        assert((u * r) * (u * r) <= (u * u) * rim && ((u + 1) * r) * ((u + 1) * r) > (u * u)
            * rim) by (nonlinear_arith)
            requires
                r == 1_500_000,
                u == 1_000_000,
                rim == 2_250_000_000_000,
        ;
    }
    lemma_saturation_in_range(0);
    lemma_saturation_in_range(rim);
    lemma_saturation_unique(0, 0, saturation_of(0));
    lemma_saturation_unique(rim, u, saturation_of(rim));
}

/// The wheel lies inside the square that spans one diameter from the
/// widget's corner.
pub proof fn lemma_wheel_in_square(x: int, y: int)
    requires
        within_wheel(x, y),
    ensures
        0 <= x <= 2 * CENTER,
        0 <= y <= 2 * CENTER,
{
    let dx = x - CENTER;
    let dy = y - CENTER;
    assert(dx * dx >= 0 && dy * dy >= 0) by (nonlinear_arith);
    if x < 0 || x > 3_000_000 {
        assert(dx * dx > 1_500_000 * 1_500_000) by (nonlinear_arith)
            requires
                dx < -1_500_000 || dx > 1_500_000,
        ;
    }
    if y < 0 || y > 3_000_000 {
        assert(dy * dy > 1_500_000 * 1_500_000) by (nonlinear_arith)
            requires
                dy < -1_500_000 || dy > 1_500_000,
        ;
    }
}

/// Whether the position lies on the wheel, rim included.
pub fn inside_wheel(x: i64, y: i64) -> (inside: bool)
    ensures
        inside == within_wheel(x as int, y as int),
{
    if x < 0 || x > 2 * CENTER || y < 0 || y > 2 * CENTER {
        proof {
            if within_wheel(x as int, y as int) {
                lemma_wheel_in_square(x as int, y as int);
            }
        }
        return false;
    }
    offset_squared(x, y) <= RADIUS_SQUARED
}

/// The squared distance from the centre to a position inside the wheel's
/// bounding square.
fn offset_squared(x: i64, y: i64) -> (d2: u64)
    requires
        0 <= x <= 2 * CENTER,
        0 <= y <= 2 * CENTER,
    ensures
        d2 == distance_squared(x as int, y as int),
        d2 <= 2 * RADIUS_SQUARED,
{
    let dx: i64 = x - CENTER;
    let dy: i64 = y - CENTER;
    assert(0 <= dx * dx <= 1_500_000 * 1_500_000) by (nonlinear_arith)
        requires
            -1_500_000 <= dx <= 1_500_000,
    ;
    assert(0 <= dy * dy <= 1_500_000 * 1_500_000) by (nonlinear_arith)
        requires
            -1_500_000 <= dy <= 1_500_000,
    ;
    let sum: i64 = dx * dx + dy * dy;
    sum as u64
}

/// The saturation of a position on the wheel: its distance from the centre
/// as a share of the radius, in parts per million, rounded down. The centre
/// has saturation nothing, the rim has saturation one.
pub fn saturation(x: i64, y: i64) -> (s: u32)
    requires
        within_wheel(x as int, y as int),
    ensures
        is_saturation(distance_squared(x as int, y as int), s as int),
        s as int == saturation_of(distance_squared(x as int, y as int)),
        s <= UNIT,
{
    proof {
        lemma_wheel_in_square(x as int, y as int);
    }
    let d2: u64 = offset_squared(x, y);
    let target: u128 = UNIT_SQUARED * (d2 as u128);
    let mut lo: u32 = 0;
    let mut hi: u32 = UNIT + 1;
    proof {
        let r = RADIUS as int;
        let u = UNIT as int;
        let top = hi as int;
        assert((0 * r) * (0 * r) == 0 && 0 <= (u * u) * d2) by (nonlinear_arith)
            requires
                0 <= d2,
        ;
        assert((top * r) * (top * r) > (u * u) * d2) by (nonlinear_arith)
            requires
                top == 1_000_001,
                r == 1_500_000,
                u == 1_000_000,
                0 <= d2 <= 2_250_000_000_000,
        ;
    }
    while hi - lo > 1
        invariant
            lo < hi <= UNIT + 1,
            d2 <= RADIUS_SQUARED,
            target == (UNIT * UNIT) * d2,
            reaches(lo as int, d2 as int),
            !reaches(hi as int, d2 as int),
        decreases hi - lo,
    {
        let mid: u32 = lo + (hi - lo) / 2;
        let side: u128 = (mid as u128) * (RADIUS as u128);
        assert(side * side <= 1_500_001_500_000 * 1_500_001_500_000) by (nonlinear_arith)
            requires
                0 <= side <= 1_500_001_500_000,
        ;
        let square: u128 = side * side;
        if square <= target {
            lo = mid;
        } else {
            hi = mid;
        }
    }
    proof {
        let chosen = saturation_of(d2 as int);
        assert(is_saturation(d2 as int, lo as int));
        lemma_saturation_unique(d2 as int, lo as int, chosen);
    }
    lo
}

/// The hue, in millidegrees below a full turn, of a direction given by its
/// angle in millidegrees: the angle plus half a turn, reduced to a full
/// turn.
pub fn hue_of_angle(angle: i32) -> (h: u32)
    ensures
        h as int == hue_from_angle(angle as int),
        h < TURN,
{
    let shifted: i64 = (angle as i64) + 180_000 + 2_160_000_000;
    let h: u64 = (shifted as u64) % 360_000;
    h as u32
}

} // verus!
