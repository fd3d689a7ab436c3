//! Fixed-point measures shared by the whole library.

use vstd::prelude::*;

verus! {

/// Number of length steps in one world unit.
pub const UNIT: i64 = 1000;

/// Edge of a square tile.
pub const TILE_SIZE: i64 = 64000;

/// Half the edge of a tile: the offset from a tile's anchor to its border.
pub const HALF_TILE: i64 = 32000;

/// Number of time steps in one second.
pub const SECOND: u64 = 1000000;

/// Full size of a scale or of a direction component.
pub const WHOLE: i64 = 1000;

/// A point of the plane, as `(x, y)`.
pub type Point = (i64, i64);

/// Position on the straight way from `from` to `to` after `elapsed` out of
/// `duration`. The distance covered is rounded towards `from`, whichever way
/// the motion goes.
pub open spec fn lerp(from: int, to: int, elapsed: int, duration: int) -> int
    recommends
        0 <= elapsed <= duration,
        0 < duration,
{
    if from <= to {
        from + ((to - from) * elapsed) / duration
    } else {
        from - ((from - to) * elapsed) / duration
    }
}

/// `lerp` on both coordinates.
pub open spec fn lerp_point(from: Point, to: Point, elapsed: int, duration: int) -> Point {
    (
        lerp(from.0 as int, to.0 as int, elapsed, duration) as i64,
        lerp(from.1 as int, to.1 as int, elapsed, duration) as i64,
    )
}

/// The part `elapsed / duration` of a span never exceeds the span.
pub proof fn lemma_share_bounded(span: int, elapsed: int, duration: int)
    requires
        0 <= span,
        0 <= elapsed <= duration,
        0 < duration,
    ensures
        0 <= (span * elapsed) / duration <= span,
{
    assert(0 <= span * elapsed <= span * duration) by (nonlinear_arith)
        requires
            0 <= span,
            0 <= elapsed <= duration,
    ;
    vstd::arithmetic::div_mod::lemma_div_is_ordered(0, span * elapsed, duration);
    vstd::arithmetic::div_mod::lemma_div_is_ordered(span * elapsed, span * duration, duration);
    vstd::arithmetic::div_mod::lemma_div_multiples_vanish(span, duration);
    assert(span * duration == duration * span) by (nonlinear_arith);
}

/// An interpolation starts at one end and stops at the other.
pub proof fn law_lerp_ends(from: int, to: int, duration: int)
    requires
        0 < duration,
    ensures
        lerp(from, to, 0, duration) == from,
        lerp(from, to, duration, duration) == to,
{
    lemma_lerp_gap(from, to, 0, duration);
    lemma_lerp_gap(from, to, duration, duration);
}

/// An interpolated position lies between its ends, and is never farther from
/// its far end than the share of the way that the time left stands for, and
/// one step for rounding.
pub proof fn lemma_lerp_gap(from: int, to: int, elapsed: int, duration: int)
    requires
        0 <= elapsed <= duration,
        0 < duration,
    ensures
        from <= to ==> from <= lerp(from, to, elapsed, duration) <= to,
        to <= from ==> to <= lerp(from, to, elapsed, duration) <= from,
        from <= to ==> (to - lerp(from, to, elapsed, duration)) * duration < (to - from) * (
        duration - elapsed) + duration,
        to <= from ==> (lerp(from, to, elapsed, duration) - to) * duration < (from - to) * (
        duration - elapsed) + duration,
        elapsed == 0 ==> lerp(from, to, elapsed, duration) == from,
        elapsed == duration ==> lerp(from, to, elapsed, duration) == to,
{
    let span = if from <= to {
        to - from
    } else {
        from - to
    };
    let covered = (span * elapsed) / duration;
    lemma_share_bounded(span, elapsed, duration);
    vstd::arithmetic::div_mod::lemma_fundamental_div_mod(span * elapsed, duration);
    assert((span - covered) * duration < span * (duration - elapsed) + duration) by (nonlinear_arith)
        requires
            span * elapsed == duration * covered + (span * elapsed) % duration,
            0 <= (span * elapsed) % duration < duration,
    ;
    if elapsed == 0 {
        assert(span * 0 == 0) by (nonlinear_arith);
    }
    if elapsed == duration {
        vstd::arithmetic::div_mod::lemma_div_multiples_vanish(span, duration);
        assert(span * duration == duration * span) by (nonlinear_arith);
    }
}

/// Computes `lerp`.
pub fn interpolate(from: i64, to: i64, elapsed: u32, duration: u32) -> (at: i64)
    requires
        0 < duration,
        elapsed <= duration,
    ensures
        at == lerp(from as int, to as int, elapsed as int, duration as int),
{
    if from <= to {
        let span: u128 = (to as i128 - from as i128) as u128;
        proof {
            lemma_share_bounded(span as int, elapsed as int, duration as int);
            assert(span * elapsed <= 0x1_0000_0000_0000_0000 * 0x1_0000_0000) by (nonlinear_arith)
                requires
                    0 <= span < 0x1_0000_0000_0000_0000,
                    0 <= elapsed < 0x1_0000_0000,
            ;
        }
        let covered: u128 = span * (elapsed as u128) / (duration as u128);
        (from as i128 + covered as i128) as i64
    } else {
        let span: u128 = (from as i128 - to as i128) as u128;
        proof {
            lemma_share_bounded(span as int, elapsed as int, duration as int);
            assert(span * elapsed <= 0x1_0000_0000_0000_0000 * 0x1_0000_0000) by (nonlinear_arith)
                requires
                    0 <= span < 0x1_0000_0000_0000_0000,
                    0 <= elapsed < 0x1_0000_0000,
            ;
        }
        let covered: u128 = span * (elapsed as u128) / (duration as u128);
        (from as i128 - covered as i128) as i64
    }
}

/// Computes `lerp_point`.
pub fn interpolate_point(from: Point, to: Point, elapsed: u32, duration: u32) -> (at: Point)
    requires
        0 < duration,
        elapsed <= duration,
    ensures
        at == lerp_point(from, to, elapsed as int, duration as int),
{
    (interpolate(from.0, to.0, elapsed, duration), interpolate(from.1, to.1, elapsed, duration))
}

/// Whether two points are less than `radius` apart, by Euclidean distance.
pub open spec fn near(a: Point, b: Point, radius: int) -> bool {
    (a.0 - b.0) * (a.0 - b.0) + (a.1 - b.1) * (a.1 - b.1) < radius * radius
}

/// Computes `near`.
pub fn within(a: Point, b: Point, radius: u32) -> (close: bool)
    ensures
        close == near(a, b, radius as int),
{
    let dx: i128 = a.0 as i128 - b.0 as i128;
    let dy: i128 = a.1 as i128 - b.1 as i128;
    let r: i128 = radius as i128;
    if dx >= r || dx <= -r || dy >= r || dy <= -r {
        proof {
            assert(dx * dx >= r * r || dy * dy >= r * r) by (nonlinear_arith)
                requires
                    dx >= r || dx <= -r || dy >= r || dy <= -r,
                    r >= 0,
            ;
            assert(dx * dx >= 0 && dy * dy >= 0) by (nonlinear_arith);
        }
        false
    } else {
        proof {
            assert(0 <= dx * dx <= r * r && 0 <= dy * dy <= r * r && r * r
                <= 0x1_0000_0000 * 0x1_0000_0000) by (nonlinear_arith)
                requires
                    -r < dx < r,
                    -r < dy < r,
                    0 <= r < 0x1_0000_0000,
            ;
        }
        dx * dx + dy * dy < r * r
    }
}

} // verus!
