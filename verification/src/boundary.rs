//! Where the boundary crosses an edge between two corners.
//!
//! Two placements are offered. The midpoint placement takes the middle of
//! the edge whatever the corner values are. The interpolated placement takes
//! the point at the fraction `(threshold - v0) / (v1 - v0)` of the way from
//! the first corner to the second, the fraction clamped to `[0, 1]`. On the
//! integer lattice the offset from the first corner is rounded toward that
//! corner. Where both corners hold the same value the fraction is taken as 0
//! if the threshold is not above that value and as 1 otherwise.

use vstd::prelude::*;
use crate::arithmetic::{distance, lemma_fraction_monotonic};
use crate::geometry::Point;

verus! {

/// Denominator of the crossing fraction: the distance between the two corner
/// values, or 1 where they are equal.
pub open spec fn crossing_denominator(v0: int, v1: int) -> int {
    if v0 == v1 {
        1
    } else if v0 < v1 {
        v1 - v0
    } else {
        v0 - v1
    }
}

/// Numerator of the crossing fraction: how far the threshold lies from the
/// first corner's value in the direction of the second, clamped to the span
/// between the two.
pub open spec fn crossing_numerator(v0: int, v1: int, threshold: int) -> int {
    if v0 == v1 {
        if threshold <= v0 {
            0
        } else {
            1
        }
    } else if v0 < v1 {
        if threshold <= v0 {
            0
        } else if threshold >= v1 {
            v1 - v0
        } else {
            threshold - v0
        }
    } else {
        if threshold >= v0 {
            0
        } else if threshold <= v1 {
            v0 - v1
        } else {
            v0 - threshold
        }
    }
}

/// How far from `c0` toward `c1` the fraction `num / den` of the way lies,
/// rounded down.
pub open spec fn travelled(c0: int, c1: int, num: int, den: int) -> int {
    (num * distance(c0, c1)) / den
}

/// How far from `c0` toward `c1` the interpolated vertex lies on an edge whose
/// corners hold `v0` and `v1`.
pub open spec fn crossing_offset(c0: int, c1: int, v0: int, v1: int, threshold: int) -> int {
    travelled(c0, c1, crossing_numerator(v0, v1, threshold), crossing_denominator(v0, v1))
}

/// The coordinate at the fraction `num / den` of the way from `c0` to `c1`,
/// rounded toward `c0`.
pub open spec fn lerp_coordinate(c0: int, c1: int, num: int, den: int) -> int {
    if c0 <= c1 {
        c0 + travelled(c0, c1, num, den)
    } else {
        c0 - travelled(c0, c1, num, den)
    }
}

/// The coordinate halfway between `c0` and `c1`, rounded down where the two
/// are an odd distance apart.
pub open spec fn midpoint_coordinate(c0: int, c1: int) -> int {
    if c0 <= c1 {
        c0 + (c1 - c0) / 2
    } else {
        c1 + (c0 - c1) / 2
    }
}

/// The middle of the edge from `start` to `end`.
pub open spec fn midpoint(start: Point, end: Point) -> Point {
    Point {
        x: midpoint_coordinate(start.x as int, end.x as int) as i32,
        y: midpoint_coordinate(start.y as int, end.y as int) as i32,
    }
}

/// The point of the edge from `start` (value `v0`) to `end` (value `v1`) at
/// which a field that is linear along the edge crosses `threshold`.
pub open spec fn interpolated_point(
    start: Point,
    v0: int,
    end: Point,
    v1: int,
    threshold: int,
) -> Point {
    let num = crossing_numerator(v0, v1, threshold);
    let den = crossing_denominator(v0, v1);
    Point {
        x: lerp_coordinate(start.x as int, end.x as int, num, den) as i32,
        y: lerp_coordinate(start.y as int, end.y as int, num, den) as i32,
    }
}

/// The boundary vertex on the edge from `start` to `end` under the chosen
/// placement.
pub open spec fn boundary_point(
    start: Point,
    v0: int,
    end: Point,
    v1: int,
    threshold: int,
    interpolated: bool,
) -> Point {
    if interpolated {
        interpolated_point(start, v0, end, v1, threshold)
    } else {
        midpoint(start, end)
    }
}

/// Whether `c` lies between `c0` and `c1`, ends included.
pub open spec fn between(c0: int, c: int, c1: int) -> bool {
    (c0 <= c <= c1) || (c1 <= c <= c0)
}

/// Places the boundary vertex on the edge from `start` to `end`.
pub fn place_boundary(
    start: Point,
    v0: i32,
    end: Point,
    v1: i32,
    threshold: i32,
    interpolated: bool,
) -> (p: Point)
    ensures
        p == boundary_point(start, v0 as int, end, v1 as int, threshold as int, interpolated),
        between(start.x as int, p.x as int, end.x as int),
        between(start.y as int, p.y as int, end.y as int),
        !interpolated ==> p == midpoint(start, end),
{
    if interpolated {
        let num: u64 = numerator(v0, v1, threshold);
        let den: u64 = denominator(v0, v1);
        Point { x: lerp(start.x, end.x, num, den), y: lerp(start.y, end.y, num, den) }
    } else {
        Point { x: middle(start.x, end.x), y: middle(start.y, end.y) }
    }
}

/// The distance between two values.
fn span(a: i32, b: i32) -> (d: u64)
    ensures
        d == distance(a as int, b as int),
        d <= 0xFFFF_FFFF,
{
    if a <= b {
        (b as i64 - a as i64) as u64
    } else {
        (a as i64 - b as i64) as u64
    }
}

/// Computes the denominator of the crossing fraction.
fn denominator(v0: i32, v1: i32) -> (den: u64)
    ensures
        den == crossing_denominator(v0 as int, v1 as int),
        0 < den <= 0xFFFF_FFFF,
{
    if v0 == v1 {
        1
    } else {
        span(v0, v1)
    }
}

/// Computes the numerator of the crossing fraction.
fn numerator(v0: i32, v1: i32, threshold: i32) -> (num: u64)
    ensures
        num == crossing_numerator(v0 as int, v1 as int, threshold as int),
        num <= crossing_denominator(v0 as int, v1 as int),
{
    if v0 == v1 {
        if threshold <= v0 {
            0
        } else {
            1
        }
    } else if v0 < v1 {
        if threshold <= v0 {
            0
        } else if threshold >= v1 {
            span(v0, v1)
        } else {
            span(v0, threshold)
        }
    } else {
        if threshold >= v0 {
            0
        } else if threshold <= v1 {
            span(v0, v1)
        } else {
            span(v0, threshold)
        }
    }
}

/// Computes the coordinate at the fraction `num / den` of the way.
fn lerp(c0: i32, c1: i32, num: u64, den: u64) -> (c: i32)
    requires
        num <= den,
        0 < den <= 0xFFFF_FFFF,
    ensures
        c == lerp_coordinate(c0 as int, c1 as int, num as int, den as int),
        between(c0 as int, c as int, c1 as int),
{
    let len: u64 = span(c0, c1);
    proof {
        lemma_travelled_bounds(c0 as int, c1 as int, num as int, den as int);
        assert(num * len <= 0xFFFF_FFFF * 0xFFFF_FFFF) by (nonlinear_arith)
            requires
                0 <= num <= 0xFFFF_FFFF,
                0 <= len <= 0xFFFF_FFFF,
        ;
    }
    let offset: u64 = (num * len) / den;
    if c0 <= c1 {
        (c0 as i64 + offset as i64) as i32
    } else {
        (c0 as i64 - offset as i64) as i32
    }
}

/// Computes the coordinate halfway.
fn middle(c0: i32, c1: i32) -> (c: i32)
    ensures
        c == midpoint_coordinate(c0 as int, c1 as int),
        between(c0 as int, c as int, c1 as int),
{
    let half: u64 = span(c0, c1) / 2;
    if c0 <= c1 {
        (c0 as i64 + half as i64) as i32
    } else {
        (c1 as i64 + half as i64) as i32
    }
}

/// A fraction within `[0, 1]` of the way never leaves the edge.
pub proof fn lemma_travelled_bounds(c0: int, c1: int, num: int, den: int)
    requires
        0 <= num <= den,
        0 < den,
    ensures
        0 <= travelled(c0, c1, num, den) <= distance(c0, c1),
        between(c0, lerp_coordinate(c0, c1, num, den), c1),
{
    let len = distance(c0, c1);
    lemma_fraction_monotonic(0, 1, num, den, len);
    lemma_fraction_monotonic(num, den, 1, 1, len);
    assert(0 * len == 0);
    assert(1 * len == len);
    assert(0int / 1 == 0);
    assert(len / 1 == len);
}

/// The interpolated vertex lies on the edge, between its two ends.
pub proof fn lemma_interpolated_on_edge(
    start: Point,
    v0: int,
    end: Point,
    v1: int,
    threshold: int,
)
    ensures
        between(
            start.x as int,
            interpolated_point(start, v0, end, v1, threshold).x as int,
            end.x as int,
        ),
        between(
            start.y as int,
            interpolated_point(start, v0, end, v1, threshold).y as int,
            end.y as int,
        ),
{
    let num = crossing_numerator(v0, v1, threshold);
    let den = crossing_denominator(v0, v1);
    lemma_travelled_bounds(start.x as int, end.x as int, num, den);
    lemma_travelled_bounds(start.y as int, end.y as int, num, den);
}

/// The midpoint vertex is the arithmetic mean of the two ends, exactly so
/// where the ends are an even distance apart, and whatever values the
/// corners hold.
pub proof fn lemma_midpoint_exact(start: Point, v0: int, end: Point, v1: int, threshold: int)
    ensures
        boundary_point(start, v0, end, v1, threshold, false) == midpoint(start, end),
        (end.x - start.x) % 2 == 0 ==> 2 * midpoint(start, end).x == start.x + end.x,
        (end.y - start.y) % 2 == 0 ==> 2 * midpoint(start, end).y == start.y + end.y,
        0 <= start.x + end.x - 2 * midpoint(start, end).x <= 1,
        0 <= start.y + end.y - 2 * midpoint(start, end).y <= 1,
{
}

/// Interpolation is monotonic in the value of the second corner. On an edge
/// that the boundary crosses, moving the second corner's value further past
/// the threshold (from `v1` to `w1`) never moves the vertex further from the
/// first corner: the crossing is pushed toward the corner whose value
/// stayed.
pub proof fn lemma_interpolation_monotonic_second(
    c0: int,
    c1: int,
    v0: int,
    v1: int,
    w1: int,
    threshold: int,
)
    requires
        (v0 < threshold <= v1 <= w1) || (w1 <= v1 < threshold <= v0),
    ensures
        crossing_offset(c0, c1, v0, w1, threshold) <= crossing_offset(c0, c1, v0, v1, threshold),
{
    let len = distance(c0, c1);
    let num = crossing_numerator(v0, v1, threshold);
    let den = crossing_denominator(v0, v1);
    let num_w = crossing_numerator(v0, w1, threshold);
    let den_w = crossing_denominator(v0, w1);
    assert(num_w == num);
    assert(num_w * den <= num * den_w) by (nonlinear_arith)
        requires
            num_w == num,
            0 <= num,
            den <= den_w,
    ;
    lemma_fraction_monotonic(num_w, den_w, num, den, len);
}

/// Interpolation is monotonic in the value of the first corner. On an edge
/// that the boundary crosses, moving the first corner's value further past
/// the threshold (from `v0` to `w0`) never moves the vertex nearer to the
/// first corner: the crossing is pushed toward the corner whose value
/// stayed.
pub proof fn lemma_interpolation_monotonic_first(
    c0: int,
    c1: int,
    v0: int,
    w0: int,
    v1: int,
    threshold: int,
)
    requires
        (w0 <= v0 < threshold <= v1) || (v1 < threshold <= v0 <= w0),
    ensures
        crossing_offset(c0, c1, v0, v1, threshold) <= crossing_offset(c0, c1, w0, v1, threshold),
{
    let len = distance(c0, c1);
    let num = crossing_numerator(v0, v1, threshold);
    let den = crossing_denominator(v0, v1);
    let num_w = crossing_numerator(w0, v1, threshold);
    let den_w = crossing_denominator(w0, v1);
    let shift = num_w - num;
    assert(den_w == den + shift);
    assert(num * den_w <= num_w * den) by (nonlinear_arith)
        requires
            num_w == num + shift,
            den_w == den + shift,
            0 <= num <= den,
            0 <= shift,
    ;
    lemma_fraction_monotonic(num, den, num_w, den_w, len);
}

} // verus!
