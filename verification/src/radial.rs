//! The clamp of one position to a disc around the origin of the mesh plane.
//!
//! A position within the disc stays where it is. A position outside is
//! pulled back along its ray from the origin: both planar coordinates are
//! scaled by `radius / d`, where `d` is the distance from the origin rounded
//! up, and rounded toward zero; the perpendicular coordinate is kept. On the
//! integer lattice the result cannot lie on the circle exactly. It lies
//! within the disc, and less than one lattice step per coordinate short of
//! the circle of radius `radius - 1`.

use vstd::prelude::*;
use crate::arithmetic::{
    lemma_quotient_brackets,
    lemma_scaled_magnitude,
    lemma_square_monotonic,
    lemma_square_strictly_monotonic,
    magnitude_of,
};
use crate::geometry::{magnitude, norm_squared, Vector3};
use crate::roots::{ceil_sqrt, lemma_ceil_sqrt_exceeds, lemma_ceil_sqrt_exists};

verus! {

/// Whether `p` lies outside the disc of radius `radius`.
pub open spec fn outside(p: Vector3, radius: int) -> bool {
    p.planar_norm_squared() > radius * radius
}

/// Coordinate `c` scaled by `radius / d` and rounded toward zero.
pub open spec fn scale_toward_origin(c: int, radius: int, d: int) -> int {
    if c >= 0 {
        (c * radius) / d
    } else {
        -((-c * radius) / d)
    }
}

/// The position after the clamp: unchanged within the disc, pulled back onto
/// it otherwise.
pub open spec fn clamped(p: Vector3, radius: int) -> Vector3 {
    if outside(p, radius) {
        let d = ceil_sqrt(p.planar_norm_squared());
        Vector3 {
            x: scale_toward_origin(p.x as int, radius, d) as i32,
            y: scale_toward_origin(p.y as int, radius, d) as i32,
            z: p.z,
        }
    } else {
        p
    }
}

/// Scales a coordinate by `radius / d`, rounding toward zero.
pub(crate) fn scale(c: i32, radius: i32, d: u64) -> (q: i32)
    requires
        0 < radius < d,
    ensures
        q == scale_toward_origin(c as int, radius as int, d as int),
{
    let m: u64 = magnitude(c);
    let r: u64 = radius as u64;
    proof {
        lemma_scaled_magnitude(m as int, r as int, d as int);
        assert(m * r <= 0x8000_0000 * 0x8000_0000) by (nonlinear_arith)
            requires
                0 <= m <= 0x8000_0000,
                0 <= r <= 0x8000_0000,
        ;
        if c < 0 {
            assert(-c * radius == m * r) by (nonlinear_arith)
                requires
                    m == -c,
                    r == radius,
            ;
        }
    }
    let q: u64 = (m * r) / d;
    if c >= 0 {
        q as i32
    } else {
        (-(q as i64)) as i32
    }
}

/// After the clamp a position lies within the disc.
pub proof fn lemma_clamped_within_radius(p: Vector3, radius: int)
    requires
        0 < radius,
    ensures
        !outside(clamped(p, radius), radius),
{
    if outside(p, radius) {
        let s = p.planar_norm_squared();
        let d = ceil_sqrt(s);
        lemma_ceil_sqrt_exists(s);
        lemma_ceil_sqrt_exceeds(s, radius);
        let a = magnitude_of(p.x as int);
        let b = magnitude_of(p.y as int);
        lemma_scale_square(p.x as int, radius, d);
        lemma_scale_square(p.y as int, radius, d);
        lemma_scaled_pair_within(a, b, radius, d);
        lemma_scaled_magnitude(a, radius, d);
        lemma_scaled_magnitude(b, radius, d);
    }
}

/// The clamp changes nothing the second time: clamping an already clamped
/// position at the same radius gives the same position.
pub proof fn lemma_clamp_idempotent(p: Vector3, radius: int)
    requires
        0 < radius,
    ensures
        clamped(clamped(p, radius), radius) == clamped(p, radius),
{
    lemma_clamped_within_radius(p, radius);
}

/// The clamp pulls toward the origin: each planar coordinate keeps its sign
/// and does not grow in magnitude, and the perpendicular coordinate stays.
pub proof fn lemma_clamped_toward_origin(p: Vector3, radius: int)
    requires
        0 < radius,
    ensures
        p.x >= 0 ==> 0 <= clamped(p, radius).x <= p.x,
        p.x <= 0 ==> p.x <= clamped(p, radius).x <= 0,
        p.y >= 0 ==> 0 <= clamped(p, radius).y <= p.y,
        p.y <= 0 ==> p.y <= clamped(p, radius).y <= 0,
        clamped(p, radius).z == p.z,
{
    if outside(p, radius) {
        let s = p.planar_norm_squared();
        let d = ceil_sqrt(s);
        lemma_ceil_sqrt_exceeds(s, radius);
        lemma_scaled_magnitude(magnitude_of(p.x as int), radius, d);
        lemma_scaled_magnitude(magnitude_of(p.y as int), radius, d);
    }
}

/// A vertex that the clamp moves ends up next to the circle: it lies within
/// the disc, and the lattice point one step further out in each coordinate
/// lies beyond the radius less one.
pub proof fn lemma_clamped_near_circle(p: Vector3, radius: int)
    requires
        0 < radius,
        outside(p, radius),
    ensures
        ({
            let q = clamped(p, radius);
            let mx = magnitude_of(q.x as int);
            let my = magnitude_of(q.y as int);
            &&& norm_squared(q.x as int, q.y as int) <= radius * radius
            &&& (mx + 1) * (mx + 1) + (my + 1) * (my + 1) > (radius - 1) * (radius - 1)
        }),
{
    let s = p.planar_norm_squared();
    let d = ceil_sqrt(s);
    lemma_ceil_sqrt_exists(s);
    lemma_ceil_sqrt_exceeds(s, radius);
    lemma_clamped_within_radius(p, radius);
    let a = magnitude_of(p.x as int);
    let b = magnitude_of(p.y as int);
    lemma_scaled_magnitude(a, radius, d);
    lemma_scaled_magnitude(b, radius, d);
    lemma_scale_square(p.x as int, radius, d);
    lemma_scale_square(p.y as int, radius, d);
    let q = clamped(p, radius);
    assert(magnitude_of(q.x as int) == (a * radius) / d);
    assert(magnitude_of(q.y as int) == (b * radius) / d);
    lemma_scaled_pair_beyond(a, b, radius, d);
}

/// The scaled coordinate has the scaled magnitude of the coordinate, so its
/// square is the square of that.
proof fn lemma_scale_square(c: int, radius: int, d: int)
    requires
        0 < radius < d,
    ensures
        ({
            let m = magnitude_of(c);
            let q = scale_toward_origin(c, radius, d);
            q * q == ((m * radius) / d) * ((m * radius) / d) && m * m == c * c
        }),
{
    let m = magnitude_of(c);
    let k = (m * radius) / d;
    let q = scale_toward_origin(c, radius, d);
    if c < 0 {
        assert(-c * radius == m * radius) by (nonlinear_arith)
            requires
                m == -c,
        ;
        assert(q == -k);
        assert(q * q == k * k) by (nonlinear_arith)
            requires
                q == -k,
        ;
        assert(m * m == c * c) by (nonlinear_arith)
            requires
                m == -c,
        ;
    }
}

/// Two magnitudes scaled by `radius / d`, where `d` squared reaches the sum
/// of their squares, land within the disc.
proof fn lemma_scaled_pair_within(a: int, b: int, radius: int, d: int)
    requires
        0 <= a,
        0 <= b,
        0 < radius,
        0 < d,
        a * a + b * b <= d * d,
    ensures
        ({
            let qa = (a * radius) / d;
            let qb = (b * radius) / d;
            qa * qa + qb * qb <= radius * radius
        }),
{
    let qa = (a * radius) / d;
    let qb = (b * radius) / d;
    lemma_quotient_brackets(a * radius, d);
    lemma_quotient_brackets(b * radius, d);
    assert(0 <= qa && 0 <= qb) by (nonlinear_arith)
        requires
            a * radius < qa * d + d,
            b * radius < qb * d + d,
            0 <= a,
            0 <= b,
            0 < radius,
            0 < d,
    ;
    assert(0 <= qa * d && 0 <= qb * d) by (nonlinear_arith)
        requires
            0 <= qa,
            0 <= qb,
            0 < d,
    ;
    lemma_square_monotonic(qa * d, a * radius);
    lemma_square_monotonic(qb * d, b * radius);
    assert((qa * d) * (qa * d) == (qa * qa) * (d * d)) by (nonlinear_arith);
    assert((qb * d) * (qb * d) == (qb * qb) * (d * d)) by (nonlinear_arith);
    assert((a * radius) * (a * radius) == (a * a) * (radius * radius)) by (nonlinear_arith);
    assert((b * radius) * (b * radius) == (b * b) * (radius * radius)) by (nonlinear_arith);
    let lhs = qa * qa + qb * qb;
    let rr = radius * radius;
    let dd = d * d;
    assert(0 < dd && 0 <= rr) by (nonlinear_arith)
        requires
            dd == d * d,
            rr == radius * radius,
            0 < d,
    ;
    assert(lhs * dd <= rr * dd) by (nonlinear_arith)
        requires
            (qa * qa) * dd <= (a * a) * rr,
            (qb * qb) * dd <= (b * b) * rr,
            a * a + b * b <= dd,
            lhs == qa * qa + qb * qb,
            0 <= rr,
    ;
    assert(lhs <= rr) by (nonlinear_arith)
        requires
            lhs * dd <= rr * dd,
            0 < dd,
    ;
}

/// Two magnitudes scaled by `radius / d`, where `d` is the rounded-up root of
/// the sum of their squares and exceeds the radius, land less than one step
/// per coordinate short of the circle of radius `radius - 1`.
proof fn lemma_scaled_pair_beyond(a: int, b: int, radius: int, d: int)
    requires
        0 <= a,
        0 <= b,
        0 < radius < d,
        (d - 1) * (d - 1) < a * a + b * b,
    ensures
        ({
            let qa = (a * radius) / d;
            let qb = (b * radius) / d;
            (qa + 1) * (qa + 1) + (qb + 1) * (qb + 1) > (radius - 1) * (radius - 1)
        }),
{
    let qa = (a * radius) / d;
    let qb = (b * radius) / d;
    lemma_quotient_brackets(a * radius, d);
    lemma_quotient_brackets(b * radius, d);
    lemma_scaled_magnitude(a, radius, d);
    lemma_scaled_magnitude(b, radius, d);
    // With ua = (qa + 1) * d and ub = (qb + 1) * d:
    // a * radius < ua and b * radius < ub, hence
    // (a^2 + b^2) * radius^2 < ((qa + 1)^2 + (qb + 1)^2) * d^2.
    let ua = (qa + 1) * d;
    let ub = (qb + 1) * d;
    assert(ua == qa * d + d && ub == qb * d + d) by (nonlinear_arith)
        requires
            ua == (qa + 1) * d,
            ub == (qb + 1) * d,
    ;
    assert(0 <= a * radius && 0 <= b * radius) by (nonlinear_arith)
        requires
            0 <= a,
            0 <= b,
            0 < radius,
    ;
    lemma_square_strictly_monotonic(a * radius, ua);
    lemma_square_strictly_monotonic(b * radius, ub);
    let rr = radius * radius;
    let dd = d * d;
    let outer = (qa + 1) * (qa + 1) + (qb + 1) * (qb + 1);
    assert(ua * ua == ((qa + 1) * (qa + 1)) * dd) by (nonlinear_arith)
        requires
            ua == (qa + 1) * d,
            dd == d * d,
    ;
    assert(ub * ub == ((qb + 1) * (qb + 1)) * dd) by (nonlinear_arith)
        requires
            ub == (qb + 1) * d,
            dd == d * d,
    ;
    assert((a * radius) * (a * radius) == (a * a) * rr) by (nonlinear_arith)
        requires
            rr == radius * radius,
    ;
    assert((b * radius) * (b * radius) == (b * b) * rr) by (nonlinear_arith)
        requires
            rr == radius * radius,
    ;
    assert((a * a + b * b) * rr < outer * dd) by (nonlinear_arith)
        requires
            (a * a) * rr < ((qa + 1) * (qa + 1)) * dd,
            (b * b) * rr < ((qb + 1) * (qb + 1)) * dd,
            outer == (qa + 1) * (qa + 1) + (qb + 1) * (qb + 1),
    ;
    // (radius - 1) * d <= radius * (d - 1), both sides non-negative, hence
    // (radius - 1)^2 * d^2 <= radius^2 * (d - 1)^2 <= radius^2 * (a^2 + b^2).
    let low = (radius - 1) * d;
    let mid = radius * (d - 1);
    assert(0 <= low <= mid) by (nonlinear_arith)
        requires
            low == (radius - 1) * d,
            mid == radius * (d - 1),
            0 < radius < d,
    ;
    lemma_square_monotonic(low, mid);
    assert(low * low == ((radius - 1) * (radius - 1)) * dd) by (nonlinear_arith)
        requires
            low == (radius - 1) * d,
            dd == d * d,
    ;
    assert(mid * mid == rr * ((d - 1) * (d - 1))) by (nonlinear_arith)
        requires
            mid == radius * (d - 1),
            rr == radius * radius,
    ;
    assert(rr * ((d - 1) * (d - 1)) <= (a * a + b * b) * rr) by (nonlinear_arith)
        requires
            (d - 1) * (d - 1) < a * a + b * b,
            rr == radius * radius,
    ;
    let inner = (radius - 1) * (radius - 1);
    assert(inner < outer) by (nonlinear_arith)
        requires
            inner * dd < outer * dd,
            dd == d * d,
            0 < d,
    ;
}

} // verus!
