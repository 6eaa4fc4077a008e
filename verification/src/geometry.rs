//! Points of the integer lattice on which the mesh is built.
//!
//! All coordinates are whole world units held in `i32`, so a squared planar
//! distance always fits in a `u64` and no operation here has a precondition.

use vstd::prelude::*;
use crate::arithmetic::magnitude_of;

verus! {

/// A point of the mesh plane, in whole world units.
#[derive(Clone, Copy, Debug, PartialEq, Eq, Structural)]
pub struct Point {
    pub x: i32,
    pub y: i32,
}

/// A point or direction in space: the plane of the mesh is `z == 0` and the
/// perpendicular axis is `z`.
#[derive(Clone, Copy, Debug, PartialEq, Eq, Structural)]
pub struct Vector3 {
    pub x: i32,
    pub y: i32,
    pub z: i32,
}

/// A triangle of the mesh plane, its corners listed in winding order.
#[derive(Clone, Copy, Debug, PartialEq, Eq, Structural)]
pub struct Triangle {
    pub a: Point,
    pub b: Point,
    pub c: Point,
}

/// Squared planar distance of `(x, y)` from the origin.
pub open spec fn norm_squared(x: int, y: int) -> int {
    x * x + y * y
}

/// Twice the signed area of the triangle `a`, `b`, `c`: positive when the
/// three points turn counter-clockwise (x to the right, y upward), zero when
/// they are collinear.
pub open spec fn doubled_area(a: Point, b: Point, c: Point) -> int {
    (b.x - a.x) * (c.y - a.y) - (b.y - a.y) * (c.x - a.x)
}

impl Triangle {
    /// Twice the signed area: positive for a counter-clockwise winding.
    pub open spec fn doubled_area(self) -> int {
        doubled_area(self.a, self.b, self.c)
    }

    /// The corner in place `k` of the winding order.
    pub open spec fn vertex(self, k: int) -> Point {
        if k == 0 {
            self.a
        } else if k == 1 {
            self.b
        } else {
            self.c
        }
    }
}

impl Vector3 {
    /// Squared distance from the origin of the projection onto the mesh
    /// plane; the perpendicular coordinate plays no part.
    pub open spec fn planar_norm_squared(self) -> int {
        norm_squared(self.x as int, self.y as int)
    }

    /// Computes the squared planar distance from the origin.
    pub fn planar_distance_squared(&self) -> (s: u64)
        ensures
            s == self.planar_norm_squared(),
            s <= 0x8000_0000_0000_0000,
    {
        squared_distance(self.x, self.y)
    }
}

/// The magnitude of a coordinate.
pub fn magnitude(c: i32) -> (m: u64)
    ensures
        m == magnitude_of(c as int),
        m <= 0x8000_0000,
{
    if c < 0 {
        (-(c as i64)) as u64
    } else {
        c as u64
    }
}

/// Computes the squared distance of `(x, y)` from the origin.
pub fn squared_distance(x: i32, y: i32) -> (s: u64)
    ensures
        s == norm_squared(x as int, y as int),
        s <= 0x8000_0000_0000_0000,
{
    let ax: u64 = magnitude(x);
    let ay: u64 = magnitude(y);
    assert(ax * ax <= 0x4000_0000_0000_0000 && ax * ax == x * x) by (nonlinear_arith)
        requires
            ax <= 0x8000_0000,
            ax == x || ax == -x,
    ;
    assert(ay * ay <= 0x4000_0000_0000_0000 && ay * ay == y * y) by (nonlinear_arith)
        requires
            ay <= 0x8000_0000,
            ay == y || ay == -y,
    ;
    ax * ax + ay * ay
}

} // verus!
