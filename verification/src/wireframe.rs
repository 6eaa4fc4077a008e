//! The wireframe extractor: the edges of the triangles of a mesh as line
//! segments for an overlay.
//!
//! Each triangle `a`, `b`, `c` gives the three segments `a`-`b`, `b`-`c`,
//! `c`-`a`, in that order and triangle after triangle. An edge that two
//! triangles share appears once for each. The ends of a segment are raised
//! by `WIREFRAME_OFFSET` along the perpendicular axis, so that the overlay
//! lies in front of the mesh.

use vstd::prelude::*;
use crate::geometry::Vector3;
use crate::mesh::Mesh;

verus! {

/// How far the overlay lies in front of the mesh.
pub const WIREFRAME_OFFSET: i32 = 1;

/// A line segment of the overlay.
#[derive(Clone, Copy, Debug, PartialEq, Eq, Structural)]
pub struct Segment {
    pub start: Vector3,
    pub end: Vector3,
}

/// The position raised by `WIREFRAME_OFFSET` along the perpendicular axis
/// (as far as the coordinate range allows).
pub open spec fn raised(p: Vector3) -> Vector3 {
    Vector3 {
        x: p.x,
        y: p.y,
        z: if p.z <= i32::MAX - WIREFRAME_OFFSET {
            (p.z + WIREFRAME_OFFSET) as i32
        } else {
            i32::MAX
        },
    }
}

/// Segment `j` of the overlay: edge `j % 3` of triangle `j / 3`.
pub open spec fn segment_at(positions: Seq<Vector3>, indices: Seq<u32>, j: int) -> Segment {
    let t = j / 3;
    let e = j % 3;
    Segment {
        start: raised(positions[indices[3 * t + e] as int]),
        end: raised(positions[indices[3 * t + (e + 1) % 3] as int]),
    }
}

/// All segments of the overlay: three per triangle.
pub open spec fn wireframe_segments(positions: Seq<Vector3>, indices: Seq<u32>) -> Seq<Segment> {
    Seq::new(3 * (indices.len() / 3), |j: int| segment_at(positions, indices, j))
}

/// The wireframe extractor and its switch.
#[derive(Clone, Copy, Debug, PartialEq, Eq)]
pub struct WireframeExtractor {
    /// Whether an overlay is wanted.
    pub enabled: bool,
}

impl WireframeExtractor {
    /// The overlay of `mesh`. Where the extractor is switched off the answer
    /// is `None`, which tells the caller to clear whatever overlay it shows;
    /// otherwise it is the full list of segments, rebuilt from the mesh.
    pub fn extract(&self, mesh: &Mesh) -> (overlay: Option<Vec<Segment>>)
        requires
            mesh.well_formed(),
        ensures
            overlay is Some <==> self.enabled,
            overlay matches Some(segments) ==> segments@ == wireframe_segments(
                mesh.positions@,
                mesh.indices@,
            ) && segments@.len() == mesh.indices@.len(),
    {
        if !self.enabled {
            return None;
        }
        let count: usize = mesh.indices.len() / 3;
        let mut segments: Vec<Segment> = Vec::new();
        let mut t: usize = 0;
        while t < count
            invariant
                mesh.well_formed(),
                count == mesh.indices@.len() / 3,
                mesh.indices@.len() <= usize::MAX,
                t <= count,
                segments@ == Seq::new(
                    3 * (t as nat),
                    |j: int| segment_at(mesh.positions@, mesh.indices@, j),
                ),
            decreases count - t,
        {
            let a = lift(mesh.positions[mesh.indices[3 * t] as usize]);
            let b = lift(mesh.positions[mesh.indices[3 * t + 1] as usize]);
            let c = lift(mesh.positions[mesh.indices[3 * t + 2] as usize]);
            segments.push(Segment { start: a, end: b });
            segments.push(Segment { start: b, end: c });
            segments.push(Segment { start: c, end: a });
            t = t + 1;
            assert(segments@ =~= Seq::new(
                3 * (t as nat),
                |j: int| segment_at(mesh.positions@, mesh.indices@, j),
            ));
        }
        Some(segments)
    }
}

/// Raises a position into the plane of the overlay.
fn lift(p: Vector3) -> (q: Vector3)
    ensures
        q == raised(p),
{
    let z: i32 = if p.z <= i32::MAX - WIREFRAME_OFFSET {
        p.z + WIREFRAME_OFFSET
    } else {
        i32::MAX
    };
    Vector3 { x: p.x, y: p.y, z }
}

} // verus!
