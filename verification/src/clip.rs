//! The radial clipper: bounds a mesh to the disc of a given radius around
//! the origin of the mesh plane.
//!
//! Two phases. The cull drops every triangle all three of whose vertices lie
//! outside the disc, deciding on the positions as they were handed in, and
//! builds a fresh list of the indices that stay. The clamp then pulls every
//! vertex that lies outside the disc back to it, whichever triangles use the
//! vertex and whether or not any does. The two phases do not disturb each
//! other: the cull reads positions and writes indices, the clamp rewrites
//! positions only.

use vstd::prelude::*;
use crate::error::MeshError;
use crate::geometry::Vector3;
use crate::mesh::Mesh;
use crate::radial::{
    clamped,
    lemma_clamp_idempotent,
    lemma_clamped_within_radius,
    outside,
    scale,
};
use crate::roots::{ceil_sqrt_u64, lemma_ceil_sqrt_exceeds};

verus! {

/// Whether all three vertices of triangle `t` of `indices` lie outside the
/// disc.
pub open spec fn triangle_outside(
    positions: Seq<Vector3>,
    indices: Seq<u32>,
    t: int,
    radius: int,
) -> bool {
    &&& outside(positions[indices[3 * t] as int], radius)
    &&& outside(positions[indices[3 * t + 1] as int], radius)
    &&& outside(positions[indices[3 * t + 2] as int], radius)
}

/// The indices of those among the first `count` triangles that do not lie
/// wholly outside the disc, in the order in which they came.
pub open spec fn retained_indices(
    positions: Seq<Vector3>,
    indices: Seq<u32>,
    radius: int,
    count: nat,
) -> Seq<u32>
    decreases count,
{
    if count == 0 {
        Seq::empty()
    } else {
        let t = count - 1;
        let before = retained_indices(positions, indices, radius, t as nat);
        if triangle_outside(positions, indices, t, radius) {
            before
        } else {
            before + indices.subrange(3 * t, 3 * t + 3)
        }
    }
}

/// The index list after the cull.
pub open spec fn culled_indices(
    positions: Seq<Vector3>,
    indices: Seq<u32>,
    radius: int,
) -> Seq<u32> {
    retained_indices(positions, indices, radius, indices.len() / 3)
}

/// All positions after the clamp.
pub open spec fn clamped_positions(positions: Seq<Vector3>, radius: int) -> Seq<Vector3> {
    Seq::new(positions.len(), |i: int| clamped(positions[i], radius))
}

/// The radial clipper of one mesh instance. Its radius is positive.
#[derive(Clone, Copy, Debug, PartialEq, Eq)]
pub struct RadialClipper {
    radius: i32,
}

impl RadialClipper {
    #[verifier::type_invariant]
    spec fn radius_is_positive(self) -> bool {
        self.radius > 0
    }

    /// The radius of the disc.
    pub closed spec fn spec_radius(&self) -> i32 {
        self.radius
    }

    /// A clipper for the disc of radius `radius`. A radius that is zero or
    /// negative is turned down with `InvalidRadius`.
    pub fn new(radius: i32) -> (result: Result<RadialClipper, MeshError>)
        ensures
            result is Ok <==> radius > 0,
            result matches Ok(clipper) ==> clipper.spec_radius() == radius,
            result matches Err(e) ==> e == MeshError::InvalidRadius,
    {
        if radius > 0 {
            Ok(RadialClipper { radius })
        } else {
            Err(MeshError::InvalidRadius)
        }
    }

    /// The radius of the disc.
    #[verifier::when_used_as_spec(spec_radius)]
    pub fn radius(&self) -> (radius: i32)
        ensures
            radius == self.spec_radius(),
            radius > 0,
    {
        proof {
            use_type_invariant(self);
        }
        self.radius
    }

    /// Whether `p` lies outside the disc. A point on the circle is within.
    pub fn is_outside(&self, p: &Vector3) -> (out: bool)
        ensures
            out == outside(*p, self.radius() as int),
    {
        proof {
            use_type_invariant(self);
        }
        let r: u64 = self.radius as u64;
        assert(r * r <= 0x4000_0000_0000_0000) by (nonlinear_arith)
            requires
                r <= 0x8000_0000,
        ;
        p.planar_distance_squared() > r * r
    }

    /// The cull: the indices of the triangles that have at least one vertex
    /// within the disc, in the order in which they came. The list is built
    /// afresh; `indices` is left as it is.
    pub fn cull(&self, positions: &Vec<Vector3>, indices: &Vec<u32>) -> (kept: Vec<u32>)
        requires
            indices@.len() % 3 == 0,
            forall|i: int| 0 <= i < indices@.len() ==> (#[trigger] indices@[i]) < positions@.len(),
        ensures
            kept@ == culled_indices(positions@, indices@, self.radius() as int),
            kept@.len() % 3 == 0,
            kept@.len() <= indices@.len(),
            forall|i: int| 0 <= i < kept@.len() ==> (#[trigger] kept@[i]) < positions@.len(),
            forall|t: int|
                0 <= t < kept@.len() / 3 ==> !#[trigger] triangle_outside(
                    positions@,
                    kept@,
                    t,
                    self.radius() as int,
                ),
    {
        let ghost radius = self.radius() as int;
        let count: usize = indices.len() / 3;
        let mut kept: Vec<u32> = Vec::new();
        let mut t: usize = 0;
        while t < count
            invariant
                radius == self.radius(),
                indices@.len() % 3 == 0,
                count == indices@.len() / 3,
                indices@.len() <= usize::MAX,
                t <= count,
                forall|i: int|
                    0 <= i < indices@.len() ==> (#[trigger] indices@[i]) < positions@.len(),
                kept@ == retained_indices(positions@, indices@, radius, t as nat),
                kept@.len() % 3 == 0,
                kept@.len() <= 3 * t,
                forall|i: int| 0 <= i < kept@.len() ==> (#[trigger] kept@[i]) < positions@.len(),
            decreases count - t,
        {
            let a: u32 = indices[3 * t];
            let b: u32 = indices[3 * t + 1];
            let c: u32 = indices[3 * t + 2];
            let all_outside = self.is_outside(&positions[a as usize]) && self.is_outside(
                &positions[b as usize],
            ) && self.is_outside(&positions[c as usize]);
            if !all_outside {
                let ghost before = kept@;
                kept.push(a);
                kept.push(b);
                kept.push(c);
                assert(kept@ =~= before + indices@.subrange(3 * t as int, 3 * t + 3));
            }
            t = t + 1;
        }
        proof {
            lemma_retained_reach_inside(positions@, indices@, radius, count as nat);
        }
        kept
    }

    /// The clamp of one position.
    pub fn clamp_vertex(&self, p: Vector3) -> (q: Vector3)
        ensures
            q == clamped(p, self.radius() as int),
            !outside(q, self.radius() as int),
    {
        proof {
            use_type_invariant(self);
            lemma_clamped_within_radius(p, self.radius as int);
        }
        if !self.is_outside(&p) {
            return p;
        }
        let d: u64 = ceil_sqrt_u64(p.planar_distance_squared());
        proof {
            lemma_ceil_sqrt_exceeds(p.planar_norm_squared(), self.radius as int);
        }
        Vector3 { x: scale(p.x, self.radius, d), y: scale(p.y, self.radius, d), z: p.z }
    }

    /// The clamp: pulls every position that lies outside the disc back to
    /// it, in place.
    pub fn clamp(&self, positions: &mut Vec<Vector3>)
        ensures
            final(positions)@ == clamped_positions(old(positions)@, self.radius() as int),
            forall|i: int|
                0 <= i < final(positions)@.len() ==> !outside(
                    #[trigger] final(positions)@[i],
                    self.radius() as int,
                ),
    {
        let ghost radius = self.radius() as int;
        let ghost incoming = positions@;
        let mut i: usize = 0;
        while i < positions.len()
            invariant
                radius == self.radius(),
                positions@.len() == incoming.len(),
                i <= positions@.len(),
                forall|j: int|
                    0 <= j < i ==> #[trigger] positions@[j] == clamped(incoming[j], radius),
                forall|j: int|
                    i <= j < positions@.len() ==> #[trigger] positions@[j] == incoming[j],
                forall|j: int| 0 <= j < i ==> !outside(#[trigger] positions@[j], radius),
            decreases positions@.len() - i,
        {
            let q = self.clamp_vertex(positions[i]);
            positions.set(i, q);
            i = i + 1;
        }
        assert(positions@ =~= clamped_positions(incoming, radius));
    }

    /// Clips the mesh: culls on the positions as they are handed in, then
    /// clamps every vertex. Normals and texture coordinates stay as they
    /// are. Afterwards every vertex lies within the disc and every triangle
    /// that is left had a vertex within the disc before the clamp.
    pub fn clip(&self, mesh: Mesh) -> (clipped: Mesh)
        requires
            mesh.well_formed(),
        ensures
            clipped.indices@ == culled_indices(
                mesh.positions@,
                mesh.indices@,
                self.radius() as int,
            ),
            clipped.positions@ == clamped_positions(mesh.positions@, self.radius() as int),
            clipped.normals@ == mesh.normals@,
            clipped.uvs@ == mesh.uvs@,
            clipped.well_formed(),
            forall|i: int|
                0 <= i < clipped.positions@.len() ==> !outside(
                    #[trigger] clipped.positions@[i],
                    self.radius() as int,
                ),
            forall|t: int|
                0 <= t < clipped.indices@.len() / 3 ==> !#[trigger] triangle_outside(
                    mesh.positions@,
                    clipped.indices@,
                    t,
                    self.radius() as int,
                ),
    {
        let indices = self.cull(&mesh.positions, &mesh.indices);
        let mut positions = mesh.positions;
        self.clamp(&mut positions);
        Mesh { positions, normals: mesh.normals, uvs: mesh.uvs, indices }
    }
}

/// Every triangle that the cull keeps has a vertex within the disc, and
/// every index that it keeps is one of the indices that came in.
pub proof fn lemma_retained_reach_inside(
    positions: Seq<Vector3>,
    indices: Seq<u32>,
    radius: int,
    count: nat,
)
    requires
        3 * count <= indices.len(),
    ensures
        retained_indices(positions, indices, radius, count).len() % 3 == 0,
        retained_indices(positions, indices, radius, count).len() <= 3 * count,
        forall|t: int|
            0 <= t < retained_indices(positions, indices, radius, count).len() / 3
                ==> !#[trigger] triangle_outside(
                positions,
                retained_indices(positions, indices, radius, count),
                t,
                radius,
            ),
        forall|i: int|
            0 <= i < retained_indices(positions, indices, radius, count).len()
                ==> indices.contains(
                #[trigger] retained_indices(positions, indices, radius, count)[i],
            ),
    decreases count,
{
    if count > 0 {
        let last = count - 1;
        let before = retained_indices(positions, indices, radius, last as nat);
        let kept = retained_indices(positions, indices, radius, count);
        lemma_retained_reach_inside(positions, indices, radius, last as nat);
        if !triangle_outside(positions, indices, last, radius) {
            let tail = indices.subrange(3 * last, 3 * last + 3);
            assert(kept == before + tail);
            assert forall|t: int| 0 <= t < kept.len() / 3 implies !#[trigger] triangle_outside(
                positions,
                kept,
                t,
                radius,
            ) by {
                if t < before.len() / 3 {
                    assert(!triangle_outside(positions, before, t, radius));
                    assert(kept[3 * t] == before[3 * t]);
                    assert(kept[3 * t + 1] == before[3 * t + 1]);
                    assert(kept[3 * t + 2] == before[3 * t + 2]);
                } else {
                    assert(3 * t == before.len());
                    assert(kept[3 * t] == indices[3 * last]);
                    assert(kept[3 * t + 1] == indices[3 * last + 1]);
                    assert(kept[3 * t + 2] == indices[3 * last + 2]);
                }
            }
            assert forall|i: int| 0 <= i < kept.len() implies indices.contains(
                #[trigger] kept[i],
            ) by {
                if i < before.len() {
                    assert(kept[i] == before[i]);
                } else {
                    assert(kept[i] == indices[3 * last + (i - before.len())]);
                }
            }
        }
    }
}

/// The cull only ever appends: what it keeps of the first `t` triangles is
/// the beginning of what it keeps of the first `count`.
pub proof fn lemma_retained_prefix(
    positions: Seq<Vector3>,
    indices: Seq<u32>,
    radius: int,
    t: nat,
    count: nat,
)
    requires
        t <= count,
    ensures
        retained_indices(positions, indices, radius, t).len() <= retained_indices(
            positions,
            indices,
            radius,
            count,
        ).len(),
        retained_indices(positions, indices, radius, count).subrange(
            0,
            retained_indices(positions, indices, radius, t).len() as int,
        ) == retained_indices(positions, indices, radius, t),
    decreases count,
{
    let head = retained_indices(positions, indices, radius, t);
    let all = retained_indices(positions, indices, radius, count);
    if t < count {
        let last = (count - 1) as nat;
        lemma_retained_prefix(positions, indices, radius, t, last);
        assert(all.subrange(0, head.len() as int) =~= head);
    } else {
        assert(all.subrange(0, head.len() as int) =~= head);
    }
}

/// The cull is complete and keeps the order: a triangle with a vertex within
/// the disc is kept, and its three indices stand right after what is kept of
/// the triangles before it.
pub proof fn lemma_cull_keeps_reaching(
    positions: Seq<Vector3>,
    indices: Seq<u32>,
    radius: int,
    t: int,
    count: nat,
)
    requires
        0 <= t < count,
        3 * count <= indices.len(),
        !triangle_outside(positions, indices, t, radius),
    ensures
        ({
            let kept = retained_indices(positions, indices, radius, count);
            let at = retained_indices(positions, indices, radius, t as nat).len() as int;
            &&& at + 3 <= kept.len()
            &&& kept.subrange(at, at + 3) == indices.subrange(3 * t, 3 * t + 3)
        }),
{
    let kept = retained_indices(positions, indices, radius, count);
    let before = retained_indices(positions, indices, radius, t as nat);
    let with = retained_indices(positions, indices, radius, (t + 1) as nat);
    let triple = indices.subrange(3 * t, 3 * t + 3);
    assert(with == before + triple);
    lemma_retained_prefix(positions, indices, radius, (t + 1) as nat, count);
    assert(kept.subrange(0, with.len() as int) == with);
    let at = before.len() as int;
    assert(kept.subrange(at, at + 3) =~= triple) by {
        assert forall|e: int| 0 <= e < 3 implies kept[at + e] == triple[e] by {
            assert(kept.subrange(0, with.len() as int)[at + e] == with[at + e]);
        }
    }
}

/// Where no vertex lies outside the disc the cull keeps every triangle.
pub proof fn lemma_cull_keeps_inside(
    positions: Seq<Vector3>,
    indices: Seq<u32>,
    radius: int,
    count: nat,
)
    requires
        3 * count <= indices.len(),
        forall|i: int| 0 <= i < indices.len() ==> (#[trigger] indices[i]) < positions.len(),
        forall|i: int| 0 <= i < positions.len() ==> !outside(#[trigger] positions[i], radius),
    ensures
        retained_indices(positions, indices, radius, count) == indices.subrange(
            0,
            3 * count as int,
        ),
    decreases count,
{
    if count > 0 {
        let last = count - 1;
        lemma_cull_keeps_inside(positions, indices, radius, last as nat);
        assert(indices[3 * last] < positions.len());
        assert(!outside(positions[indices[3 * last] as int], radius));
        assert(indices.subrange(0, 3 * last) + indices.subrange(3 * last, 3 * last + 3)
            =~= indices.subrange(0, 3 * count as int));
    } else {
        assert(indices.subrange(0, 0) =~= Seq::<u32>::empty());
    }
}

/// Where every vertex that the indices name lies outside the disc the cull
/// keeps nothing.
pub proof fn lemma_cull_drops_outside(
    positions: Seq<Vector3>,
    indices: Seq<u32>,
    radius: int,
    count: nat,
)
    requires
        3 * count <= indices.len(),
        forall|i: int|
            0 <= i < indices.len() ==> outside(positions[(#[trigger] indices[i]) as int], radius),
    ensures
        retained_indices(positions, indices, radius, count).len() == 0,
    decreases count,
{
    if count > 0 {
        let last = count - 1;
        lemma_cull_drops_outside(positions, indices, radius, last as nat);
        assert(outside(positions[indices[3 * last] as int], radius));
        assert(outside(positions[indices[3 * last + 1] as int], radius));
        assert(outside(positions[indices[3 * last + 2] as int], radius));
    }
}

/// The clamp of a whole sequence changes nothing the second time.
pub proof fn lemma_clamp_positions_idempotent(positions: Seq<Vector3>, radius: int)
    requires
        0 < radius,
    ensures
        clamped_positions(clamped_positions(positions, radius), radius) == clamped_positions(
            positions,
            radius,
        ),
{
    let once = clamped_positions(positions, radius);
    assert forall|i: int| 0 <= i < once.len() implies clamped(once[i], radius) == once[i] by {
        lemma_clamp_idempotent(positions[i], radius);
    }
    assert(clamped_positions(once, radius) =~= once);
}

/// Clipping is idempotent: a mesh that has been clipped at a radius is left
/// as it is by a second clip at the same radius, positions and indices
/// alike.
pub proof fn lemma_clip_idempotent(positions: Seq<Vector3>, indices: Seq<u32>, radius: int)
    requires
        0 < radius,
        indices.len() % 3 == 0,
        forall|i: int| 0 <= i < indices.len() ==> (#[trigger] indices[i]) < positions.len(),
    ensures
        ({
            let once_positions = clamped_positions(positions, radius);
            let once_indices = culled_indices(positions, indices, radius);
            &&& clamped_positions(once_positions, radius) == once_positions
            &&& culled_indices(once_positions, once_indices, radius) == once_indices
        }),
{
    let once_positions = clamped_positions(positions, radius);
    let once_indices = culled_indices(positions, indices, radius);
    lemma_clamp_positions_idempotent(positions, radius);
    lemma_retained_reach_inside(positions, indices, radius, indices.len() / 3);
    assert forall|i: int| 0 <= i < once_positions.len() implies !outside(
        #[trigger] once_positions[i],
        radius,
    ) by {
        lemma_clamped_within_radius(positions[i], radius);
    }
    assert forall|i: int| 0 <= i < once_indices.len() implies (#[trigger] once_indices[i])
        < once_positions.len() by {
        assert(indices.contains(once_indices[i]));
    }
    lemma_cull_keeps_inside(once_positions, once_indices, radius, once_indices.len() / 3);
    assert(once_indices.subrange(0, once_indices.len() as int) =~= once_indices);
}

} // verus!
