//! The mesh: flat parallel sequences of vertex attributes and a list of
//! triangle indices into them.
//!
//! Vertices are kept in the order in which they were generated and are never
//! merged: a point shared by neighbouring triangles appears once for each.
//! All normals are the unit vector along the perpendicular axis, since the
//! patch is flat. A texture coordinate is the vertex position relative to
//! the extent of the whole grid, as a fraction scaled to `UV_ONE`.

use vstd::prelude::*;
use crate::arithmetic::lemma_fraction_monotonic;
use crate::geometry::{Point, Triangle, Vector3};
use crate::grid::{valid_resolution, CELL_SIZE, HALF_CELL};

verus! {

/// The texture coordinate that stands for 1.0.
pub const UV_ONE: u32 = 65536;

/// A texture coordinate: each component a fraction of `UV_ONE`.
#[derive(Clone, Copy, Debug, PartialEq, Eq, Structural)]
pub struct TexCoord {
    pub u: u32,
    pub v: u32,
}

/// A triangle mesh.
#[derive(Clone, Debug, PartialEq, Eq)]
pub struct Mesh {
    /// Vertex positions.
    pub positions: Vec<Vector3>,
    /// Vertex normals, one per position.
    pub normals: Vec<Vector3>,
    /// Texture coordinates, one per position.
    pub uvs: Vec<TexCoord>,
    /// Three indices into the vertex sequences for each triangle, in
    /// counter-clockwise order as seen from the positive perpendicular axis.
    pub indices: Vec<u32>,
}

/// The unit vector along the perpendicular axis.
pub open spec fn unit_normal() -> Vector3 {
    Vector3 { x: 0, y: 0, z: 1 }
}

/// The point of the mesh plane as a position in space.
pub open spec fn lift(p: Point) -> Vector3 {
    Vector3 { x: p.x, y: p.y, z: 0 }
}

/// Whether world coordinate `c` lies within the extent of a grid of `n`
/// cells per axis.
pub open spec fn coordinate_within_extent(c: int, n: int) -> bool {
    -n * HALF_CELL <= c <= n * HALF_CELL
}

/// Whether `p` lies within the extent of a grid of `n` cells per axis.
pub open spec fn within_extent(p: Point, n: int) -> bool {
    coordinate_within_extent(p.x as int, n) && coordinate_within_extent(p.y as int, n)
}

/// The texture coordinate of world coordinate `c` in a grid of `n` cells per
/// axis: 0 on the low border of the grid, `UV_ONE` on the high border,
/// rounded down in between.
pub open spec fn uv_coordinate(c: int, n: int) -> int {
    ((c + n * HALF_CELL) * UV_ONE) / (n * CELL_SIZE)
}

/// The texture coordinate of a position.
pub open spec fn tex_coord(p: Vector3, n: int) -> TexCoord {
    TexCoord { u: uv_coordinate(p.x as int, n) as u32, v: uv_coordinate(p.y as int, n) as u32 }
}

/// The positions of the corners of `triangles`, triangle after triangle.
pub open spec fn flat_positions(triangles: Seq<Triangle>) -> Seq<Vector3> {
    Seq::new(3 * triangles.len(), |j: int| lift(triangles[j / 3].vertex(j % 3)))
}

impl Mesh {
    /// The attribute sequences have one entry per vertex, the indices come
    /// in threes, and every index names a vertex.
    pub open spec fn well_formed(&self) -> bool {
        &&& self.normals@.len() == self.positions@.len()
        &&& self.uvs@.len() == self.positions@.len()
        &&& self.indices@.len() % 3 == 0
        &&& forall|i: int|
            0 <= i < self.indices@.len() ==> (#[trigger] self.indices@[i]) < self.positions@.len()
    }

    /// The mesh is the one assembled from `triangles` for a grid of `n`
    /// cells per axis: three fresh vertices per triangle, in order.
    pub open spec fn assembled_from(&self, triangles: Seq<Triangle>, n: int) -> bool {
        &&& self.positions@ == flat_positions(triangles)
        &&& self.normals@ == Seq::new(3 * triangles.len(), |j: int| unit_normal())
        &&& self.uvs@ == Seq::new(
            3 * triangles.len(),
            |j: int| tex_coord(flat_positions(triangles)[j], n),
        )
        &&& self.indices@ == Seq::new(3 * triangles.len(), |j: int| j as u32)
    }

    /// Number of vertices.
    pub fn vertex_count(&self) -> (count: usize)
        ensures
            count == self.positions@.len(),
    {
        self.positions.len()
    }

    /// Number of triangles.
    pub fn triangle_count(&self) -> (count: usize)
        ensures
            count == self.indices@.len() / 3,
    {
        self.indices.len() / 3
    }

    /// Checks that the mesh is well formed.
    pub fn is_well_formed(&self) -> (ok: bool)
        ensures
            ok == self.well_formed(),
    {
        if self.normals.len() != self.positions.len() || self.uvs.len() != self.positions.len()
            || self.indices.len() % 3 != 0 {
            return false;
        }
        let mut i: usize = 0;
        while i < self.indices.len()
            invariant
                i <= self.indices@.len(),
                forall|j: int| 0 <= j < i ==> (#[trigger] self.indices@[j]) < self.positions@.len(),
            decreases self.indices@.len() - i,
        {
            if self.indices[i] as usize >= self.positions.len() {
                return false;
            }
            i = i + 1;
        }
        true
    }

    /// Assembles the mesh of `triangles` for a grid of `resolution` cells
    /// per axis. Each triangle gets three vertices of its own.
    pub fn from_triangles(triangles: &Vec<Triangle>, resolution: u32) -> (mesh: Mesh)
        requires
            valid_resolution(resolution as int),
            3 * triangles@.len() <= u32::MAX,
            forall|i: int, k: int|
                0 <= i < triangles@.len() && 0 <= k < 3 ==> within_extent(
                    #[trigger] triangles@[i].vertex(k),
                    resolution as int,
                ),
        ensures
            mesh.assembled_from(triangles@, resolution as int),
            mesh.well_formed(),
    {
        let mut positions: Vec<Vector3> = Vec::new();
        let mut normals: Vec<Vector3> = Vec::new();
        let mut uvs: Vec<TexCoord> = Vec::new();
        let mut indices: Vec<u32> = Vec::new();
        let ghost n = resolution as int;
        let mut i: usize = 0;
        while i < triangles.len()
            invariant
                valid_resolution(n),
                n == resolution,
                i <= triangles@.len(),
                3 * triangles@.len() <= u32::MAX,
                forall|i: int, k: int|
                    0 <= i < triangles@.len() && 0 <= k < 3 ==> within_extent(
                        #[trigger] triangles@[i].vertex(k),
                        n,
                    ),
                positions@ == flat_positions(triangles@.take(i as int)),
                normals@ == Seq::new(3 * (i as nat), |j: int| unit_normal()),
                uvs@ == Seq::new(
                    3 * (i as nat),
                    |j: int| tex_coord(flat_positions(triangles@)[j], n),
                ),
                indices@ == Seq::new(3 * (i as nat), |j: int| j as u32),
            decreases triangles@.len() - i,
        {
            let t = triangles[i];
            let base: u32 = (3 * i) as u32;
            proof {
                assert(within_extent(t.vertex(0), n));
                assert(within_extent(t.vertex(1), n));
                assert(within_extent(t.vertex(2), n));
            }
            let ghost before = positions@;
            positions.push(Vector3 { x: t.a.x, y: t.a.y, z: 0 });
            positions.push(Vector3 { x: t.b.x, y: t.b.y, z: 0 });
            positions.push(Vector3 { x: t.c.x, y: t.c.y, z: 0 });
            normals.push(Vector3 { x: 0, y: 0, z: 1 });
            normals.push(Vector3 { x: 0, y: 0, z: 1 });
            normals.push(Vector3 { x: 0, y: 0, z: 1 });
            uvs.push(texture_coordinate(t.a, resolution));
            uvs.push(texture_coordinate(t.b, resolution));
            uvs.push(texture_coordinate(t.c, resolution));
            indices.push(base);
            indices.push(base + 1);
            indices.push(base + 2);
            proof {
                let done = triangles@.take(i as int + 1);
                assert(positions@ =~= flat_positions(done)) by {
                    assert forall|j: int| 0 <= j < 3 * (i + 1) implies positions@[j]
                        == flat_positions(done)[j] by {
                        if j < 3 * i {
                            assert(positions@[j] == before[j]);
                            assert(triangles@.take(i as int)[j / 3] == done[j / 3]);
                        } else {
                            assert(j / 3 == i);
                            assert(done[j / 3] == t);
                        }
                    }
                }
                assert(normals@ =~= Seq::new(3 * ((i + 1) as nat), |j: int| unit_normal()));
                assert(uvs@ =~= Seq::new(
                    3 * ((i + 1) as nat),
                    |j: int| tex_coord(flat_positions(triangles@)[j], n),
                )) by {
                    assert forall|j: int| 3 * i <= j < 3 * (i + 1) implies uvs@[j] == tex_coord(
                        flat_positions(triangles@)[j],
                        n,
                    ) by {
                        assert(j / 3 == i);
                    }
                }
                assert(indices@ =~= Seq::new(3 * ((i + 1) as nat), |j: int| j as u32));
            }
            i = i + 1;
        }
        proof {
            assert(triangles@.take(i as int) =~= triangles@);
        }
        Mesh { positions, normals, uvs, indices }
    }
}

/// Computes the texture coordinate of a point within the extent of the grid.
fn texture_coordinate(p: Point, resolution: u32) -> (uv: TexCoord)
    requires
        valid_resolution(resolution as int),
        within_extent(p, resolution as int),
    ensures
        uv == tex_coord(lift(p), resolution as int),
        uv.u <= UV_ONE,
        uv.v <= UV_ONE,
{
    TexCoord { u: texture_fraction(p.x, resolution), v: texture_fraction(p.y, resolution) }
}

/// Computes one component of the texture coordinate.
fn texture_fraction(c: i32, resolution: u32) -> (f: u32)
    requires
        valid_resolution(resolution as int),
        coordinate_within_extent(c as int, resolution as int),
    ensures
        f == uv_coordinate(c as int, resolution as int),
        f <= UV_ONE,
{
    let n: u64 = resolution as u64;
    let offset: u64 = (c as i64 + (n * 512) as i64) as u64;
    let extent: u64 = n * 1024;
    proof {
        lemma_uv_range(c as int, resolution as int);
    }
    ((offset * 65536) / extent) as u32
}

/// Texture coordinates of points within the extent of the grid lie between
/// 0 and `UV_ONE`.
pub proof fn lemma_uv_range(c: int, n: int)
    requires
        n > 0,
        coordinate_within_extent(c, n),
    ensures
        0 <= uv_coordinate(c, n) <= UV_ONE,
{
    let offset = c + n * 512;
    let extent = n * 1024;
    lemma_fraction_monotonic(0, 1, offset, extent, 65536);
    lemma_fraction_monotonic(offset, extent, 1, 1, 65536);
}

} // verus!
