//! One recompute: from the parameters of a patch to its finished mesh.
//!
//! The stages run in order and to completion: the grid is sampled, the
//! cells are triangulated against the midline of the field, the mesh is
//! clipped to the disc, and the overlay is extracted from the clipped mesh
//! if it is wanted. Nothing is kept between two recomputes. A request with
//! an invalid parameter fails before any stage has run.

use vstd::prelude::*;
use crate::clip::{clamped_positions, culled_indices, triangle_outside, RadialClipper};
use crate::error::MeshError;
use crate::field::FIELD_MIDLINE;
use crate::geometry::{Triangle, Vector3};
use crate::grid::{GridBuilder, MAX_RESOLUTION, MIN_RESOLUTION};
use crate::mesh::{flat_positions, tex_coord, unit_normal, Mesh};
use crate::radial::outside;
use crate::triangulate::MarchingSquaresTriangulator;
use crate::wireframe::{wireframe_segments, Segment, WireframeExtractor};

verus! {

/// What the caller chooses for one recompute.
#[derive(Clone, Copy, Debug, PartialEq, Eq)]
pub struct PatchParams {
    /// Cells per axis; at least `MIN_RESOLUTION` and at most `MAX_RESOLUTION`.
    pub resolution: u32,
    /// The slice of the field; freely animatable.
    pub depth: i64,
    /// Interpolated placement of boundary vertices, else midpoint placement.
    pub interpolated: bool,
    /// Sampling units per grid step: the zoom of the field pattern.
    pub sampling_scale: u32,
    /// Radius of the disc that the patch is clipped to; positive.
    pub radius: i32,
    /// Whether the wireframe overlay is wanted.
    pub wireframe_enabled: bool,
}

/// What one recompute hands back.
#[derive(Clone, Debug, PartialEq, Eq)]
pub struct Patch {
    /// The mesh: it replaces whatever mesh the instance had.
    pub mesh: Mesh,
    /// The overlay where it is wanted; `None` tells the caller to clear the
    /// overlay it shows.
    pub wireframe: Option<Vec<Segment>>,
}

impl PatchParams {
    /// The grid builder of these parameters.
    pub open spec fn builder(&self) -> GridBuilder {
        GridBuilder {
            resolution: self.resolution,
            sampling_scale: self.sampling_scale,
            depth: self.depth,
        }
    }

    /// The triangulator of these parameters: its threshold is the midline of
    /// the field.
    pub open spec fn triangulator(&self) -> MarchingSquaresTriangulator {
        MarchingSquaresTriangulator { threshold: FIELD_MIDLINE, interpolated: self.interpolated }
    }

    /// The triangles of the patch before it is clipped.
    pub open spec fn triangles(&self) -> Seq<Triangle> {
        self.triangulator().triangles_of_grid(self.builder().grid())
    }

    /// The vertex positions of the patch before it is clipped.
    pub open spec fn unclipped_positions(&self) -> Seq<Vector3> {
        flat_positions(self.triangles())
    }

    /// The triangle indices of the patch before it is clipped.
    pub open spec fn unclipped_indices(&self) -> Seq<u32> {
        Seq::new(3 * self.triangles().len(), |j: int| j as u32)
    }

    /// Whether `patch` is the patch of these parameters.
    pub open spec fn yields(&self, patch: Patch) -> bool {
        let radius = self.radius as int;
        let n = self.resolution as int;
        &&& patch.mesh.positions@ == clamped_positions(self.unclipped_positions(), radius)
        &&& patch.mesh.indices@ == culled_indices(
            self.unclipped_positions(),
            self.unclipped_indices(),
            radius,
        )
        &&& patch.mesh.normals@ == Seq::new(
            self.unclipped_positions().len(),
            |j: int| unit_normal(),
        )
        &&& patch.mesh.uvs@ == Seq::new(
            self.unclipped_positions().len(),
            |j: int| tex_coord(self.unclipped_positions()[j], n),
        )
        &&& patch.wireframe is Some <==> self.wireframe_enabled
        &&& patch.wireframe matches Some(segments) ==> segments@ == wireframe_segments(
            patch.mesh.positions@,
            patch.mesh.indices@,
        )
    }
}

/// Computes the patch of `params` from scratch. A resolution below
/// `MIN_RESOLUTION` is turned down with `InvalidResolution`, a radius that is
/// not positive with `InvalidRadius` (the resolution is looked at first);
/// otherwise the patch is returned, its mesh well formed and within the
/// disc, and each of its triangles with a vertex that lay within the disc
/// before the clamp. Resolutions beyond `MAX_RESOLUTION` are not supported: the caller
/// keeps to that limit.
pub fn generate(params: &PatchParams) -> (result: Result<Patch, MeshError>)
    requires
        params.resolution <= MAX_RESOLUTION,
    ensures
        result is Ok <==> params.resolution >= MIN_RESOLUTION && params.radius > 0,
        result matches Ok(patch) ==> {
            &&& params.yields(patch)
            &&& patch.mesh.well_formed()
            &&& forall|i: int|
                0 <= i < patch.mesh.positions@.len() ==> !outside(
                    #[trigger] patch.mesh.positions@[i],
                    params.radius as int,
                )
            &&& forall|t: int|
                0 <= t < patch.mesh.indices@.len() / 3 ==> !#[trigger] triangle_outside(
                    params.unclipped_positions(),
                    patch.mesh.indices@,
                    t,
                    params.radius as int,
                )
        },
        result matches Err(e) ==> e == (if params.resolution < MIN_RESOLUTION {
            MeshError::InvalidResolution
        } else {
            MeshError::InvalidRadius
        }),
{
    if params.resolution < MIN_RESOLUTION {
        return Err(MeshError::InvalidResolution);
    }
    let clipper = match RadialClipper::new(params.radius) {
        Ok(clipper) => clipper,
        Err(e) => {
            return Err(e);
        },
    };
    let builder = GridBuilder {
        resolution: params.resolution,
        sampling_scale: params.sampling_scale,
        depth: params.depth,
    };
    let grid = match builder.build() {
        Ok(grid) => grid,
        Err(e) => {
            return Err(e);
        },
    };
    let triangulator = MarchingSquaresTriangulator {
        threshold: FIELD_MIDLINE,
        interpolated: params.interpolated,
    };
    let mesh = clipper.clip(triangulator.triangulate(&grid));
    let extractor = WireframeExtractor { enabled: params.wireframe_enabled };
    let wireframe = extractor.extract(&mesh);
    Ok(Patch { mesh, wireframe })
}

} // verus!
