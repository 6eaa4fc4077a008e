use marching_squares::clip::RadialClipper;
use marching_squares::error::MeshError;
use marching_squares::geometry::Vector3;
use marching_squares::grid::GridBuilder;
use marching_squares::patch::{generate, PatchParams};
use marching_squares::triangulate::MarchingSquaresTriangulator;
use marching_squares::wireframe::{Segment, WireframeExtractor};

fn params(resolution: u32, interpolated: bool, radius: i32, wireframe_enabled: bool) -> PatchParams {
    PatchParams { resolution, depth: 0, interpolated, sampling_scale: 368, radius, wireframe_enabled }
}

fn v(x: i32, y: i32, z: i32) -> Vector3 {
    Vector3 { x, y, z }
}

fn norm_squared(p: &Vector3) -> i64 {
    (p.x as i64) * (p.x as i64) + (p.y as i64) * (p.y as i64)
}

#[test]
fn invalid_resolution_is_reported() {
    for resolution in 0..3 {
        assert_eq!(generate(&params(resolution, true, 1000, false)), Err(MeshError::InvalidResolution));
    }
}

#[test]
fn invalid_radius_is_reported() {
    assert_eq!(generate(&params(4, true, 0, false)), Err(MeshError::InvalidRadius));
    assert_eq!(generate(&params(4, false, -300, true)), Err(MeshError::InvalidRadius));
}

#[test]
fn resolution_is_checked_before_radius() {
    assert_eq!(generate(&params(2, true, 0, false)), Err(MeshError::InvalidResolution));
}

#[test]
fn error_descriptions_name_the_fault() {
    assert_eq!(MeshError::InvalidResolution.describe(), "grid resolution is below the minimum of 3");
    assert_eq!(MeshError::InvalidRadius.describe(), "clipping radius must be positive");
}

#[test]
fn patch_is_the_stages_run_in_order() {
    let p = params(10, true, 3000, true);
    let patch = generate(&p).unwrap();
    let grid = GridBuilder { resolution: 10, sampling_scale: 368, depth: 0 }.build().unwrap();
    let mesh = MarchingSquaresTriangulator { threshold: 0, interpolated: true }.triangulate(&grid);
    let clipped = RadialClipper::new(3000).unwrap().clip(mesh);
    let overlay = WireframeExtractor { enabled: true }.extract(&clipped);
    assert_eq!(patch.mesh, clipped);
    assert_eq!(patch.wireframe, overlay);
}

#[test]
fn patch_of_a_small_grid() {
    let patch = generate(&params(4, true, 1500, true)).unwrap();
    assert!(patch.mesh.is_well_formed());
    assert_eq!(patch.mesh.triangle_count(), 11);
    assert_eq!(patch.mesh.indices, (0..33).collect::<Vec<u32>>());
    assert_eq!(
        &patch.mesh.positions[..9],
        &[
            v(0, -1024, 0),
            v(-1024, -1024, 0),
            v(-670, -1341, 0),
            v(0, -1500, 0),
            v(-1024, -1024, 0),
            v(-225, -1482, 0),
            v(0, -1024, 0),
            v(0, -1500, 0),
            v(875, -1024, 0),
        ]
    );
    let overlay = patch.wireframe.unwrap();
    assert_eq!(overlay.len(), 33);
    assert_eq!(overlay[0], Segment { start: v(0, -1024, 1), end: v(-1024, -1024, 1) });
    assert_eq!(overlay[1], Segment { start: v(-1024, -1024, 1), end: v(-670, -1341, 1) });
    assert_eq!(overlay[2], Segment { start: v(-670, -1341, 1), end: v(0, -1024, 1) });
}

#[test]
fn patch_clipped_to_a_radius_smaller_than_the_grid() {
    // the grid reaches 2048 from the origin, the disc 600
    let patch = generate(&params(4, true, 600, false)).unwrap();
    assert_eq!(patch.mesh.indices, vec![9, 10, 11, 12, 13, 14, 18, 19, 20, 21, 22, 23]);
    assert_eq!(patch.mesh.vertex_count(), 33);
    for p in patch.mesh.positions.iter() {
        assert!(norm_squared(p) <= 600 * 600);
    }
    assert_eq!(patch.mesh.positions[0], v(0, -600, 0));
    assert_eq!(patch.mesh.positions[1], v(-424, -424, 0));
    assert_eq!(patch.mesh.positions[32], v(110, 589, 0));
}

#[test]
fn toggling_interpolation_keeps_the_shape_of_the_patch() {
    let smooth = generate(&params(10, true, 100_000, false)).unwrap();
    let blocky = generate(&params(10, false, 100_000, false)).unwrap();
    assert_eq!(smooth.mesh.triangle_count(), blocky.mesh.triangle_count());
    assert_eq!(smooth.mesh.indices, blocky.mesh.indices);
    assert_ne!(smooth.mesh.positions, blocky.mesh.positions);
}

#[test]
fn switching_the_wireframe_off_clears_the_overlay() {
    let on = generate(&params(10, true, 3000, true)).unwrap();
    let segments = on.wireframe.unwrap();
    assert_eq!(segments.len(), 105);
    let off = generate(&params(10, true, 3000, false)).unwrap();
    assert_eq!(off.wireframe, None);
    assert_eq!(off.mesh, on.mesh);
}

#[test]
fn depth_animates_the_patch() {
    let still = generate(&params(10, false, 3000, false)).unwrap();
    let mut moved = params(10, false, 3000, false);
    moved.depth = 700;
    let later = generate(&moved).unwrap();
    assert_eq!(later.mesh.vertex_count(), 225);
    assert_eq!(later.mesh.triangle_count(), 29);
    assert_ne!(later.mesh, still.mesh);
}

#[test]
fn recompute_is_repeatable() {
    let p = params(7, true, 2500, true);
    assert_eq!(generate(&p), generate(&p));
}

#[test]
fn layered_patches_share_parameters_but_not_radius() {
    let outer = generate(&params(10, true, 4800, false)).unwrap();
    let inner = generate(&params(10, true, 2240, false)).unwrap();
    assert_eq!(outer.mesh.vertex_count(), inner.mesh.vertex_count());
    assert!(inner.mesh.triangle_count() <= outer.mesh.triangle_count());
    for p in inner.mesh.positions.iter() {
        assert!(norm_squared(p) <= 2240 * 2240);
    }
}

#[test]
fn crate_root_offers_the_main_items() {
    let p = marching_squares::PatchParams {
        resolution: 3,
        depth: 100,
        interpolated: true,
        sampling_scale: 500,
        radius: 1000,
        wireframe_enabled: false,
    };
    let patch = marching_squares::generate(&p).unwrap();
    assert_eq!(patch.mesh.vertex_count(), 24);
    assert_eq!(patch.mesh.triangle_count(), 8);
    assert_eq!(marching_squares::FieldSampler::sample(100, 200, 300), 1300);
    assert_eq!(
        marching_squares::RadialClipper::new(-1),
        Err(marching_squares::MeshError::InvalidRadius)
    );
}
