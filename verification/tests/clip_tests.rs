use marching_squares::clip::RadialClipper;
use marching_squares::error::MeshError;
use marching_squares::geometry::Vector3;
use marching_squares::grid::GridBuilder;
use marching_squares::mesh::{Mesh, TexCoord};
use marching_squares::triangulate::MarchingSquaresTriangulator;

fn v(x: i32, y: i32, z: i32) -> Vector3 {
    Vector3 { x, y, z }
}

fn clipper(radius: i32) -> RadialClipper {
    RadialClipper::new(radius).unwrap()
}

fn mesh_of(positions: Vec<Vector3>, indices: Vec<u32>) -> Mesh {
    let count = positions.len();
    Mesh {
        positions,
        normals: vec![v(0, 0, 1); count],
        uvs: (0..count as u32).map(|i| TexCoord { u: i, v: 2 * i }).collect(),
        indices,
    }
}

fn norm_squared(p: &Vector3) -> i64 {
    (p.x as i64) * (p.x as i64) + (p.y as i64) * (p.y as i64)
}

fn terrain(resolution: u32) -> Mesh {
    let grid = GridBuilder { resolution, sampling_scale: 368, depth: 0 }.build().unwrap();
    MarchingSquaresTriangulator { threshold: 0, interpolated: true }.triangulate(&grid)
}

#[test]
fn radius_must_be_positive() {
    assert_eq!(RadialClipper::new(0), Err(MeshError::InvalidRadius));
    assert_eq!(RadialClipper::new(-1), Err(MeshError::InvalidRadius));
    assert_eq!(RadialClipper::new(i32::MIN), Err(MeshError::InvalidRadius));
    assert_eq!(RadialClipper::new(1).unwrap().radius(), 1);
    assert_eq!(RadialClipper::new(i32::MAX).unwrap().radius(), i32::MAX);
}

#[test]
fn points_on_the_circle_are_inside() {
    let c = clipper(5);
    assert!(!c.is_outside(&v(3, 4, 0)));
    assert!(!c.is_outside(&v(5, 0, 99)));
    assert!(!c.is_outside(&v(0, 0, 0)));
    assert!(c.is_outside(&v(4, 4, 0)));
    assert!(c.is_outside(&v(-6, 0, 0)));
    assert!(c.is_outside(&v(i32::MIN, i32::MIN, 0)));
    assert!(!clipper(i32::MAX).is_outside(&v(i32::MAX, 0, 0)));
}

#[test]
fn clamp_scales_onto_the_circle() {
    let c = clipper(1000);
    assert_eq!(c.clamp_vertex(v(3000, 4000, 0)), v(600, 800, 0));
    assert_eq!(c.clamp_vertex(v(-3000, 4000, 5)), v(-600, 800, 5));
    assert_eq!(c.clamp_vertex(v(1000, 1000, 0)), v(706, 706, 0));
    assert_eq!(clipper(3).clamp_vertex(v(0, -7, 2)), v(0, -3, 2));
    assert_eq!(clipper(5).clamp_vertex(v(6, 0, 0)), v(5, 0, 0));
}

#[test]
fn clamp_leaves_inside_vertices_alone() {
    let c = clipper(1000);
    for p in [v(0, 0, 0), v(600, 800, 3), v(-1000, 0, -3), v(707, 707, 0), v(1, -999, 0)] {
        assert_eq!(c.clamp_vertex(p), p);
    }
    assert_eq!(clipper(5).clamp_vertex(v(5, 0, 0)), v(5, 0, 0));
}

#[test]
fn clamp_handles_the_ends_of_the_coordinate_range() {
    assert_eq!(clipper(1).clamp_vertex(v(i32::MAX, i32::MIN, 0)), v(0, 0, 0));
    assert_eq!(clipper(1).clamp_vertex(v(1, 1, 0)), v(0, 0, 0));
    assert_eq!(
        clipper(i32::MAX).clamp_vertex(v(i32::MAX, i32::MAX, 0)),
        v(1_518_500_249, 1_518_500_249, 0)
    );
    assert_eq!(
        clipper(i32::MAX).clamp_vertex(v(i32::MIN, i32::MIN, 7)),
        v(-1_518_500_249, -1_518_500_249, 7)
    );
}

#[test]
fn clamped_vertices_lie_within_and_next_to_the_circle() {
    for radius in [1, 2, 3, 10, 97, 1000, 30_000] {
        let c = clipper(radius);
        let r = radius as i64;
        for x in (-40_000..=40_000).step_by(2511) {
            for y in (-40_000..=40_000).step_by(3577) {
                let p = v(x, y, 11);
                let q = c.clamp_vertex(p);
                assert!(norm_squared(&q) <= r * r);
                assert_eq!(q.z, 11);
                if c.is_outside(&p) {
                    let (mx, my) = (q.x.abs() as i64, q.y.abs() as i64);
                    assert!((mx + 1) * (mx + 1) + (my + 1) * (my + 1) > (r - 1) * (r - 1));
                    assert!(q.x.signum() * p.x.signum() >= 0 && q.x.abs() <= p.x.abs());
                    assert!(q.y.signum() * p.y.signum() >= 0 && q.y.abs() <= p.y.abs());
                } else {
                    assert_eq!(q, p);
                }
            }
        }
    }
}

#[test]
fn clamp_is_idempotent() {
    let c = clipper(777);
    for x in (-5000..=5000).step_by(313) {
        for y in (-5000..=5000).step_by(271) {
            let once = c.clamp_vertex(v(x, y, 0));
            assert_eq!(c.clamp_vertex(once), once);
        }
    }
    let mut positions = vec![v(3000, 4000, 0), v(10, 10, 0), v(-1000, -1000, 4)];
    c.clamp(&mut positions);
    let once = positions.clone();
    c.clamp(&mut positions);
    assert_eq!(positions, once);
}

#[test]
fn clamp_rewrites_every_position_in_place() {
    let mut positions = vec![v(3000, 4000, 0), v(10, 10, 0), v(-3000, -4000, 4), v(0, 5000, 0)];
    clipper(1000).clamp(&mut positions);
    assert_eq!(positions, vec![v(600, 800, 0), v(10, 10, 0), v(-600, -800, 4), v(0, 1000, 0)]);
}

#[test]
fn cull_drops_triangles_wholly_outside() {
    let positions = vec![
        v(0, 0, 0),       // 0 inside
        v(2000, 0, 0),    // 1 outside
        v(0, 2000, 0),    // 2 outside
        v(2000, 2000, 0), // 3 outside
        v(500, 500, 0),   // 4 inside
        v(-3000, 0, 0),   // 5 outside
    ];
    let indices = vec![
        1, 2, 3, // all outside: dropped
        0, 1, 2, // one inside: kept
        5, 3, 1, // all outside: dropped
        4, 0, 4, // all inside: kept
        3, 5, 4, // one inside: kept
    ];
    let kept = clipper(1000).cull(&positions, &indices);
    assert_eq!(kept, vec![0, 1, 2, 4, 0, 4, 3, 5, 4]);
}

#[test]
fn cull_of_nothing_is_nothing() {
    assert!(clipper(10).cull(&Vec::new(), &Vec::new()).is_empty());
    let positions = vec![v(100, 0, 0), v(0, 100, 0), v(100, 100, 0)];
    assert!(clipper(10).cull(&positions, &vec![0, 1, 2]).is_empty());
}

#[test]
fn cull_decides_on_positions_before_the_clamp() {
    // The triangle lies wholly outside. Were its vertices clamped first they
    // would sit on the circle and the triangle would stay.
    let mesh = mesh_of(vec![v(2000, 0, 0), v(0, 2000, 0), v(2000, 2000, 0)], vec![0, 1, 2]);
    let clipped = clipper(1000).clip(mesh);
    assert!(clipped.indices.is_empty());
    assert_eq!(clipped.positions, vec![v(1000, 0, 0), v(0, 1000, 0), v(706, 706, 0)]);
}

#[test]
fn clip_clamps_vertices_of_partly_outside_triangles() {
    let mesh = mesh_of(
        vec![v(0, 0, 0), v(3000, 4000, 0), v(-3000, 4000, 0), v(6000, 8000, 0)],
        vec![0, 1, 2, 1, 3, 2],
    );
    let before = mesh.clone();
    let clipped = clipper(1000).clip(mesh);
    assert_eq!(clipped.indices, vec![0, 1, 2]);
    assert_eq!(
        clipped.positions,
        vec![v(0, 0, 0), v(600, 800, 0), v(-600, 800, 0), v(600, 800, 0)]
    );
    assert_eq!(clipped.normals, before.normals);
    assert_eq!(clipped.uvs, before.uvs);
    assert!(clipped.is_well_formed());
}

#[test]
fn clipped_terrain_lies_within_the_radius() {
    let mesh = terrain(10);
    assert_eq!(mesh.triangle_count(), 85);
    let radius = 3000;
    let clipped = clipper(radius).clip(mesh);
    assert_eq!(clipped.triangle_count(), 35);
    assert_eq!(clipped.vertex_count(), 255);
    for p in clipped.positions.iter() {
        assert!(norm_squared(p) <= (radius as i64) * (radius as i64));
    }
}

#[test]
fn retained_triangles_reach_inside_the_radius() {
    let mesh = terrain(10);
    let unclamped = mesh.positions.clone();
    let radius = 3000i64;
    let clipped = clipper(radius as i32).clip(mesh);
    for t in clipped.indices.chunks(3) {
        let reaches = t.iter().any(|&i| norm_squared(&unclamped[i as usize]) <= radius * radius);
        assert!(reaches);
    }
    // and every triangle that reaches inside was kept
    let expected = (0..unclamped.len() / 3)
        .filter(|t| (0..3).any(|k| norm_squared(&unclamped[3 * t + k]) <= radius * radius))
        .count();
    assert_eq!(clipped.triangle_count(), expected);
}

#[test]
fn clipping_twice_changes_nothing() {
    for radius in [600, 1500, 3000, 100_000] {
        let once = clipper(radius).clip(terrain(8));
        let twice = clipper(radius).clip(once.clone());
        assert_eq!(twice, once);
    }
}

#[test]
fn clip_with_a_radius_beyond_the_grid_changes_nothing() {
    let mesh = terrain(6);
    let clipped = clipper(1_000_000).clip(mesh.clone());
    assert_eq!(clipped, mesh);
}
