use marching_squares::geometry::{Point, Triangle, Vector3};
use marching_squares::grid::{Grid, GridBuilder, GridCell};
use marching_squares::mesh::{Mesh, TexCoord, UV_ONE};
use marching_squares::triangulate::MarchingSquaresTriangulator;

fn pt(x: i32, y: i32) -> Point {
    Point { x, y }
}

fn tri(a: (i32, i32), b: (i32, i32), c: (i32, i32)) -> Triangle {
    Triangle { a: pt(a.0, a.1), b: pt(b.0, b.1), c: pt(c.0, c.1) }
}

fn triangulator(interpolated: bool) -> MarchingSquaresTriangulator {
    MarchingSquaresTriangulator { threshold: 0, interpolated }
}

fn unit_cell(values: [i32; 4]) -> GridCell {
    GridCell {
        row: 0,
        col: 0,
        corners: [pt(0, 0), pt(1024, 0), pt(1024, 1024), pt(0, 1024)],
        values,
    }
}

fn doubled_area(t: &Triangle) -> i64 {
    let (ax, ay) = (t.a.x as i64, t.a.y as i64);
    let (bx, by) = (t.b.x as i64, t.b.y as i64);
    let (cx, cy) = (t.c.x as i64, t.c.y as i64);
    (bx - ax) * (cy - ay) - (by - ay) * (cx - ax)
}

fn sample_grid() -> Grid {
    GridBuilder { resolution: 4, sampling_scale: 368, depth: 0 }.build().unwrap()
}

#[test]
fn cells_on_one_side_of_the_threshold_yield_nothing() {
    for interpolated in [false, true] {
        let t = triangulator(interpolated);
        assert!(t.triangulate_cell(&unit_cell([-5, -1, -900, -2048])).is_empty());
        assert!(t.triangulate_cell(&unit_cell([5, 1, 900, 2048])).is_empty());
        assert!(t.triangulate_cell(&unit_cell([0, 0, 0, 0])).is_empty());
    }
}

#[test]
fn every_mixed_case_yields_one_or_two_wound_triangles_inside_the_cell() {
    let magnitudes = [1, 7, 300, 2048];
    for case in 1..15u32 {
        for &high in magnitudes.iter() {
            for &low in magnitudes.iter() {
                let mut values = [0i32; 4];
                for k in 0..4 {
                    values[k] = if case & (1 << k) != 0 { high - 1 } else { -low };
                }
                let cell = unit_cell(values);
                for interpolated in [false, true] {
                    let triangles = triangulator(interpolated).triangulate_cell(&cell);
                    assert!(triangles.len() == 1 || triangles.len() == 2);
                    let mut total = 0i64;
                    for t in triangles.iter() {
                        assert!(doubled_area(t) >= 0, "case {} triangle {:?}", case, t);
                        total += doubled_area(t);
                        for p in [t.a, t.b, t.c] {
                            assert!(0 <= p.x && p.x <= 1024 && 0 <= p.y && p.y <= 1024);
                        }
                    }
                    assert!(total >= 0);
                }
            }
        }
    }
}

#[test]
fn single_corner_cell_in_both_placements() {
    let cell = unit_cell([3, -1, -9, -1]);
    assert_eq!(
        triangulator(false).triangulate_cell(&cell),
        vec![tri((0, 0), (512, 0), (0, 512))]
    );
    // south edge: 3 / 4 of the way from west; west edge: 3 / 4 of the way
    // from south
    assert_eq!(
        triangulator(true).triangulate_cell(&cell),
        vec![tri((0, 0), (768, 0), (0, 768))]
    );
}

#[test]
fn neighbouring_pair_cell_is_a_quadrilateral() {
    let cell = unit_cell([1, 3, -1, -1]);
    assert_eq!(
        triangulator(true).triangulate_cell(&cell),
        vec![
            tri((0, 0), (1024, 0), (1024, 768)),
            tri((0, 0), (1024, 768), (0, 512)),
        ]
    );
    let triangles = triangulator(false).triangulate_cell(&cell);
    let area: i64 = triangles.iter().map(doubled_area).sum();
    assert_eq!(area, 1024 * 1024);
}

#[test]
fn opposite_pair_cell_is_two_corner_triangles() {
    let cell = unit_cell([1, -1, 1, -1]);
    assert_eq!(
        triangulator(false).triangulate_cell(&cell),
        vec![
            tri((0, 0), (512, 0), (0, 512)),
            tri((1024, 1024), (512, 1024), (1024, 512)),
        ]
    );
}

#[test]
fn three_corner_cell_spans_the_corners_and_the_boundary() {
    // the south-west corner alone is outside
    let cell = unit_cell([-1, 1, 1, 1]);
    assert_eq!(
        triangulator(false).triangulate_cell(&cell),
        vec![
            tri((1024, 0), (1024, 1024), (0, 1024)),
            tri((512, 0), (1024, 1024), (0, 512)),
        ]
    );
    let cell = unit_cell([-1, 3, 1, 1]);
    assert_eq!(
        triangulator(true).triangulate_cell(&cell),
        vec![
            tri((1024, 0), (1024, 1024), (0, 1024)),
            tri((256, 0), (1024, 1024), (0, 512)),
        ]
    );
}

#[test]
fn triangles_of_a_sampled_grid_with_interpolation() {
    let triangles = triangulator(true).triangles(&sample_grid());
    assert_eq!(
        triangles,
        vec![
            tri((0, -1024), (-1024, -1024), (-1024, -2048)),
            tri((0, -1900), (-1024, -1024), (-311, -2048)),
            tri((0, -1024), (0, -1900), (875, -1024)),
            tri((1024, 0), (0, 0), (0, -1024)),
            tri((1024, -237), (0, 0), (875, -1024)),
            tri((1024, 0), (1024, -237), (1068, 0)),
            tri((0, 1024), (0, 0), (1024, 0)),
            tri((727, 1024), (0, 0), (1024, 133)),
            tri((1024, 0), (1068, 0), (1024, 133)),
            tri((0, 2048), (0, 1024), (727, 1024)),
            tri((0, 2048), (727, 1024), (385, 2048)),
        ]
    );
}

#[test]
fn triangles_of_a_sampled_grid_with_midpoints() {
    let triangles = triangulator(false).triangles(&sample_grid());
    assert_eq!(
        triangles,
        vec![
            tri((0, -1024), (-1024, -1024), (-1024, -2048)),
            tri((0, -1536), (-1024, -1024), (-512, -2048)),
            tri((0, -1024), (0, -1536), (512, -1024)),
            tri((1024, 0), (0, 0), (0, -1024)),
            tri((1024, -512), (0, 0), (512, -1024)),
            tri((1024, 0), (1024, -512), (1536, 0)),
            tri((0, 1024), (0, 0), (1024, 0)),
            tri((512, 1024), (0, 0), (1024, 512)),
            tri((1024, 0), (1536, 0), (1024, 512)),
            tri((0, 2048), (0, 1024), (512, 1024)),
            tri((0, 2048), (512, 1024), (512, 2048)),
        ]
    );
}

#[test]
fn constant_field_above_threshold_yields_no_triangles() {
    // Every cell has all four corners inside, and such a cell contributes
    // nothing: only cells that the boundary crosses are meshed.
    let grid = Grid::from_samples(4, vec![100; 25]).unwrap();
    for interpolated in [false, true] {
        let mesh = triangulator(interpolated).triangulate(&grid);
        assert_eq!(mesh.triangle_count(), 0);
        assert_eq!(mesh.vertex_count(), 0);
        assert!(mesh.is_well_formed());
    }
    let below = Grid::from_samples(4, vec![-100; 25]).unwrap();
    assert_eq!(triangulator(true).triangulate(&below).triangle_count(), 0);
}

#[test]
fn toggling_interpolation_moves_boundary_vertices_only() {
    let grid = GridBuilder { resolution: 10, sampling_scale: 368, depth: 0 }.build().unwrap();
    let smooth = triangulator(true);
    let blocky = triangulator(false);
    let mut moved = false;
    for cell in grid.cells() {
        let a = smooth.triangulate_cell(&cell);
        let b = blocky.triangulate_cell(&cell);
        assert_eq!(a.len(), b.len());
        moved = moved || a != b;
    }
    assert!(moved);
    let smooth_mesh = smooth.triangulate(&grid);
    let blocky_mesh = blocky.triangulate(&grid);
    assert_eq!(smooth_mesh.triangle_count(), 85);
    assert_eq!(blocky_mesh.triangle_count(), 85);
    assert_eq!(smooth_mesh.indices, blocky_mesh.indices);
    assert_eq!(smooth_mesh.normals, blocky_mesh.normals);
    assert_ne!(smooth_mesh.positions, blocky_mesh.positions);
}

#[test]
fn midpoint_vertices_of_a_grid_sit_on_half_cells() {
    let grid = GridBuilder { resolution: 9, sampling_scale: 500, depth: 40 }.build().unwrap();
    let triangles = triangulator(false).triangles(&grid);
    assert!(!triangles.is_empty());
    for t in triangles.iter() {
        for p in [t.a, t.b, t.c] {
            assert_eq!(p.x.rem_euclid(512), 0);
            assert_eq!(p.y.rem_euclid(512), 0);
        }
    }
}

#[test]
fn neighbouring_cells_agree_on_shared_boundary_vertices() {
    let grid = GridBuilder { resolution: 12, sampling_scale: 291, depth: 1234 }.build().unwrap();
    for interpolated in [false, true] {
        let t = triangulator(interpolated);
        for row in 0..12u32 {
            for col in 0..12u32 {
                let cell = grid.cell(row, col);
                if col + 1 < 12 {
                    let east = grid.cell(row, col + 1);
                    assert_eq!(t.boundary_vertex(&cell, 1), t.boundary_vertex(&east, 3));
                }
                if row + 1 < 12 {
                    let north = grid.cell(row + 1, col);
                    assert_eq!(t.boundary_vertex(&cell, 2), t.boundary_vertex(&north, 0));
                }
            }
        }
    }
}

#[test]
fn mesh_gives_each_triangle_three_vertices_of_its_own() {
    let mesh = triangulator(true).triangulate(&sample_grid());
    assert!(mesh.is_well_formed());
    assert_eq!(mesh.triangle_count(), 11);
    assert_eq!(mesh.vertex_count(), 33);
    assert_eq!(mesh.indices, (0..33).collect::<Vec<u32>>());
    assert_eq!(mesh.positions[0], Vector3 { x: 0, y: -1024, z: 0 });
    assert_eq!(mesh.positions[1], Vector3 { x: -1024, y: -1024, z: 0 });
    assert_eq!(mesh.positions[2], Vector3 { x: -1024, y: -2048, z: 0 });
    assert_eq!(mesh.positions[5], Vector3 { x: -311, y: -2048, z: 0 });
    assert!(mesh.positions.iter().all(|p| p.z == 0));
}

#[test]
fn normals_all_point_along_the_perpendicular_axis() {
    let mesh = triangulator(false).triangulate(&sample_grid());
    assert_eq!(mesh.normals.len(), mesh.positions.len());
    assert!(mesh.normals.iter().all(|n| *n == Vector3 { x: 0, y: 0, z: 1 }));
}

#[test]
fn texture_coordinates_are_positions_within_the_grid_extent() {
    let mesh = triangulator(true).triangulate(&sample_grid());
    assert_eq!(mesh.uvs.len(), mesh.positions.len());
    assert_eq!(mesh.uvs[0], TexCoord { u: 32768, v: 16384 });
    assert_eq!(mesh.uvs[1], TexCoord { u: 16384, v: 16384 });
    assert_eq!(mesh.uvs[2], TexCoord { u: 16384, v: 0 });
    assert_eq!(mesh.uvs[3], TexCoord { u: 32768, v: 2368 });
    assert_eq!(mesh.uvs[5], TexCoord { u: 27792, v: 0 });
    for uv in mesh.uvs.iter() {
        assert!(uv.u <= UV_ONE && uv.v <= UV_ONE);
    }
}

#[test]
fn mesh_from_triangles_spans_the_texture_range() {
    let triangles = vec![tri((-1536, -1536), (1536, -1536), (1536, 1536))];
    let mesh = Mesh::from_triangles(&triangles, 3);
    assert_eq!(
        mesh.uvs,
        vec![
            TexCoord { u: 0, v: 0 },
            TexCoord { u: UV_ONE, v: 0 },
            TexCoord { u: UV_ONE, v: UV_ONE },
        ]
    );
    assert_eq!(mesh.indices, vec![0, 1, 2]);
}

#[test]
fn well_formedness_check_finds_bad_meshes() {
    let good = Mesh::from_triangles(&vec![tri((0, 0), (10, 0), (0, 10))], 3);
    assert!(good.is_well_formed());
    let mut dangling = good.clone();
    dangling.indices[2] = 3;
    assert!(!dangling.is_well_formed());
    let mut ragged = good.clone();
    ragged.indices.push(0);
    assert!(!ragged.is_well_formed());
    let mut short = good.clone();
    short.normals.pop();
    assert!(!short.is_well_formed());
    let mut long = good.clone();
    long.uvs.push(TexCoord { u: 0, v: 0 });
    assert!(!long.is_well_formed());
}
