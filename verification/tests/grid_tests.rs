use marching_squares::error::MeshError;
use marching_squares::field::FieldSampler;
use marching_squares::geometry::Point;
use marching_squares::grid::{Grid, GridBuilder, CELL_SIZE, HALF_CELL, MAX_RESOLUTION, MIN_RESOLUTION};

fn builder(resolution: u32, sampling_scale: u32, depth: i64) -> GridBuilder {
    GridBuilder { resolution, sampling_scale, depth }
}

#[test]
fn grid_has_one_sample_per_corner_and_n_squared_cells() {
    for n in 3..=24u32 {
        let grid = builder(n, 200, 9).build().unwrap();
        let side = (n + 1) as usize;
        assert_eq!(grid.resolution, n);
        assert_eq!(grid.samples.len(), side * side);
        assert_eq!(grid.sample_count(), side * side);
        assert_eq!(grid.cell_count(), (n * n) as usize);
        assert_eq!(grid.cells().len(), (n * n) as usize);
    }
}

#[test]
fn resolution_below_minimum_is_rejected() {
    for n in 0..MIN_RESOLUTION {
        assert_eq!(builder(n, 100, 0).build(), Err(MeshError::InvalidResolution));
    }
    assert!(builder(MIN_RESOLUTION, 100, 0).build().is_ok());
}

#[test]
fn minimum_and_limit_are_as_documented() {
    assert_eq!(MIN_RESOLUTION, 3);
    assert_eq!(MAX_RESOLUTION, 16384);
    assert_eq!(CELL_SIZE, 1024);
    assert_eq!(HALF_CELL * 2, CELL_SIZE);
}

#[test]
fn samples_are_the_field_at_scaled_grid_indices() {
    let grid = builder(3, 500, 100).build().unwrap();
    assert_eq!(
        grid.samples,
        vec![200, 548, -800, -548, 700, 1896, 396, -952, 1048, 1396, -104, -1548, 1356, 952, -548, -1992]
    );
    for row in 0..=3u32 {
        for col in 0..=3u32 {
            assert_eq!(
                grid.value(row, col),
                FieldSampler::sample(col as i64 * 500, row as i64 * 500, 100)
            );
        }
    }
}

#[test]
fn samples_of_a_four_by_four_grid() {
    let grid = builder(4, 368, 0).build().unwrap();
    assert_eq!(
        grid.samples,
        vec![
            0, 368, -160, -944, -576, 944, 1472, 944, -160, -1104, 736, 1680, 1152, 48, -1056, 1104, 1312,
            784, -320, -1424, 1472, 1104, 416, -688, -1792
        ]
    );
}

#[test]
fn grid_is_centred_on_the_origin() {
    let grid = builder(4, 368, 0).build().unwrap();
    let first = grid.cell(0, 0);
    let last = grid.cell(3, 3);
    assert_eq!(first.corners[0], Point { x: -2048, y: -2048 });
    assert_eq!(last.corners[2], Point { x: 2048, y: 2048 });
    let odd = builder(3, 368, 0).build().unwrap();
    assert_eq!(odd.cell(0, 0).corners[0], Point { x: -1536, y: -1536 });
    assert_eq!(odd.cell(2, 2).corners[2], Point { x: 1536, y: 1536 });
}

#[test]
fn cell_corners_run_counter_clockwise_from_south_west() {
    let grid = builder(4, 368, 0).build().unwrap();
    let cell = grid.cell(1, 2);
    assert_eq!(cell.row, 1);
    assert_eq!(cell.col, 2);
    assert_eq!(
        cell.corners,
        [
            Point { x: 0, y: -1024 },
            Point { x: 1024, y: -1024 },
            Point { x: 1024, y: 0 },
            Point { x: 0, y: 0 },
        ]
    );
    assert_eq!(
        cell.values,
        [grid.value(1, 2), grid.value(1, 3), grid.value(2, 3), grid.value(2, 2)]
    );
    assert_eq!(cell.values, [944, -160, 48, 1152]);
}

#[test]
fn cells_come_row_by_row() {
    let grid = builder(5, 120, 3).build().unwrap();
    let cells = grid.cells();
    for row in 0..5u32 {
        for col in 0..5u32 {
            assert_eq!(cells[(row * 5 + col) as usize], grid.cell(row, col));
        }
    }
}

#[test]
fn sampling_scale_does_not_move_the_corners() {
    let coarse = builder(6, 10, 0).build().unwrap();
    let fine = builder(6, 4000, 77).build().unwrap();
    for row in 0..6u32 {
        for col in 0..6u32 {
            assert_eq!(coarse.cell(row, col).corners, fine.cell(row, col).corners);
        }
    }
    assert_ne!(coarse.samples, fine.samples);
}

#[test]
fn zero_sampling_scale_gives_a_constant_grid() {
    let grid = builder(3, 0, 55).build().unwrap();
    let v = FieldSampler::sample(0, 0, 55);
    assert!(grid.samples.iter().all(|&s| s == v));
}

#[test]
fn grid_from_samples_checks_its_arguments() {
    assert!(Grid::from_samples(3, vec![0; 16]).is_some());
    assert!(Grid::from_samples(3, vec![0; 15]).is_none());
    assert!(Grid::from_samples(3, vec![0; 17]).is_none());
    assert!(Grid::from_samples(2, vec![0; 9]).is_none());
    assert!(Grid::from_samples(0, vec![0; 1]).is_none());
    assert!(Grid::from_samples(MAX_RESOLUTION + 1, Vec::new()).is_none());
    let grid = Grid::from_samples(4, (0..25).collect()).unwrap();
    assert_eq!(grid.resolution, 4);
    assert_eq!(grid.value(2, 3), 13);
}
