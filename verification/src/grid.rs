//! The sampling grid: a square of `n` by `n` cells centred on the origin of
//! the mesh, with the field sampled at each of its `(n + 1)` by `(n + 1)`
//! corner points.
//!
//! Two scales are kept apart on purpose. The world position of a corner is
//! its grid index times the fixed `CELL_SIZE` (shifted so that the grid is
//! centred on the origin); the point at which the field is sampled is the
//! grid index times the caller's sampling scale. Zooming the field pattern
//! therefore never changes the size of the mesh.
//!
//! Corner order within a cell, used by every table of the triangulator, is
//! counter-clockwise from the corner of lowest coordinates, x to the right
//! and y upward: 0 = south-west, 1 = south-east, 2 = north-east,
//! 3 = north-west.

use vstd::prelude::*;
use vstd::arithmetic::div_mod::lemma_fundamental_div_mod_converse;
use crate::error::MeshError;
use crate::field::{field_value, FieldSampler};
use crate::geometry::Point;

verus! {

/// The smallest resolution that is accepted: the grid then has an interior
/// cell with a neighbour on every side.
pub const MIN_RESOLUTION: u32 = 3;

/// The largest resolution that is supported: with it every vertex index of a
/// mesh still fits in a `u32` and every coordinate in an `i32`.
pub const MAX_RESOLUTION: u32 = 16384;

/// Side of a cell in world units.
pub const CELL_SIZE: i32 = 1024;

/// Half the side of a cell in world units.
pub const HALF_CELL: i32 = 512;

/// Whether `n` is a resolution that a grid can have.
pub open spec fn valid_resolution(n: int) -> bool {
    MIN_RESOLUTION <= n <= MAX_RESOLUTION
}

/// World coordinate of grid line `index` in a grid of `n` cells per axis:
/// `index * CELL_SIZE`, shifted by half the extent of the grid.
pub open spec fn grid_coordinate(n: int, index: int) -> int {
    (2 * index - n) * HALF_CELL
}

/// World position of the corner point in row `row` and column `col`.
pub open spec fn corner_position(n: int, row: int, col: int) -> Point {
    Point { x: grid_coordinate(n, col) as i32, y: grid_coordinate(n, row) as i32 }
}

/// Place of the corner point `(row, col)` in the row-major sample sequence.
pub open spec fn sample_index(n: int, row: int, col: int) -> int {
    row * (n + 1) + col
}

/// Place of the cell `(row, col)` in the row-major cell sequence.
pub open spec fn cell_index(n: int, row: int, col: int) -> int {
    row * n + col
}

/// One cell of the grid with what the triangulator reads of it: the world
/// positions of its four corners and the field values there, both in the
/// corner order south-west, south-east, north-east, north-west.
#[derive(Clone, Copy, Debug, PartialEq, Eq)]
pub struct GridCell {
    pub row: u32,
    pub col: u32,
    pub corners: [Point; 4],
    pub values: [i32; 4],
}

impl GridCell {
    /// The cell is an axis-aligned square of side `CELL_SIZE` whose corners
    /// are listed counter-clockwise from the south-west one.
    pub open spec fn is_square(self) -> bool {
        let sw = self.corners[0];
        &&& sw.x + CELL_SIZE <= i32::MAX
        &&& sw.y + CELL_SIZE <= i32::MAX
        &&& self.corners[1] == Point { x: (sw.x + CELL_SIZE) as i32, y: sw.y }
        &&& self.corners[2] == Point { x: (sw.x + CELL_SIZE) as i32, y: (sw.y + CELL_SIZE) as i32 }
        &&& self.corners[3] == Point { x: sw.x, y: (sw.y + CELL_SIZE) as i32 }
    }

    /// Whether `p` lies within the square that the cell's south-west and
    /// north-east corners span, its border included.
    pub open spec fn contains(self, p: Point) -> bool {
        &&& self.corners[0].x <= p.x <= self.corners[2].x
        &&& self.corners[0].y <= p.y <= self.corners[2].y
    }
}

/// The field sampled on the corner points of a grid, row by row.
#[derive(Clone, Debug, PartialEq, Eq)]
pub struct Grid {
    /// Cells per axis.
    pub resolution: u32,
    /// One value per corner point, row-major: `(resolution + 1)` rows of
    /// `(resolution + 1)` values.
    pub samples: Vec<i32>,
}

/// What a grid holds, as mathematics: the resolution and the sequence of
/// samples.
pub struct GridView {
    pub resolution: int,
    pub samples: Seq<i32>,
}

impl GridView {
    /// The resolution is in range and there is exactly one sample per corner
    /// point.
    pub open spec fn well_formed(self) -> bool {
        &&& valid_resolution(self.resolution)
        &&& self.samples.len() == (self.resolution + 1) * (self.resolution + 1)
    }

    /// The sample at the corner point `(row, col)`.
    pub open spec fn value_at(self, row: int, col: int) -> i32 {
        self.samples[sample_index(self.resolution, row, col)]
    }

    /// The cell whose south-west corner is the corner point `(row, col)`.
    pub open spec fn cell_at(self, row: int, col: int) -> GridCell {
        let n = self.resolution;
        GridCell {
            row: row as u32,
            col: col as u32,
            corners: [
                corner_position(n, row, col),
                corner_position(n, row, col + 1),
                corner_position(n, row + 1, col + 1),
                corner_position(n, row + 1, col),
            ],
            values: [
                self.value_at(row, col),
                self.value_at(row, col + 1),
                self.value_at(row + 1, col + 1),
                self.value_at(row + 1, col),
            ],
        }
    }

    /// All cells of the grid, row by row.
    pub open spec fn cells(self) -> Seq<GridCell> {
        let n = self.resolution;
        Seq::new((n * n) as nat, |k: int| self.cell_at(k / n, k % n))
    }
}

impl View for Grid {
    type V = GridView;

    open spec fn view(&self) -> GridView {
        GridView { resolution: self.resolution as int, samples: self.samples@ }
    }
}

impl Grid {
    /// The resolution is in range and there is exactly one sample per corner
    /// point.
    pub open spec fn well_formed(&self) -> bool {
        self@.well_formed()
    }

    /// Builds a grid from samples that are already at hand. Returns `None`
    /// unless the resolution is in range and `samples` holds exactly one
    /// value per corner point.
    pub fn from_samples(resolution: u32, samples: Vec<i32>) -> (grid: Option<Grid>)
        ensures
            grid is Some <==> valid_resolution(resolution as int) && samples@.len() == (resolution
                + 1) * (resolution + 1),
            grid matches Some(g) ==> g.resolution == resolution && g.samples@ == samples@
                && g.well_formed(),
    {
        if resolution < MIN_RESOLUTION || resolution > MAX_RESOLUTION {
            return None;
        }
        let side: usize = resolution as usize + 1;
        assert(side * side <= 16385 * 16385) by (nonlinear_arith)
            requires
                0 <= side <= 16385,
        ;
        if samples.len() != side * side {
            return None;
        }
        Some(Grid { resolution, samples })
    }

    /// Number of corner samples: `(resolution + 1)` squared.
    pub fn sample_count(&self) -> (count: usize)
        requires
            self.well_formed(),
        ensures
            count == (self.resolution + 1) * (self.resolution + 1),
    {
        self.samples.len()
    }

    /// Number of cells: `resolution` squared.
    pub fn cell_count(&self) -> (count: usize)
        requires
            self.well_formed(),
        ensures
            count == self.resolution * self.resolution,
            count == self@.cells().len(),
    {
        let n: usize = self.resolution as usize;
        assert(n * n <= 16384 * 16384) by (nonlinear_arith)
            requires
                0 <= n <= 16384,
        ;
        n * n
    }

    /// The sample at the corner point `(row, col)`.
    pub fn value(&self, row: u32, col: u32) -> (v: i32)
        requires
            self.well_formed(),
            row <= self.resolution,
            col <= self.resolution,
        ensures
            v == self@.value_at(row as int, col as int),
    {
        let side: usize = self.resolution as usize + 1;
        proof {
            lemma_sample_index_bound(self.resolution as int, row as int, col as int);
        }
        assert(row * side <= 16384 * 16385) by (nonlinear_arith)
            requires
                0 <= row <= 16384,
                0 <= side <= 16385,
        ;
        self.samples[row as usize * side + col as usize]
    }

    /// The cell whose south-west corner is the corner point `(row, col)`.
    pub fn cell(&self, row: u32, col: u32) -> (cell: GridCell)
        requires
            self.well_formed(),
            row < self.resolution,
            col < self.resolution,
        ensures
            cell == self@.cell_at(row as int, col as int),
            cell.is_square(),
    {
        let n: u32 = self.resolution;
        GridCell {
            row,
            col,
            corners: [
                world_corner(n, row, col),
                world_corner(n, row, col + 1),
                world_corner(n, row + 1, col + 1),
                world_corner(n, row + 1, col),
            ],
            values: [
                self.value(row, col),
                self.value(row, col + 1),
                self.value(row + 1, col + 1),
                self.value(row + 1, col),
            ],
        }
    }

    /// All cells of the grid, row by row: `resolution` squared of them.
    pub fn cells(&self) -> (cells: Vec<GridCell>)
        requires
            self.well_formed(),
        ensures
            cells@ == self@.cells(),
            cells@.len() == self.resolution * self.resolution,
            forall|row: int, col: int|
                0 <= row < self.resolution && 0 <= col < self.resolution
                    ==> #[trigger] cells@[cell_index(self.resolution as int, row, col)]
                    == self@.cell_at(row, col),
    {
        let n: u32 = self.resolution;
        let count: usize = self.cell_count();
        let mut cells: Vec<GridCell> = Vec::new();
        let mut row: u32 = 0;
        let mut col: u32 = 0;
        while cells.len() < count
            invariant
                self.well_formed(),
                n == self.resolution,
                count == n * n,
                cells@.len() <= count,
                cells@.len() == row * n + col,
                col < n,
                row <= n,
                forall|k: int|
                    0 <= k < cells@.len() ==> cells@[k] == self@.cell_at(
                        k / (n as int),
                        k % (n as int),
                    ),
            decreases count - cells@.len(),
        {
            proof {
                let k = cells@.len() as int;
                lemma_fundamental_div_mod_converse(k, n as int, row as int, col as int);
                if row >= n {
                    assert(row * n >= n * n) by (nonlinear_arith)
                        requires
                            row >= n,
                            n >= 0,
                    ;
                }
            }
            let cell = self.cell(row, col);
            cells.push(cell);
            if col + 1 < n {
                col = col + 1;
            } else {
                col = 0;
                row = row + 1;
                assert(row * n + 0 == (row - 1) * n + (n - 1) + 1) by (nonlinear_arith);
            }
        }
        proof {
            assert(cells@ =~= self@.cells());
            assert forall|r: int, c: int|
                0 <= r < n && 0 <= c < n implies #[trigger] cells@[cell_index(n as int, r, c)]
                == self@.cell_at(r, c) by {
                lemma_cell_index_bound(n as int, r, c);
                lemma_fundamental_div_mod_converse(cell_index(n as int, r, c), n as int, r, c);
            }
        }
        cells
    }
}

/// The grid builder: lays out the grid and samples the field at each corner
/// point `(row, col)`, at the sampling point
/// `(col * sampling_scale, row * sampling_scale)` of the slice `depth`.
#[derive(Clone, Copy, Debug, PartialEq, Eq)]
pub struct GridBuilder {
    /// Cells per axis; at least `MIN_RESOLUTION` and at most `MAX_RESOLUTION`.
    pub resolution: u32,
    /// Sampling units per grid step: the zoom of the field pattern.
    pub sampling_scale: u32,
    /// The slice of the field that is sampled.
    pub depth: i64,
}

impl GridBuilder {
    /// What the corner point `(row, col)` of the built grid holds.
    pub open spec fn sample_at(&self, row: int, col: int) -> int {
        field_value(col * self.sampling_scale, row * self.sampling_scale, self.depth as int)
    }

    /// The grid that this builder builds.
    pub open spec fn grid(&self) -> GridView {
        let side = self.resolution + 1;
        GridView {
            resolution: self.resolution as int,
            samples: Seq::new(
                (side * side) as nat,
                |k: int| self.sample_at(k / side, k % side) as i32,
            ),
        }
    }

    /// Samples the field on the grid. A resolution below `MIN_RESOLUTION` is
    /// turned down with `InvalidResolution`; otherwise the grid holds
    /// `(resolution + 1)` squared samples, one per corner point, and has
    /// `resolution` squared cells. Resolutions beyond `MAX_RESOLUTION` are
    /// not supported: the caller keeps to that limit.
    pub fn build(&self) -> (result: Result<Grid, MeshError>)
        requires
            self.resolution <= MAX_RESOLUTION,
        ensures
            result is Ok <==> self.resolution >= MIN_RESOLUTION,
            result matches Ok(grid) ==> {
                &&& grid@ == self.grid()
                &&& grid.well_formed()
                &&& grid@.samples.len() == (self.resolution + 1) * (self.resolution + 1)
                &&& grid@.cells().len() == self.resolution * self.resolution
                &&& forall|row: int, col: int|
                    0 <= row <= self.resolution && 0 <= col <= self.resolution
                        ==> #[trigger] grid@.value_at(row, col) == self.sample_at(row, col)
            },
            result matches Err(e) ==> e == MeshError::InvalidResolution,
    {
        if self.resolution < MIN_RESOLUTION {
            return Err(MeshError::InvalidResolution);
        }
        let n: u32 = self.resolution;
        let side: usize = n as usize + 1;
        assert(side * side <= 16385 * 16385) by (nonlinear_arith)
            requires
                0 <= side <= 16385,
        ;
        let count: usize = side * side;
        let mut samples: Vec<i32> = Vec::new();
        let mut row: u32 = 0;
        let mut col: u32 = 0;
        while samples.len() < count
            invariant
                valid_resolution(n as int),
                n == self.resolution,
                side == n + 1,
                count == side * side,
                samples@.len() <= count,
                samples@.len() == row * side + col,
                col < side,
                row <= side,
                forall|k: int|
                    0 <= k < samples@.len() ==> samples@[k] == self.sample_at(
                        k / (side as int),
                        k % (side as int),
                    ),
            decreases count - samples@.len(),
        {
            proof {
                let k = samples@.len() as int;
                lemma_fundamental_div_mod_converse(k, side as int, row as int, col as int);
                if row >= side {
                    assert(row * side >= side * side) by (nonlinear_arith)
                        requires
                            row >= side,
                            side >= 0,
                    ;
                }
            }
            let scale: i64 = self.sampling_scale as i64;
            assert(col * scale <= 16384 * 0xFFFF_FFFF && row * scale <= 16384 * 0xFFFF_FFFF)
                by (nonlinear_arith)
                requires
                    0 <= col <= 16384,
                    0 <= row <= 16384,
                    0 <= scale <= 0xFFFF_FFFF,
            ;
            let value = FieldSampler::sample(col as i64 * scale, row as i64 * scale, self.depth);
            samples.push(value);
            if col + 1 < n + 1 {
                col = col + 1;
            } else {
                col = 0;
                row = row + 1;
                assert(row * side + 0 == (row - 1) * side + (side - 1) + 1) by (nonlinear_arith);
            }
        }
        let grid = Grid { resolution: n, samples };
        proof {
            assert(grid@.samples =~= self.grid().samples);
            assert forall|r: int, c: int|
                0 <= r <= n && 0 <= c <= n implies #[trigger] grid@.value_at(r, c)
                == self.sample_at(r, c) by {
                lemma_sample_index_bound(n as int, r, c);
                lemma_fundamental_div_mod_converse(sample_index(n as int, r, c), side as int, r, c);
            }
        }
        Ok(grid)
    }
}

/// World position of the corner point `(row, col)`.
fn world_corner(n: u32, row: u32, col: u32) -> (p: Point)
    requires
        valid_resolution(n as int),
        row <= n,
        col <= n,
    ensures
        p == corner_position(n as int, row as int, col as int),
        p.x == grid_coordinate(n as int, col as int),
        p.y == grid_coordinate(n as int, row as int),
{
    let x: i32 = (2 * (col as i32) - (n as i32)) * HALF_CELL;
    let y: i32 = (2 * (row as i32) - (n as i32)) * HALF_CELL;
    Point { x, y }
}

/// The place of a corner point lies within the sample sequence.
pub proof fn lemma_sample_index_bound(n: int, row: int, col: int)
    requires
        0 <= row <= n,
        0 <= col <= n,
    ensures
        0 <= sample_index(n, row, col) < (n + 1) * (n + 1),
{
    assert(0 <= row * (n + 1) && row * (n + 1) + n + 1 <= (n + 1) * (n + 1)) by (nonlinear_arith)
        requires
            0 <= row <= n,
    ;
}

/// The place of a cell lies within the cell sequence.
pub proof fn lemma_cell_index_bound(n: int, row: int, col: int)
    requires
        0 <= row < n,
        0 <= col < n,
    ensures
        0 <= cell_index(n, row, col) < n * n,
{
    assert(0 <= row * n && row * n + n <= n * n) by (nonlinear_arith)
        requires
            0 <= row < n,
    ;
}

} // verus!
