//! The marching-squares triangulator: from the cells of a grid to a mesh.
//!
//! Each cell is classified against the threshold and contributes the
//! triangles that the case table lists for its case. Corner references
//! resolve to the cell's corner positions, edge references to the boundary
//! vertex on that edge, placed at the midpoint or by interpolation as the
//! triangulator is set. Cells are visited row by row and every triangle gets
//! three vertices of its own.

use vstd::prelude::*;
use vstd::arithmetic::div_mod::{lemma_fundamental_div_mod, lemma_mod_bound};
use crate::boundary::{
    between,
    boundary_point,
    lemma_interpolated_on_edge,
    place_boundary,
};
use crate::cases::{
    case_table,
    cell_case,
    classify,
    edge_end,
    edge_start,
    lemma_case_table_shape,
    lemma_cell_case_range,
    triangle_table,
    TriangleRef,
    VertexRef,
};
use crate::geometry::{doubled_area, Point, Triangle};
use crate::grid::{Grid, GridCell, GridView};
use crate::mesh::{within_extent, Mesh};

verus! {

/// The triangulator and its two settings.
#[derive(Clone, Copy, Debug, PartialEq, Eq)]
pub struct MarchingSquaresTriangulator {
    /// Corners holding a value at or above the threshold are inside the
    /// region that is meshed.
    pub threshold: i32,
    /// Whether boundary vertices are placed by interpolation; otherwise at
    /// the midpoint of their edge.
    pub interpolated: bool,
}

/// Sum of the doubled signed areas of `triangles`.
pub open spec fn total_doubled_area(triangles: Seq<Triangle>) -> int
    decreases triangles.len(),
{
    if triangles.len() == 0 {
        0
    } else {
        total_doubled_area(triangles.drop_last()) + triangles.last().doubled_area()
    }
}

impl MarchingSquaresTriangulator {
    /// The boundary vertex on edge `k` of `cell`.
    pub open spec fn edge_vertex(&self, cell: GridCell, k: int) -> Point {
        let i = edge_start(k);
        let j = edge_end(k);
        boundary_point(
            cell.corners[i],
            cell.values[i] as int,
            cell.corners[j],
            cell.values[j] as int,
            self.threshold as int,
            self.interpolated,
        )
    }

    /// The point that a vertex reference names in `cell`.
    pub open spec fn vertex(&self, cell: GridCell, r: VertexRef) -> Point {
        match r {
            VertexRef::Corner(k) => cell.corners[k as int],
            VertexRef::Edge(k) => self.edge_vertex(cell, k as int),
        }
    }

    /// The triangle that a table entry names in `cell`.
    pub open spec fn triangle(&self, cell: GridCell, t: TriangleRef) -> Triangle {
        Triangle { a: self.vertex(cell, t.a), b: self.vertex(cell, t.b), c: self.vertex(cell, t.c) }
    }

    /// The case of `cell`.
    pub open spec fn case_of(&self, cell: GridCell) -> int {
        cell_case(cell.values, self.threshold as int)
    }

    /// The triangles that `cell` contributes, in table order.
    pub open spec fn triangles_of_cell(&self, cell: GridCell) -> Seq<Triangle> {
        let table = case_table(self.case_of(cell));
        Seq::new(table.len(), |i: int| self.triangle(cell, table[i]))
    }

    /// The triangles that `cells` contribute, cell after cell.
    pub open spec fn triangles_of_cells(&self, cells: Seq<GridCell>) -> Seq<Triangle>
        decreases cells.len(),
    {
        if cells.len() == 0 {
            Seq::empty()
        } else {
            self.triangles_of_cells(cells.drop_last()) + self.triangles_of_cell(cells.last())
        }
    }

    /// The triangles of a whole grid, its cells taken row by row.
    pub open spec fn triangles_of_grid(&self, grid: GridView) -> Seq<Triangle> {
        self.triangles_of_cells(grid.cells())
    }

    /// Places the boundary vertex on edge `edge` of `cell`.
    pub fn boundary_vertex(&self, cell: &GridCell, edge: u8) -> (p: Point)
        requires
            edge < 4,
        ensures
            p == self.edge_vertex(*cell, edge as int),
    {
        let start: usize = if edge == 1 {
            1
        } else if edge == 2 {
            3
        } else {
            0
        };
        let end: usize = if edge == 0 {
            1
        } else if edge == 3 {
            3
        } else {
            2
        };
        place_boundary(
            cell.corners[start],
            cell.values[start],
            cell.corners[end],
            cell.values[end],
            self.threshold,
            self.interpolated,
        )
    }

    /// Resolves a vertex reference in `cell`.
    pub fn resolve(&self, cell: &GridCell, r: VertexRef) -> (p: Point)
        requires
            r.valid(),
        ensures
            p == self.vertex(*cell, r),
    {
        match r {
            VertexRef::Corner(k) => cell.corners[k as usize],
            VertexRef::Edge(k) => self.boundary_vertex(cell, k),
        }
    }

    /// The triangles that `cell` contributes: none where all its corners lie
    /// on one side of the threshold, one or two otherwise.
    pub fn triangulate_cell(&self, cell: &GridCell) -> (triangles: Vec<Triangle>)
        ensures
            triangles@ == self.triangles_of_cell(*cell),
            triangles@.len() <= 2,
            triangles@.len() == 0 <==> self.case_of(*cell) == 0 || self.case_of(*cell) == 15,
    {
        let case = classify(&cell.values, self.threshold);
        let table = triangle_table(case);
        let mut triangles: Vec<Triangle> = Vec::new();
        let mut i: usize = 0;
        while i < table.len()
            invariant
                i <= table@.len(),
                table@ == case_table(self.case_of(*cell)),
                forall|j: int| 0 <= j < table@.len() ==> (#[trigger] table@[j]).valid(),
                triangles@ == Seq::new(i as nat, |j: int| self.triangle(*cell, table@[j])),
            decreases table@.len() - i,
        {
            let t = table[i];
            let a = self.resolve(cell, t.a);
            let b = self.resolve(cell, t.b);
            let c = self.resolve(cell, t.c);
            triangles.push(Triangle { a, b, c });
            i = i + 1;
            assert(triangles@ =~= Seq::new(i as nat, |j: int| self.triangle(*cell, table@[j])));
        }
        triangles
    }

    /// The triangles of the whole grid, its cells taken row by row.
    pub fn triangles(&self, grid: &Grid) -> (triangles: Vec<Triangle>)
        requires
            grid.well_formed(),
        ensures
            triangles@ == self.triangles_of_grid(grid@),
            triangles@.len() <= 2 * (grid.resolution * grid.resolution),
            forall|i: int, k: int|
                0 <= i < triangles@.len() && 0 <= k < 3 ==> within_extent(
                    #[trigger] triangles@[i].vertex(k),
                    grid.resolution as int,
                ),
    {
        let cells = grid.cells();
        let ghost n = grid.resolution as int;
        let mut triangles: Vec<Triangle> = Vec::new();
        let mut done: usize = 0;
        while done < cells.len()
            invariant
                grid.well_formed(),
                n == grid.resolution,
                cells@ == grid@.cells(),
                cells@.len() == n * n,
                done <= cells@.len(),
                triangles@ == self.triangles_of_cells(cells@.take(done as int)),
                triangles@.len() <= 2 * done,
                forall|i: int, k: int|
                    0 <= i < triangles@.len() && 0 <= k < 3 ==> within_extent(
                        #[trigger] triangles@[i].vertex(k),
                        n,
                    ),
            decreases cells@.len() - done,
        {
            let mut more = self.triangulate_cell(&cells[done]);
            proof {
                let cell = cells@[done as int];
                lemma_cell_of_grid(grid@, done as int);
                self.lemma_cell_triangles_inside(cell);
                assert(cells@.take(done + 1).drop_last() =~= cells@.take(done as int));
                assert(cells@.take(done + 1).last() == cell);
            }
            triangles.append(&mut more);
            done = done + 1;
        }
        proof {
            assert(cells@.take(done as int) =~= cells@);
        }
        triangles
    }

    /// Triangulates the grid into a mesh. Every triangle gets three vertices
    /// of its own, so the indices simply count upward.
    pub fn triangulate(&self, grid: &Grid) -> (mesh: Mesh)
        requires
            grid.well_formed(),
        ensures
            mesh.assembled_from(self.triangles_of_grid(grid@), grid.resolution as int),
            mesh.well_formed(),
    {
        let triangles = self.triangles(grid);
        assert(2 * (grid.resolution * grid.resolution) <= 2 * (16384 * 16384)) by (nonlinear_arith)
            requires
                0 <= grid.resolution <= 16384,
        ;
        Mesh::from_triangles(&triangles, grid.resolution)
    }

    /// Every vertex that the table can name in a square cell lies within
    /// the cell.
    pub proof fn lemma_vertex_inside(&self, cell: GridCell, r: VertexRef)
        requires
            cell.is_square(),
            r.valid(),
        ensures
            cell.contains(self.vertex(cell, r)),
    {
        match r {
            VertexRef::Corner(k) => {},
            VertexRef::Edge(k) => {
                self.lemma_edge_vertex_on_edge(cell, k as int);
            },
        }
    }

    /// The boundary vertex of an edge of a square cell lies on that edge,
    /// between the two corners that the edge joins.
    pub proof fn lemma_edge_vertex_on_edge(&self, cell: GridCell, k: int)
        requires
            cell.is_square(),
            0 <= k < 4,
        ensures
            between(
                cell.corners[edge_start(k)].x as int,
                self.edge_vertex(cell, k).x as int,
                cell.corners[edge_end(k)].x as int,
            ),
            between(
                cell.corners[edge_start(k)].y as int,
                self.edge_vertex(cell, k).y as int,
                cell.corners[edge_end(k)].y as int,
            ),
    {
        let i = edge_start(k);
        let j = edge_end(k);
        lemma_interpolated_on_edge(
            cell.corners[i],
            cell.values[i] as int,
            cell.corners[j],
            cell.values[j] as int,
            self.threshold as int,
        );
    }

    /// Cells whose corners are all below the threshold, or all at or above
    /// it, contribute no triangle.
    pub proof fn lemma_uniform_cell_empty(&self, cell: GridCell)
        requires
            self.case_of(cell) == 0 || self.case_of(cell) == 15,
        ensures
            self.triangles_of_cell(cell).len() == 0,
    {
    }

    /// Every other cell contributes one or two triangles.
    pub proof fn lemma_mixed_cell_count(&self, cell: GridCell)
        requires
            self.case_of(cell) != 0,
            self.case_of(cell) != 15,
        ensures
            1 <= self.triangles_of_cell(cell).len() <= 2,
    {
        lemma_cell_case_range(cell.values, self.threshold as int);
        lemma_case_table_shape(self.case_of(cell));
    }

    /// All vertices of the triangles of a square cell lie within the cell.
    pub proof fn lemma_cell_triangles_inside(&self, cell: GridCell)
        requires
            cell.is_square(),
        ensures
            forall|i: int, k: int|
                0 <= i < self.triangles_of_cell(cell).len() && 0 <= k < 3 ==> cell.contains(
                    #[trigger] self.triangles_of_cell(cell)[i].vertex(k),
                ),
    {
        let table = case_table(self.case_of(cell));
        lemma_cell_case_range(cell.values, self.threshold as int);
        lemma_case_table_shape(self.case_of(cell));
        assert forall|i: int, k: int|
            0 <= i < self.triangles_of_cell(cell).len() && 0 <= k < 3 implies cell.contains(
            #[trigger] self.triangles_of_cell(cell)[i].vertex(k),
        ) by {
            assert(table[i].valid());
            self.lemma_vertex_inside(cell, table[i].a);
            self.lemma_vertex_inside(cell, table[i].b);
            self.lemma_vertex_inside(cell, table[i].c);
        }
    }

    /// In midpoint placement the boundary vertex of an edge of a square cell
    /// is exactly the arithmetic mean of the two corners that the edge
    /// joins, whatever values the corners hold.
    pub proof fn lemma_cell_midpoint_exact(&self, cell: GridCell, k: int)
        requires
            cell.is_square(),
            0 <= k < 4,
            !self.interpolated,
        ensures
            ({
                let start = cell.corners[edge_start(k)];
                let end = cell.corners[edge_end(k)];
                let vertex = self.edge_vertex(cell, k);
                2 * vertex.x == start.x + end.x && 2 * vertex.y == start.y + end.y
            }),
    {
    }

    /// Two cells that share an edge place the same boundary vertex on it:
    /// the east edge of a cell is the west edge of its eastern neighbour,
    /// and the north edge of a cell is the south edge of its northern
    /// neighbour.
    pub proof fn lemma_shared_edges_agree(&self, grid: GridView, row: int, col: int)
        requires
            grid.well_formed(),
            0 <= row < grid.resolution,
            0 <= col < grid.resolution,
        ensures
            col + 1 < grid.resolution ==> self.edge_vertex(grid.cell_at(row, col), 1)
                == self.edge_vertex(grid.cell_at(row, col + 1), 3),
            row + 1 < grid.resolution ==> self.edge_vertex(grid.cell_at(row, col), 2)
                == self.edge_vertex(grid.cell_at(row + 1, col), 0),
    {
    }

    /// The placement of boundary vertices has no part in the classification
    /// of a cell nor in the number of its triangles: two triangulators with
    /// the same threshold agree on both.
    pub proof fn lemma_placement_keeps_cell_shape(&self, other: Self, cell: GridCell)
        requires
            self.threshold == other.threshold,
        ensures
            self.case_of(cell) == other.case_of(cell),
            self.triangles_of_cell(cell).len() == other.triangles_of_cell(cell).len(),
    {
    }

    /// Two triangulators with the same threshold produce the same number of
    /// triangles from the same cells, however they place boundary vertices.
    pub proof fn lemma_placement_keeps_triangle_count(&self, other: Self, cells: Seq<GridCell>)
        requires
            self.threshold == other.threshold,
        ensures
            self.triangles_of_cells(cells).len() == other.triangles_of_cells(cells).len(),
        decreases cells.len(),
    {
        if cells.len() > 0 {
            self.lemma_placement_keeps_triangle_count(other, cells.drop_last());
            self.lemma_placement_keeps_cell_shape(other, cells.last());
        }
    }

    /// No cell contributes more than two triangles, so `cells` contribute at
    /// most twice their number.
    pub proof fn lemma_triangle_count_bound(&self, cells: Seq<GridCell>)
        ensures
            self.triangles_of_cells(cells).len() <= 2 * cells.len(),
        decreases cells.len(),
    {
        if cells.len() > 0 {
            self.lemma_triangle_count_bound(cells.drop_last());
            lemma_cell_case_range(cells.last().values, self.threshold as int);
            lemma_case_table_shape(self.case_of(cells.last()));
        }
    }

    /// Cells that all lie on one side of the threshold contribute nothing.
    pub proof fn lemma_uniform_cells_empty(&self, cells: Seq<GridCell>)
        requires
            forall|i: int|
                0 <= i < cells.len() ==> self.case_of(#[trigger] cells[i]) == 0 || self.case_of(
                    cells[i],
                ) == 15,
        ensures
            self.triangles_of_cells(cells).len() == 0,
        decreases cells.len(),
    {
        if cells.len() > 0 {
            self.lemma_uniform_cells_empty(cells.drop_last());
            assert(cells.last() == cells[cells.len() - 1]);
        }
    }

    /// Every triangle of a square cell is wound counter-clockwise (or is
    /// degenerate, where a boundary vertex falls on a corner), so the area
    /// that the cell contributes is never negative.
    pub proof fn lemma_cell_triangles_wound(&self, cell: GridCell)
        requires
            cell.is_square(),
        ensures
            forall|i: int|
                0 <= i < self.triangles_of_cell(cell).len() ==> (
                #[trigger] self.triangles_of_cell(cell)[i]).doubled_area() >= 0,
            total_doubled_area(self.triangles_of_cell(cell)) >= 0,
    {
        let table = case_table(self.case_of(cell));
        let triangles = self.triangles_of_cell(cell);
        lemma_cell_case_range(cell.values, self.threshold as int);
        self.lemma_edge_vertex_on_edge(cell, 0);
        self.lemma_edge_vertex_on_edge(cell, 1);
        self.lemma_edge_vertex_on_edge(cell, 2);
        self.lemma_edge_vertex_on_edge(cell, 3);
        assert forall|i: int| 0 <= i < triangles.len() implies (
        #[trigger] triangles[i]).doubled_area() >= 0 by {
            let t = triangles[i];
            assert(t == self.triangle(cell, table[i]));
            lemma_winding_from_signs(t.a, t.b, t.c);
        }
        lemma_total_area_nonnegative(triangles);
    }

    /// The triangles of square cells are all wound counter-clockwise, so
    /// their total area is never negative.
    pub proof fn lemma_cells_triangles_wound(&self, cells: Seq<GridCell>)
        requires
            forall|i: int| 0 <= i < cells.len() ==> (#[trigger] cells[i]).is_square(),
        ensures
            forall|i: int|
                0 <= i < self.triangles_of_cells(cells).len() ==> (
                #[trigger] self.triangles_of_cells(cells)[i]).doubled_area() >= 0,
            total_doubled_area(self.triangles_of_cells(cells)) >= 0,
        decreases cells.len(),
    {
        if cells.len() > 0 {
            self.lemma_cells_triangles_wound(cells.drop_last());
            assert(cells.last() == cells[cells.len() - 1]);
            self.lemma_cell_triangles_wound(cells.last());
        }
        lemma_total_area_nonnegative(self.triangles_of_cells(cells));
    }

    /// The triangles of square cells that lie within the extent of a grid of
    /// `n` cells per axis lie within that extent.
    pub proof fn lemma_cells_triangles_within_extent(&self, cells: Seq<GridCell>, n: int)
        requires
            forall|i: int|
                0 <= i < cells.len() ==> (#[trigger] cells[i]).is_square() && within_extent(
                    cells[i].corners[0],
                    n,
                ) && within_extent(cells[i].corners[2], n),
        ensures
            forall|i: int, k: int|
                0 <= i < self.triangles_of_cells(cells).len() && 0 <= k < 3 ==> within_extent(
                    #[trigger] self.triangles_of_cells(cells)[i].vertex(k),
                    n,
                ),
        decreases cells.len(),
    {
        if cells.len() > 0 {
            self.lemma_cells_triangles_within_extent(cells.drop_last(), n);
            let cell = cells.last();
            assert(cell == cells[cells.len() - 1]);
            self.lemma_cell_triangles_inside(cell);
            let before = self.triangles_of_cells(cells.drop_last());
            let all = self.triangles_of_cells(cells);
            assert forall|i: int, k: int| 0 <= i < all.len() && 0 <= k < 3 implies within_extent(
                #[trigger] all[i].vertex(k),
                n,
            ) by {
                if i >= before.len() {
                    let j = i - before.len();
                    assert(all[i] == self.triangles_of_cell(cell)[j]);
                    assert(cell.contains(self.triangles_of_cell(cell)[j].vertex(k)));
                }
            }
        }
    }

    /// Every triangle of a well-formed grid is wound counter-clockwise and
    /// lies within the extent of the grid.
    pub proof fn lemma_grid_triangles_sound(&self, grid: GridView)
        requires
            grid.well_formed(),
        ensures
            forall|i: int|
                0 <= i < self.triangles_of_grid(grid).len() ==> (
                #[trigger] self.triangles_of_grid(grid)[i]).doubled_area() >= 0,
            forall|i: int, k: int|
                0 <= i < self.triangles_of_grid(grid).len() && 0 <= k < 3 ==> within_extent(
                    #[trigger] self.triangles_of_grid(grid)[i].vertex(k),
                    grid.resolution,
                ),
            self.triangles_of_grid(grid).len() <= 2 * (grid.resolution * grid.resolution),
    {
        let cells = grid.cells();
        assert forall|i: int| 0 <= i < cells.len() implies (#[trigger] cells[i]).is_square()
            && within_extent(cells[i].corners[0], grid.resolution) && within_extent(
            cells[i].corners[2],
            grid.resolution,
        ) by {
            lemma_cell_of_grid(grid, i);
        }
        self.lemma_cells_triangles_wound(cells);
        self.lemma_cells_triangles_within_extent(cells, grid.resolution);
        self.lemma_triangle_count_bound(cells);
    }
}

/// A triangle whose second corner lies on the non-negative side of the first
/// in one coordinate, and whose third corner does so in the other, while the
/// mixed differences have opposite signs, is wound counter-clockwise or is
/// degenerate.
pub proof fn lemma_winding_from_signs(a: Point, b: Point, c: Point)
    requires
        (b.x - a.x >= 0 && c.y - a.y >= 0) || (b.x - a.x <= 0 && c.y - a.y <= 0),
        (b.y - a.y >= 0 && c.x - a.x <= 0) || (b.y - a.y <= 0 && c.x - a.x >= 0),
    ensures
        doubled_area(a, b, c) >= 0,
{
    let ux = b.x - a.x;
    let uy = b.y - a.y;
    let vx = c.x - a.x;
    let vy = c.y - a.y;
    assert(ux * vy >= 0) by (nonlinear_arith)
        requires
            (ux >= 0 && vy >= 0) || (ux <= 0 && vy <= 0),
    ;
    assert(uy * vx <= 0) by (nonlinear_arith)
        requires
            (uy >= 0 && vx <= 0) || (uy <= 0 && vx >= 0),
    ;
}

/// Triangles that are each wound counter-clockwise have a non-negative
/// total area.
pub proof fn lemma_total_area_nonnegative(triangles: Seq<Triangle>)
    requires
        forall|i: int| 0 <= i < triangles.len() ==> (#[trigger] triangles[i]).doubled_area() >= 0,
    ensures
        total_doubled_area(triangles) >= 0,
    decreases triangles.len(),
{
    if triangles.len() > 0 {
        lemma_total_area_nonnegative(triangles.drop_last());
    }
}

/// The cell in place `k` of a well-formed grid is a square within the extent
/// of the grid.
pub proof fn lemma_cell_of_grid(grid: GridView, k: int)
    requires
        grid.well_formed(),
        0 <= k < grid.resolution * grid.resolution,
    ensures
        grid.cells()[k].is_square(),
        within_extent(grid.cells()[k].corners[0], grid.resolution),
        within_extent(grid.cells()[k].corners[2], grid.resolution),
{
    let n = grid.resolution;
    lemma_fundamental_div_mod(k, n);
    lemma_mod_bound(k, n);
    let row = k / n;
    let col = k % n;
    assert(0 <= row < n) by (nonlinear_arith)
        requires
            k == n * row + col,
            0 <= col < n,
            0 <= k < n * n,
    ;
}

} // verus!
