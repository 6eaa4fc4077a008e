//! Classification of a cell and the table of its triangles.
//!
//! A cell's case is a number of four bits, one per corner in the corner
//! order of the grid: bit `k` is set when corner `k` holds a value at or
//! above the threshold. The case alone decides which triangles the cell
//! contributes. Each triangle is given by three references, to a corner of
//! the cell or to the boundary vertex on one of its edges; edge `k` joins
//! corner `k` to the next corner counter-clockwise.
//!
//! Only cells that the boundary crosses contribute triangles: a cell whose
//! corners all lie on one side of the threshold contributes none. In a
//! crossed cell the triangles cover the corners at or above the threshold:
//! - one corner: the triangle it spans with the boundary vertices of its
//!   two edges;
//! - two neighbouring corners: the quadrilateral they span with the two
//!   boundary vertices, as two triangles;
//! - two opposite corners: one triangle for each, as for a single corner;
//! - three corners: the triangle of the three corners, and the triangle
//!   from the middle one of them to the two boundary vertices. The two
//!   overlap; between them they reach every corner at or above the threshold
//!   and the whole boundary segment.
//!
//! No cell contributes more than two triangles, and every triangle is wound
//! counter-clockwise.

use vstd::prelude::*;

verus! {

use self::VertexRef::{Corner, Edge};

/// A reference to one vertex of a cell.
#[derive(Clone, Copy, Debug, PartialEq, Eq, Structural)]
pub enum VertexRef {
    /// Corner `k` of the cell.
    Corner(u8),
    /// The boundary vertex on edge `k` of the cell.
    Edge(u8),
}

/// A triangle of the table: three vertex references in winding order.
#[derive(Clone, Copy, Debug, PartialEq, Eq, Structural)]
pub struct TriangleRef {
    pub a: VertexRef,
    pub b: VertexRef,
    pub c: VertexRef,
}

impl VertexRef {
    /// The reference names one of the four corners or one of the four edges.
    pub open spec fn valid(self) -> bool {
        match self {
            VertexRef::Corner(k) => k < 4,
            VertexRef::Edge(k) => k < 4,
        }
    }
}

impl TriangleRef {
    /// All three references are valid.
    pub open spec fn valid(self) -> bool {
        self.a.valid() && self.b.valid() && self.c.valid()
    }
}

/// 1 where the value is at or above the threshold, else 0.
pub open spec fn corner_bit(value: int, threshold: int) -> int {
    if value >= threshold {
        1
    } else {
        0
    }
}

/// The case of a cell with the corner values `values`.
pub open spec fn cell_case(values: [i32; 4], threshold: int) -> int {
    corner_bit(values[0] as int, threshold) + 2 * corner_bit(values[1] as int, threshold) + 4
        * corner_bit(values[2] as int, threshold) + 8 * corner_bit(values[3] as int, threshold)
}

/// The corner that follows corner `k` counter-clockwise.
pub open spec fn next_corner(k: int) -> int {
    (k + 1) % 4
}

/// The corner opposite corner `k`.
pub open spec fn opposite_corner(k: int) -> int {
    (k + 2) % 4
}

/// The corner that precedes corner `k` counter-clockwise; also the edge that
/// ends in corner `k`.
pub open spec fn previous_corner(k: int) -> int {
    (k + 3) % 4
}

/// The corner of edge `k` with the lower coordinates. Boundary vertices are
/// placed from this corner, so the two cells that share an edge agree on its
/// vertex.
pub open spec fn edge_start(k: int) -> int {
    if k == 1 {
        1
    } else if k == 2 {
        3
    } else {
        0
    }
}

/// The corner of edge `k` with the higher coordinates.
pub open spec fn edge_end(k: int) -> int {
    if k == 0 {
        1
    } else if k == 3 {
        3
    } else {
        2
    }
}

/// The triangle of corner `k` alone.
pub open spec fn corner_triangle(k: int) -> TriangleRef {
    TriangleRef {
        a: VertexRef::Corner(k as u8),
        b: VertexRef::Edge(k as u8),
        c: VertexRef::Edge(previous_corner(k) as u8),
    }
}

/// The two triangles of corner `k` and the corner after it.
pub open spec fn pair_triangles(k: int) -> Seq<TriangleRef> {
    seq![
        TriangleRef {
            a: VertexRef::Corner(k as u8),
            b: VertexRef::Corner(next_corner(k) as u8),
            c: VertexRef::Edge(next_corner(k) as u8),
        },
        TriangleRef {
            a: VertexRef::Corner(k as u8),
            b: VertexRef::Edge(next_corner(k) as u8),
            c: VertexRef::Edge(previous_corner(k) as u8),
        },
    ]
}

/// The two triangles of the three corners other than corner `low`.
pub open spec fn trio_triangles(low: int) -> Seq<TriangleRef> {
    seq![
        TriangleRef {
            a: VertexRef::Corner(next_corner(low) as u8),
            b: VertexRef::Corner(opposite_corner(low) as u8),
            c: VertexRef::Corner(previous_corner(low) as u8),
        },
        TriangleRef {
            a: VertexRef::Edge(low as u8),
            b: VertexRef::Corner(opposite_corner(low) as u8),
            c: VertexRef::Edge(previous_corner(low) as u8),
        },
    ]
}

/// The triangles of each case.
pub open spec fn case_table(case: int) -> Seq<TriangleRef> {
    if case == 1 {
        seq![corner_triangle(0)]
    } else if case == 2 {
        seq![corner_triangle(1)]
    } else if case == 4 {
        seq![corner_triangle(2)]
    } else if case == 8 {
        seq![corner_triangle(3)]
    } else if case == 3 {
        pair_triangles(0)
    } else if case == 6 {
        pair_triangles(1)
    } else if case == 12 {
        pair_triangles(2)
    } else if case == 9 {
        pair_triangles(3)
    } else if case == 5 {
        seq![corner_triangle(0), corner_triangle(2)]
    } else if case == 10 {
        seq![corner_triangle(1), corner_triangle(3)]
    } else if case == 14 {
        trio_triangles(0)
    } else if case == 13 {
        trio_triangles(1)
    } else if case == 11 {
        trio_triangles(2)
    } else if case == 7 {
        trio_triangles(3)
    } else {
        Seq::empty()
    }
}

/// Computes the case of a cell with the corner values `values`.
pub fn classify(values: &[i32; 4], threshold: i32) -> (case: u8)
    ensures
        case == cell_case(*values, threshold as int),
        case < 16,
{
    let mut case: u8 = 0;
    if values[0] >= threshold {
        case = case + 1;
    }
    if values[1] >= threshold {
        case = case + 2;
    }
    if values[2] >= threshold {
        case = case + 4;
    }
    if values[3] >= threshold {
        case = case + 8;
    }
    case
}

/// Looks up the triangles of a case. The case must be one of the sixteen.
pub fn triangle_table(case: u8) -> (table: Vec<TriangleRef>)
    requires
        case < 16,
    ensures
        table@ == case_table(case as int),
        table@.len() <= 2,
        table@.len() == 0 <==> case == 0 || case == 15,
        forall|i: int| 0 <= i < table@.len() ==> (#[trigger] table@[i]).valid(),
{
    let table = match case {
        1 => vec![TriangleRef { a: Corner(0), b: Edge(0), c: Edge(3) }],
        2 => vec![TriangleRef { a: Corner(1), b: Edge(1), c: Edge(0) }],
        4 => vec![TriangleRef { a: Corner(2), b: Edge(2), c: Edge(1) }],
        8 => vec![TriangleRef { a: Corner(3), b: Edge(3), c: Edge(2) }],
        3 => vec![
            TriangleRef { a: Corner(0), b: Corner(1), c: Edge(1) },
            TriangleRef { a: Corner(0), b: Edge(1), c: Edge(3) },
        ],
        6 => vec![
            TriangleRef { a: Corner(1), b: Corner(2), c: Edge(2) },
            TriangleRef { a: Corner(1), b: Edge(2), c: Edge(0) },
        ],
        12 => vec![
            TriangleRef { a: Corner(2), b: Corner(3), c: Edge(3) },
            TriangleRef { a: Corner(2), b: Edge(3), c: Edge(1) },
        ],
        9 => vec![
            TriangleRef { a: Corner(3), b: Corner(0), c: Edge(0) },
            TriangleRef { a: Corner(3), b: Edge(0), c: Edge(2) },
        ],
        5 => vec![
            TriangleRef { a: Corner(0), b: Edge(0), c: Edge(3) },
            TriangleRef { a: Corner(2), b: Edge(2), c: Edge(1) },
        ],
        10 => vec![
            TriangleRef { a: Corner(1), b: Edge(1), c: Edge(0) },
            TriangleRef { a: Corner(3), b: Edge(3), c: Edge(2) },
        ],
        14 => vec![
            TriangleRef { a: Corner(1), b: Corner(2), c: Corner(3) },
            TriangleRef { a: Edge(0), b: Corner(2), c: Edge(3) },
        ],
        13 => vec![
            TriangleRef { a: Corner(2), b: Corner(3), c: Corner(0) },
            TriangleRef { a: Edge(1), b: Corner(3), c: Edge(0) },
        ],
        11 => vec![
            TriangleRef { a: Corner(3), b: Corner(0), c: Corner(1) },
            TriangleRef { a: Edge(2), b: Corner(0), c: Edge(1) },
        ],
        7 => vec![
            TriangleRef { a: Corner(0), b: Corner(1), c: Corner(2) },
            TriangleRef { a: Edge(3), b: Corner(1), c: Edge(2) },
        ],
        _ => Vec::new(),
    };
    assert(table@ =~= case_table(case as int));
    table
}

/// Cells whose corners all lie on one side of the threshold have no
/// triangle; every other cell has one or two, and every reference of the
/// table is valid.
pub proof fn lemma_case_table_shape(case: int)
    requires
        0 <= case < 16,
    ensures
        case == 0 || case == 15 ==> case_table(case).len() == 0,
        case != 0 && case != 15 ==> 1 <= case_table(case).len() <= 2,
        forall|i: int| 0 <= i < case_table(case).len() ==> (#[trigger] case_table(case)[i]).valid(),
{
}

/// The case of a cell lies among the sixteen; it is 0 exactly where every
/// corner is below the threshold and 15 exactly where none is.
pub proof fn lemma_cell_case_range(values: [i32; 4], threshold: int)
    ensures
        0 <= cell_case(values, threshold) < 16,
        cell_case(values, threshold) == 0 <==> (forall|k: int|
            0 <= k < 4 ==> (#[trigger] values[k]) < threshold),
        cell_case(values, threshold) == 15 <==> (forall|k: int|
            0 <= k < 4 ==> (#[trigger] values[k]) >= threshold),
{
    if cell_case(values, threshold) != 0 {
        assert(values[0] >= threshold || values[1] >= threshold || values[2] >= threshold
            || values[3] >= threshold);
    }
    if cell_case(values, threshold) != 15 {
        assert(values[0] < threshold || values[1] < threshold || values[2] < threshold
            || values[3] < threshold);
    }
}

} // verus!
