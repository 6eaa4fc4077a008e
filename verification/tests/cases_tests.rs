use marching_squares::cases::VertexRef::{Corner, Edge};
use marching_squares::cases::{classify, triangle_table, TriangleRef, VertexRef};

#[test]
fn case_has_one_bit_per_corner() {
    assert_eq!(classify(&[-1, -1, -1, -1], 0), 0);
    assert_eq!(classify(&[1, -1, -1, -1], 0), 1);
    assert_eq!(classify(&[-1, 1, -1, -1], 0), 2);
    assert_eq!(classify(&[-1, -1, 1, -1], 0), 4);
    assert_eq!(classify(&[-1, -1, -1, 1], 0), 8);
    assert_eq!(classify(&[1, 1, 1, 1], 0), 15);
    assert_eq!(classify(&[1, -1, 1, -1], 0), 5);
    assert_eq!(classify(&[-1, 1, 1, 1], 0), 14);
}

#[test]
fn value_equal_to_threshold_counts_as_inside() {
    assert_eq!(classify(&[0, 0, 0, 0], 0), 15);
    assert_eq!(classify(&[7, 6, 7, 8], 7), 13);
    assert_eq!(classify(&[i32::MIN, i32::MAX, 0, 0], i32::MAX), 2);
    assert_eq!(classify(&[i32::MIN, i32::MIN, i32::MIN, i32::MIN], i32::MIN), 15);
}

#[test]
fn case_changes_with_the_threshold() {
    let values = [10, 20, 30, 40];
    assert_eq!(classify(&values, 5), 15);
    assert_eq!(classify(&values, 15), 14);
    assert_eq!(classify(&values, 25), 12);
    assert_eq!(classify(&values, 35), 8);
    assert_eq!(classify(&values, 45), 0);
}

#[test]
fn uniform_cases_have_no_triangle() {
    assert!(triangle_table(0).is_empty());
    assert!(triangle_table(15).is_empty());
}

#[test]
fn mixed_cases_have_one_or_two_triangles() {
    for case in 1..15u8 {
        let count = triangle_table(case).len();
        let corners_inside = case.count_ones();
        let expected = if corners_inside == 1 { 1 } else { 2 };
        assert_eq!(count, expected, "case {}", case);
    }
}

#[test]
fn table_entries_for_each_kind_of_case() {
    assert_eq!(
        triangle_table(1),
        vec![TriangleRef { a: Corner(0), b: Edge(0), c: Edge(3) }]
    );
    assert_eq!(
        triangle_table(6),
        vec![
            TriangleRef { a: Corner(1), b: Corner(2), c: Edge(2) },
            TriangleRef { a: Corner(1), b: Edge(2), c: Edge(0) },
        ]
    );
    assert_eq!(
        triangle_table(10),
        vec![
            TriangleRef { a: Corner(1), b: Edge(1), c: Edge(0) },
            TriangleRef { a: Corner(3), b: Edge(3), c: Edge(2) },
        ]
    );
    assert_eq!(
        triangle_table(7),
        vec![
            TriangleRef { a: Corner(0), b: Corner(1), c: Corner(2) },
            TriangleRef { a: Edge(3), b: Corner(1), c: Edge(2) },
        ]
    );
}

#[test]
fn table_names_only_inside_corners_and_crossed_edges() {
    for case in 0..16u8 {
        for triangle in triangle_table(case) {
            for vertex in [triangle.a, triangle.b, triangle.c] {
                match vertex {
                    VertexRef::Corner(k) => {
                        assert!(k < 4);
                        assert!(case & (1 << k) != 0, "case {} names corner {}", case, k);
                    }
                    VertexRef::Edge(k) => {
                        assert!(k < 4);
                        let start = (case >> k) & 1;
                        let end = (case >> ((k + 1) % 4)) & 1;
                        assert_ne!(start, end, "case {} names edge {}", case, k);
                    }
                }
            }
        }
    }
}
