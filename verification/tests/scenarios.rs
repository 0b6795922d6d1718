use path_partitioner::geometry::Vector2;
use path_partitioner::mesh::{MeshLibrary, NO_CONTROL_POINT_VERTEX};
use path_partitioner::partitioner::{Endpoint, FillRule, Partitioner, Subpath, NO_CONTROL_POINT};

fn pt(x: i64, y: i64) -> Vector2 {
    Vector2 { x, y }
}

fn endpoint(x: i64, y: i64, control_point_index: u32, subpath_index: u32) -> Endpoint {
    Endpoint { position: pt(x, y), control_point_index, subpath_index }
}

fn one_subpath(n: u32) -> Vec<Subpath> {
    vec![Subpath { first_endpoint_index: 0, last_endpoint_index: n }]
}

fn partition_one(
    endpoints: Vec<Endpoint>,
    control_points: Vec<Vector2>,
    subpaths: Vec<Subpath>,
    fill_rule: FillRule,
) -> MeshLibrary {
    let n_subpaths = subpaths.len() as u32;
    let mut partitioner = Partitioner::new(MeshLibrary::new());
    partitioner.init_with_raw_data(endpoints, control_points, subpaths);
    partitioner.set_fill_rule(fill_rule);
    partitioner.partition(0, 0, n_subpaths);
    partitioner.into_library()
}

fn tri_cross(a: Vector2, b: Vector2, c: Vector2) -> i128 {
    (b.x - a.x) as i128 * (c.y - a.y) as i128 - (b.y - a.y) as i128 * (c.x - a.x) as i128
}

/// Twice the summed unsigned area of the interior triangles.
fn double_interior_area(library: &MeshLibrary) -> i128 {
    let indices = &library.cover_indices.interior_indices;
    assert_eq!(indices.len() % 3, 0);
    let mut total: i128 = 0;
    let mut i = 0;
    while i + 2 < indices.len() + 1 {
        let a = library.b_vertex_positions[indices[i]];
        let b = library.b_vertex_positions[indices[i + 1]];
        let c = library.b_vertex_positions[indices[i + 2]];
        let cross = tri_cross(a, b, c);
        total += if cross < 0 { -cross } else { cross };
        i += 3;
    }
    total
}

/// The universal output invariants: parallel vertex arrays, every stored
/// index in range, and every B-quad's vertical alignment.
fn check_universal(library: &MeshLibrary) {
    let n = library.b_vertex_positions.len();
    assert_eq!(library.b_vertex_path_ids.len(), n);
    assert_eq!(library.b_vertex_loop_blinn_data.len(), n);
    for &index in &library.cover_indices.interior_indices {
        assert!(index < n);
    }
    for &index in &library.cover_indices.curve_indices {
        assert!(index < n);
    }
    for quad in &library.b_quads {
        assert!(quad.upper_left_vertex_index < n);
        assert!(quad.upper_right_vertex_index < n);
        assert!(quad.lower_left_vertex_index < n);
        assert!(quad.lower_right_vertex_index < n);
        if quad.upper_control_point_vertex_index != NO_CONTROL_POINT_VERTEX {
            assert!(quad.upper_control_point_vertex_index < n);
        }
        if quad.lower_control_point_vertex_index != NO_CONTROL_POINT_VERTEX {
            assert!(quad.lower_control_point_vertex_index < n);
        }
        let upper_left = library.b_vertex_positions[quad.upper_left_vertex_index];
        let lower_left = library.b_vertex_positions[quad.lower_left_vertex_index];
        let upper_right = library.b_vertex_positions[quad.upper_right_vertex_index];
        let lower_right = library.b_vertex_positions[quad.lower_right_vertex_index];
        assert_eq!(upper_right.x, lower_right.x);
        assert_eq!(upper_left.x, lower_left.x);
        assert!(upper_left.x <= upper_right.x);
    }
}

#[test]
fn unit_square_one_b_quad_area_one() {
    let endpoints = vec![
        endpoint(0, 0, NO_CONTROL_POINT, 0),
        endpoint(1, 0, NO_CONTROL_POINT, 0),
        endpoint(1, 1, NO_CONTROL_POINT, 0),
        endpoint(0, 1, NO_CONTROL_POINT, 0),
    ];
    let library = partition_one(endpoints, vec![], one_subpath(4), FillRule::Winding);
    check_universal(&library);
    assert_eq!(library.b_quads.len(), 1);
    assert_eq!(library.cover_indices.interior_indices.len(), 6);
    assert_eq!(library.cover_indices.curve_indices.len(), 0);
    assert_eq!(double_interior_area(&library), 2);
}

#[test]
fn right_triangle_one_b_quad_area_two() {
    let endpoints = vec![
        endpoint(0, 0, NO_CONTROL_POINT, 0),
        endpoint(2, 0, NO_CONTROL_POINT, 0),
        endpoint(0, 2, NO_CONTROL_POINT, 0),
    ];
    let library = partition_one(endpoints, vec![], one_subpath(3), FillRule::Winding);
    check_universal(&library);
    assert_eq!(library.b_quads.len(), 1);
    assert_eq!(library.cover_indices.interior_indices.len(), 6);
    assert_eq!(library.cover_indices.curve_indices.len(), 0);
    assert_eq!(double_interior_area(&library), 4);
}

#[test]
fn quadratic_arch_one_convex_curve_triangle() {
    let endpoints = vec![
        endpoint(0, 0, NO_CONTROL_POINT, 0),
        endpoint(2, 0, 0, 0),
    ];
    let control_points = vec![pt(1, 1)];
    let library = partition_one(endpoints, control_points, one_subpath(2), FillRule::Winding);
    check_universal(&library);
    assert_eq!(library.b_quads.len(), 1);
    assert_eq!(library.cover_indices.curve_indices.len(), 3);
    let control_index = library.cover_indices.curve_indices[0];
    let data = library.b_vertex_loop_blinn_data[control_index];
    assert_eq!(data.sign, -1);
    assert_eq!((data.uv_u, data.uv_v), (1, 0));
}

#[test]
fn figure_eight_crossing_detected() {
    let endpoints = vec![
        endpoint(0, 0, NO_CONTROL_POINT, 0),
        endpoint(2, 2, NO_CONTROL_POINT, 0),
        endpoint(0, 2, NO_CONTROL_POINT, 0),
        endpoint(2, 0, NO_CONTROL_POINT, 0),
    ];
    let library = partition_one(endpoints, vec![], one_subpath(4), FillRule::EvenOdd);
    check_universal(&library);
    assert_eq!(library.b_quads.len(), 4);
    assert_eq!(double_interior_area(&library), 4);
    assert!(library.b_vertex_positions.iter().any(|p| p.x == 1 && p.y == 1));
}

#[test]
fn stacked_triangles_two_b_quad_streams() {
    let endpoints = vec![
        endpoint(0, 0, NO_CONTROL_POINT, 0),
        endpoint(2, 0, NO_CONTROL_POINT, 0),
        endpoint(0, 2, NO_CONTROL_POINT, 0),
        endpoint(0, 10, NO_CONTROL_POINT, 1),
        endpoint(2, 10, NO_CONTROL_POINT, 1),
        endpoint(0, 12, NO_CONTROL_POINT, 1),
    ];
    let subpaths = vec![
        Subpath { first_endpoint_index: 0, last_endpoint_index: 3 },
        Subpath { first_endpoint_index: 3, last_endpoint_index: 6 },
    ];
    let library = partition_one(endpoints, vec![], subpaths, FillRule::Winding);
    check_universal(&library);
    assert_eq!(library.b_quads.len(), 2);
    assert_eq!(double_interior_area(&library), 8);
}

#[test]
fn concentric_squares_annulus_same_under_both_rules() {
    // Outer ring and inner ring wound in opposite directions.
    let endpoints = |subpath_base: u32| {
        vec![
            endpoint(0, 0, NO_CONTROL_POINT, subpath_base),
            endpoint(4, 0, NO_CONTROL_POINT, subpath_base),
            endpoint(4, 4, NO_CONTROL_POINT, subpath_base),
            endpoint(0, 4, NO_CONTROL_POINT, subpath_base),
            endpoint(1, 1, NO_CONTROL_POINT, subpath_base + 1),
            endpoint(1, 3, NO_CONTROL_POINT, subpath_base + 1),
            endpoint(3, 3, NO_CONTROL_POINT, subpath_base + 1),
            endpoint(3, 1, NO_CONTROL_POINT, subpath_base + 1),
        ]
    };
    let subpaths = || {
        vec![
            Subpath { first_endpoint_index: 0, last_endpoint_index: 4 },
            Subpath { first_endpoint_index: 4, last_endpoint_index: 8 },
        ]
    };
    let winding = partition_one(endpoints(0), vec![], subpaths(), FillRule::Winding);
    let even_odd = partition_one(endpoints(0), vec![], subpaths(), FillRule::EvenOdd);
    check_universal(&winding);
    check_universal(&even_odd);
    assert_eq!(double_interior_area(&winding), 24);
    assert_eq!(double_interior_area(&even_odd), 24);
}

#[test]
fn nested_same_rotation_squares_fill_rules_differ() {
    // Both rings wound the same way: the winding rule fills the hole, the
    // even-odd rule leaves it open.
    let endpoints = vec![
        endpoint(0, 0, NO_CONTROL_POINT, 0),
        endpoint(4, 0, NO_CONTROL_POINT, 0),
        endpoint(4, 4, NO_CONTROL_POINT, 0),
        endpoint(0, 4, NO_CONTROL_POINT, 0),
        endpoint(1, 1, NO_CONTROL_POINT, 1),
        endpoint(3, 1, NO_CONTROL_POINT, 1),
        endpoint(3, 3, NO_CONTROL_POINT, 1),
        endpoint(1, 3, NO_CONTROL_POINT, 1),
    ];
    let subpaths = vec![
        Subpath { first_endpoint_index: 0, last_endpoint_index: 4 },
        Subpath { first_endpoint_index: 4, last_endpoint_index: 8 },
    ];
    let winding = partition_one(endpoints.clone(), vec![], subpaths.clone(), FillRule::Winding);
    let even_odd = partition_one(endpoints, vec![], subpaths, FillRule::EvenOdd);
    check_universal(&winding);
    check_universal(&even_odd);
    assert_eq!(double_interior_area(&winding), 32);
    assert_eq!(double_interior_area(&even_odd), 24);
}

#[test]
fn concave_curve_forces_hull_subdivision() {
    // The top boundary is a concave curve whose control point reaches below
    // the bottom boundary's chord, so the emitter must subdivide before the
    // hulls are disjoint; the bottom boundary bulges slightly so both
    // boundaries are curves.
    let endpoints = vec![
        endpoint(0, 0, NO_CONTROL_POINT, 0),
        endpoint(8, 0, 0, 0),
        endpoint(8, 4, NO_CONTROL_POINT, 0),
        endpoint(0, 4, 1, 0),
    ];
    let control_points = vec![pt(4, 6), pt(4, 5)];
    let library = partition_one(endpoints, control_points, one_subpath(4), FillRule::Winding);
    check_universal(&library);
    assert!(library.b_quads.len() >= 2);
    assert!(library.b_quads.len() <= 512);
    assert!(library.cover_indices.curve_indices.len() >= 3);
}
