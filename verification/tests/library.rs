use path_partitioner::geometry::Vector2;
use path_partitioner::mesh::{
    BQuad, BVertexKind, BVertexLoopBlinnData, MeshLibrary, NO_CONTROL_POINT_VERTEX,
};
use path_partitioner::events::{EventQueue, Point};
use path_partitioner::partitioner::{
    ActiveEdge, BQuadEmissionResult, Endpoint, FillRule, Partitioner, Subpath, NO_CONTROL_POINT,
};

fn pt(x: i64, y: i64) -> Vector2 {
    Vector2 { x, y }
}

fn endpoint(x: i64, y: i64, control_point_index: u32, subpath_index: u32) -> Endpoint {
    Endpoint { position: pt(x, y), control_point_index, subpath_index }
}

fn triangle_inputs() -> (Vec<Endpoint>, Vec<Vector2>, Vec<Subpath>) {
    (
        vec![
            endpoint(0, 0, NO_CONTROL_POINT, 0),
            endpoint(2, 0, NO_CONTROL_POINT, 0),
            endpoint(0, 2, NO_CONTROL_POINT, 0),
        ],
        vec![],
        vec![Subpath { first_endpoint_index: 0, last_endpoint_index: 3 }],
    )
}

#[test]
fn mesh_library_push_and_snapshot() {
    let mut library = MeshLibrary::new();
    let before = library.snapshot_lengths();
    assert_eq!(before.b_vertex_positions, 0);
    let index = library.push_vertex(
        pt(3, 4),
        7,
        BVertexLoopBlinnData::new(BVertexKind::Endpoint0),
    );
    assert_eq!(index, 0);
    let after = library.snapshot_lengths();
    assert_eq!(after.b_vertex_positions, 1);
    assert_eq!(library.b_vertex_path_ids[0], 7);
    assert_eq!(library.b_vertex_positions[0], pt(3, 4));
}

#[test]
fn loop_blinn_data_of_each_kind() {
    let endpoint0 = BVertexLoopBlinnData::new(BVertexKind::Endpoint0);
    assert_eq!((endpoint0.uv_u, endpoint0.uv_v, endpoint0.sign), (0, 0, 0));
    let endpoint1 = BVertexLoopBlinnData::new(BVertexKind::Endpoint1);
    assert_eq!((endpoint1.uv_u, endpoint1.uv_v, endpoint1.sign), (2, 2, 0));
    let concave = BVertexLoopBlinnData::new(BVertexKind::ConcaveControlPoint);
    assert_eq!((concave.uv_u, concave.uv_v, concave.sign), (1, 0, 1));
    let convex = BVertexLoopBlinnData::new(BVertexKind::ConvexControlPoint);
    assert_eq!((convex.uv_u, convex.uv_v, convex.sign), (1, 0, -1));
}

#[test]
fn control_point_classification_by_side_and_bottom() {
    // A control point above the chord on a downward-growing-`y` grid.
    let above = BVertexLoopBlinnData::control_point(&pt(0, 0), &pt(1, 1), &pt(2, 0), true);
    assert_eq!(above.sign, -1);
    let same_as_upper = BVertexLoopBlinnData::control_point(&pt(0, 0), &pt(1, 1), &pt(2, 0), false);
    assert_eq!(same_as_upper.sign, 1);
}

#[test]
fn b_quad_emission_result_cases() {
    assert_eq!(BQuadEmissionResult::new(3, 5, 5), BQuadEmissionResult::NoBQuadEmitted);
    assert_eq!(BQuadEmissionResult::new(3, 3, 5), BQuadEmissionResult::BQuadEmittedBelow);
    assert_eq!(BQuadEmissionResult::new(5, 3, 5), BQuadEmissionResult::BQuadEmittedAbove);
    assert_eq!(BQuadEmissionResult::new(4, 3, 5), BQuadEmissionResult::BQuadEmittedAround);
}

#[test]
fn active_edge_parity_and_winding() {
    let mut edge = ActiveEdge::default();
    assert_eq!(edge.control_point_vertex_index, NO_CONTROL_POINT_VERTEX);
    assert!(!edge.parity);
    assert_eq!(edge.winding_number(), -1);
    edge.toggle_parity();
    assert!(edge.parity);
    edge.left_to_right = true;
    assert_eq!(edge.winding_number(), 1);
}

#[test]
fn b_quad_new_keeps_indices() {
    let quad = BQuad::new(0, NO_CONTROL_POINT_VERTEX, 2, 3, 4, 5);
    assert_eq!(quad.upper_left_vertex_index, 0);
    assert_eq!(quad.upper_control_point_vertex_index, NO_CONTROL_POINT_VERTEX);
    assert_eq!(quad.upper_right_vertex_index, 2);
    assert_eq!(quad.lower_left_vertex_index, 3);
    assert_eq!(quad.lower_control_point_vertex_index, 4);
    assert_eq!(quad.lower_right_vertex_index, 5);
}

#[test]
fn partition_returns_windows_of_this_call() {
    let (endpoints, control_points, subpaths) = triangle_inputs();
    let mut partitioner = Partitioner::new(MeshLibrary::new());
    partitioner.init_with_raw_data(endpoints, control_points, subpaths);
    let ranges = partitioner.partition(9, 0, 1);
    assert_eq!(ranges.b_vertex_positions.start, 0);
    assert_eq!(
        ranges.b_vertex_positions.end,
        partitioner.library().b_vertex_positions.len()
    );
    assert_eq!(ranges.b_quads.start, 0);
    assert_eq!(ranges.b_quads.end, partitioner.library().b_quads.len());
    for &path_id in &partitioner.library().b_vertex_path_ids {
        assert_eq!(path_id, 9);
    }
}

#[test]
fn sequential_partitions_accumulate() {
    // Two disjoint triangles, one subpath each, partitioned one at a time.
    let endpoints = vec![
        endpoint(0, 0, NO_CONTROL_POINT, 0),
        endpoint(2, 0, NO_CONTROL_POINT, 0),
        endpoint(0, 2, NO_CONTROL_POINT, 0),
        endpoint(0, 10, NO_CONTROL_POINT, 1),
        endpoint(2, 10, NO_CONTROL_POINT, 1),
        endpoint(0, 12, NO_CONTROL_POINT, 1),
    ];
    let subpaths = vec![
        Subpath { first_endpoint_index: 0, last_endpoint_index: 3 },
        Subpath { first_endpoint_index: 3, last_endpoint_index: 6 },
    ];
    let mut partitioner = Partitioner::new(MeshLibrary::new());
    partitioner.init_with_raw_data(endpoints, vec![], subpaths);
    let first = partitioner.partition(1, 0, 1);
    let second = partitioner.partition(2, 1, 2);
    assert_eq!(first.b_quads.start, 0);
    assert_eq!(second.b_quads.start, first.b_quads.end);
    assert_eq!(second.b_quads.end, partitioner.library().b_quads.len());
    assert_eq!(second.b_quads.end, 2 * first.b_quads.end);
}

#[test]
fn every_endpoint_visited_exactly_once() {
    let (endpoints, control_points, subpaths) = triangle_inputs();
    let endpoint_count = endpoints.len();
    let mut partitioner = Partitioner::new(MeshLibrary::new());
    partitioner.init_with_raw_data(endpoints, control_points, subpaths);
    for i in 0..endpoint_count {
        assert!(!partitioner.visited_points.get(i));
    }
    partitioner.partition(0, 0, 1);
    for i in 0..endpoint_count {
        assert!(partitioner.visited_points.get(i));
    }
}

#[test]
fn empty_input_produces_empty_output() {
    let mut partitioner = Partitioner::new(MeshLibrary::new());
    partitioner.init_with_raw_data(vec![], vec![], vec![]);
    let ranges = partitioner.partition(0, 0, 0);
    assert_eq!(ranges.b_quads.start, 0);
    assert_eq!(ranges.b_quads.end, 0);
    assert_eq!(partitioner.library().b_vertex_positions.len(), 0);
}

#[test]
fn single_endpoint_subpath_terminates_without_output() {
    let endpoints = vec![endpoint(5, 5, NO_CONTROL_POINT, 0)];
    let subpaths = vec![Subpath { first_endpoint_index: 0, last_endpoint_index: 1 }];
    let mut partitioner = Partitioner::new(MeshLibrary::new());
    partitioner.init_with_raw_data(endpoints, vec![], subpaths);
    partitioner.partition(0, 0, 1);
    assert_eq!(partitioner.library().b_quads.len(), 0);
    assert!(partitioner.visited_points.get(0));
}

#[test]
fn event_queue_pops_in_sweep_order() {
    let mut queue = EventQueue::new();
    queue.push(Point { position: pt(2, 0), endpoint_index: 0 });
    queue.push(Point { position: pt(0, 3), endpoint_index: 1 });
    queue.push(Point { position: pt(0, 1), endpoint_index: 2 });
    let first = queue.peek_min().unwrap();
    assert_eq!((first.position, first.endpoint_index), (pt(0, 1), 2));
    queue.pop_min();
    let second = queue.peek_min().unwrap();
    assert_eq!((second.position, second.endpoint_index), (pt(0, 3), 1));
    queue.replace_min(Point { position: pt(9, 9), endpoint_index: 3 });
    let third = queue.peek_min().unwrap();
    assert_eq!(third.endpoint_index, 0);
}

#[test]
fn partitioning_twice_is_byte_identical() {
    let run = || {
        let endpoints = vec![
            endpoint(0, 0, NO_CONTROL_POINT, 0),
            endpoint(8, 0, 0, 0),
            endpoint(8, 4, NO_CONTROL_POINT, 0),
            endpoint(0, 4, NO_CONTROL_POINT, 0),
        ];
        let control_points = vec![pt(4, 6)];
        let subpaths = vec![Subpath { first_endpoint_index: 0, last_endpoint_index: 4 }];
        let mut partitioner = Partitioner::new(MeshLibrary::new());
        partitioner.init_with_raw_data(endpoints, control_points, subpaths);
        partitioner.set_fill_rule(FillRule::EvenOdd);
        partitioner.partition(3, 0, 1);
        partitioner.into_library()
    };
    let first = run();
    let second = run();
    assert_eq!(first.b_vertex_positions, second.b_vertex_positions);
    assert_eq!(first.b_vertex_path_ids, second.b_vertex_path_ids);
    assert_eq!(
        first.b_vertex_loop_blinn_data.len(),
        second.b_vertex_loop_blinn_data.len()
    );
    for i in 0..first.b_vertex_loop_blinn_data.len() {
        assert_eq!(first.b_vertex_loop_blinn_data[i], second.b_vertex_loop_blinn_data[i]);
    }
    assert_eq!(
        first.cover_indices.interior_indices,
        second.cover_indices.interior_indices
    );
    assert_eq!(first.cover_indices.curve_indices, second.cover_indices.curve_indices);
    assert_eq!(first.b_quads.len(), second.b_quads.len());
    for i in 0..first.b_quads.len() {
        assert_eq!(first.b_quads[i], second.b_quads[i]);
    }
}
