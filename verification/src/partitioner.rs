//! The plane-sweep partitioner.
//!
//! A vertical sweep line moves over the input path from left to right. Each
//! input endpoint is an event; events are handled smallest-first. Min events
//! open two active edges, Regular events advance one, Max events close two.
//! Between events, B-quads are emitted between pairs of active edges chosen
//! by the fill rule, with recursive subdivision until the upper and lower
//! convex hulls are disjoint.

use vstd::prelude::*;
use crate::geometry::{
    Vector2, CurveParam, wf_pos, wf_coord, wf_param, cross_from, lerp_coord,
    sample_curve_coord, solve_line_t_for_x, solve_curve_t_for_x, line_line_intersect,
    lerp_val, curve_val, line_t_num, line_t_den, curve_t_num, curve_t_den, line_intersection,
    cross_val,
};
use crate::mesh::{
    MeshLibrary, MeshLibraryIndexRanges, BQuad, BVertexKind, BVertexLoopBlinnData,
    NO_CONTROL_POINT_VERTEX,
};
use crate::events::{Point, EventQueue, sweep_le};
use crate::visited::VisitedSet;

verus! {

/// Marks an endpoint that has no incoming control point: the edge from the
/// previous endpoint is a straight line.
pub const NO_CONTROL_POINT: u32 = u32::MAX;

/// Recursion cap of the hull-disjointness subdivision.
pub const MAX_B_QUAD_SUBDIVISIONS: u8 = 8;

/// One input endpoint. The optional control point defines a quadratic curve
/// from the previous endpoint of the subpath through it to this endpoint.
#[derive(Clone, Copy, PartialEq, Eq, Structural, Debug)]
pub struct Endpoint {
    pub position: Vector2,
    pub control_point_index: u32,
    pub subpath_index: u32,
}

/// A half-open range of endpoints forming one closed subpath.
#[derive(Clone, Copy, PartialEq, Eq, Structural, Debug)]
pub struct Subpath {
    pub first_endpoint_index: u32,
    pub last_endpoint_index: u32,
}

/// The fill rule deciding which regions between edges are inside the path.
#[derive(Clone, Copy, PartialEq, Eq, Structural, Debug)]
pub enum FillRule {
    EvenOdd,
    Winding,
}

/// How an endpoint relates to its two subpath neighbours in sweep order.
#[derive(Clone, Copy, PartialEq, Eq, Structural, Debug)]
pub enum EndpointClass {
    Min,
    Regular,
    Max,
}

/// An edge currently crossed by the sweep line.
#[derive(Clone, Copy, PartialEq, Eq, Structural, Debug)]
pub struct ActiveEdge {
    /// The mesh vertex at which the edge currently begins.
    pub left_vertex_index: usize,
    /// The mesh vertex of the control point, or `NO_CONTROL_POINT_VERTEX`.
    pub control_point_vertex_index: usize,
    /// The input endpoint toward which the edge extends.
    pub right_endpoint_index: u32,
    /// Whether the path traverses this edge in the direction of growing `x`.
    pub left_to_right: bool,
    /// Alternates the Endpoint0 / Endpoint1 labels along the edge.
    pub parity: bool,
}

impl Default for ActiveEdge {
    fn default() -> (r: ActiveEdge)
        ensures
            r == (ActiveEdge {
                left_vertex_index: 0,
                control_point_vertex_index: NO_CONTROL_POINT_VERTEX,
                right_endpoint_index: 0,
                left_to_right: false,
                parity: false,
            }),
    {
        ActiveEdge {
            left_vertex_index: 0,
            control_point_vertex_index: NO_CONTROL_POINT_VERTEX,
            right_endpoint_index: 0,
            left_to_right: false,
            parity: false,
        }
    }
}

impl ActiveEdge {
    /// Flips the Endpoint0 / Endpoint1 label, as happens at every cut.
    pub fn toggle_parity(&mut self)
        ensures
            final(self).parity == !old(self).parity,
            final(self).left_vertex_index == old(self).left_vertex_index,
            final(self).control_point_vertex_index == old(self).control_point_vertex_index,
            final(self).right_endpoint_index == old(self).right_endpoint_index,
            final(self).left_to_right == old(self).left_to_right,
    {
        self.parity = !self.parity;
    }

    /// The label the next vertex cut from this edge receives.
    pub fn endpoint_kind(&self) -> (r: BVertexKind)
        ensures
            r == if !self.parity {
                BVertexKind::Endpoint0
            } else {
                BVertexKind::Endpoint1
            },
    {
        if !self.parity {
            BVertexKind::Endpoint0
        } else {
            BVertexKind::Endpoint1
        }
    }

    /// The edge's contribution to the winding number: +1 when the path runs
    /// left to right across the sweep line, -1 otherwise.
    pub fn winding_number(&self) -> (r: i32)
        ensures
            r == if self.left_to_right {
                1int
            } else {
                -1int
            },
    {
        if self.left_to_right {
            1
        } else {
            -1
        }
    }
}

/// The piece of an active edge cut off by a vertical line: its old left
/// vertex, the control point of the cut-off piece (or none), and the new
/// vertex on the cutting line.
#[derive(Clone, Copy, PartialEq, Eq, Structural, Debug)]
pub struct SubdividedActiveEdge {
    pub left_curve_left: usize,
    pub left_curve_control_point: usize,
    pub middle_point: usize,
}

/// The shape of a subdivided edge: a line, or a curve bulging away from or
/// toward the region it bounds.
#[derive(Clone, Copy, PartialEq, Eq, Structural, Debug)]
pub enum Shape {
    Flat,
    Convex,
    Concave,
}

impl SubdividedActiveEdge {
    /// The shape this piece has, read off its control point's Loop-Blinn
    /// sign.
    pub open spec fn shape_spec(self, b_vertex_loop_blinn_data: Seq<BVertexLoopBlinnData>) -> Shape {
        if self.left_curve_control_point == NO_CONTROL_POINT_VERTEX {
            Shape::Flat
        } else if b_vertex_loop_blinn_data[self.left_curve_control_point as int].sign < 0 {
            Shape::Convex
        } else {
            Shape::Concave
        }
    }

    pub fn shape(&self, b_vertex_loop_blinn_data: &Vec<BVertexLoopBlinnData>) -> (r: Shape)
        requires
            self.left_curve_control_point != NO_CONTROL_POINT_VERTEX
                ==> self.left_curve_control_point < b_vertex_loop_blinn_data@.len(),
        ensures
            r == self.shape_spec(b_vertex_loop_blinn_data@),
    {
        if self.left_curve_control_point == NO_CONTROL_POINT_VERTEX {
            Shape::Flat
        } else if b_vertex_loop_blinn_data[self.left_curve_control_point].sign < 0 {
            Shape::Convex
        } else {
            Shape::Concave
        }
    }
}

/// The active edges whose right endpoint matches the current event.
#[derive(Clone, Copy, PartialEq, Eq, Structural, Debug)]
pub struct MatchingActiveEdges {
    pub first: usize,
    pub second: usize,
    pub count: u8,
}

/// Where B-quads were emitted relative to the active edge that asked.
#[derive(Clone, Copy, PartialEq, Eq, Structural, Debug)]
pub enum BQuadEmissionResult {
    NoBQuadEmitted,
    BQuadEmittedBelow,
    BQuadEmittedAbove,
    BQuadEmittedAround,
}

impl BQuadEmissionResult {
    pub fn new(
        active_edge_index: usize,
        upper_active_edge_index: usize,
        lower_active_edge_index: usize,
    ) -> (r: BQuadEmissionResult)
        ensures
            r == if upper_active_edge_index == lower_active_edge_index {
                BQuadEmissionResult::NoBQuadEmitted
            } else if upper_active_edge_index == active_edge_index {
                BQuadEmissionResult::BQuadEmittedBelow
            } else if lower_active_edge_index == active_edge_index {
                BQuadEmissionResult::BQuadEmittedAbove
            } else {
                BQuadEmissionResult::BQuadEmittedAround
            },
    {
        if upper_active_edge_index == lower_active_edge_index {
            BQuadEmissionResult::NoBQuadEmitted
        } else if upper_active_edge_index == active_edge_index {
            BQuadEmissionResult::BQuadEmittedBelow
        } else if lower_active_edge_index == active_edge_index {
            BQuadEmissionResult::BQuadEmittedAbove
        } else {
            BQuadEmissionResult::BQuadEmittedAround
        }
    }
}

/// Which side of a B-quad an edge is cut for.
#[derive(Clone, Copy, PartialEq, Eq, Structural, Debug)]
pub enum SubdivisionType {
    Upper,
    Inside,
    Lower,
}

/// The input arrays are consistent: every endpoint lies on the grid, belongs
/// to the subpath it names and to no other (subpath ranges do not overlap),
/// and references an existing control point or none; every subpath is a
/// range within the endpoint array.
pub open spec fn inputs_wf(
    endpoints: Seq<Endpoint>,
    control_points: Seq<Vector2>,
    subpaths: Seq<Subpath>,
) -> bool {
    &&& forall|i: int|
        0 <= i < endpoints.len() ==> {
            let e = #[trigger] endpoints[i];
            &&& wf_pos(e.position)
            &&& e.subpath_index < subpaths.len()
            &&& (e.control_point_index == NO_CONTROL_POINT || e.control_point_index
                < control_points.len())
            &&& subpaths[e.subpath_index as int].first_endpoint_index <= i
            &&& i < subpaths[e.subpath_index as int].last_endpoint_index
        }
    &&& forall|s: int, i: int|
        #![trigger subpaths[s], endpoints[i]]
        0 <= s < subpaths.len() && 0 <= i < endpoints.len() && s != endpoints[i].subpath_index
            ==> !(subpaths[s].first_endpoint_index <= i < subpaths[s].last_endpoint_index)
    &&& forall|s: int|
        0 <= s < subpaths.len() ==> {
            let sp = #[trigger] subpaths[s];
            sp.first_endpoint_index <= sp.last_endpoint_index && sp.last_endpoint_index
                <= endpoints.len()
        }
    &&& forall|i: int| 0 <= i < control_points.len() ==> wf_pos(#[trigger] control_points[i])
}

/// An active edge's references are in range for the given mesh and input
/// sizes.
pub open spec fn edge_wf(e: ActiveEdge, n_vertices: nat, n_endpoints: nat) -> bool {
    &&& e.left_vertex_index < n_vertices
    &&& (e.control_point_vertex_index != NO_CONTROL_POINT_VERTEX ==> e.control_point_vertex_index
        < n_vertices)
    &&& e.right_endpoint_index < n_endpoints
}

/// The partitioner: input arrays, output library, and sweep state.
pub struct Partitioner {
    pub endpoints: Vec<Endpoint>,
    pub control_points: Vec<Vector2>,
    pub subpaths: Vec<Subpath>,
    pub library: MeshLibrary,
    pub fill_rule: FillRule,
    pub heap: EventQueue,
    pub visited_points: VisitedSet,
    pub active_edges: Vec<ActiveEdge>,
    pub path_id: u16,
}

impl Partitioner {
    /// The partitioner's invariant: consistent inputs, a well-formed mesh,
    /// a visited flag per endpoint, and every queued event and active edge
    /// referring to existing endpoints and vertices.
    pub open spec fn wf(self) -> bool {
        &&& inputs_wf(self.endpoints@, self.control_points@, self.subpaths@)
        &&& self.library.wf()
        &&& self.visited_points@.len() == self.endpoints@.len()
        &&& forall|i: int|
            0 <= i < self.heap@.len() ==> (#[trigger] self.heap@[i]).endpoint_index
                < self.endpoints@.len()
        &&& forall|i: int|
            0 <= i < self.active_edges@.len() ==> edge_wf(
                #[trigger] self.active_edges@[i],
                self.library.b_vertex_positions@.len(),
                self.endpoints@.len(),
            )
    }

    /// Every pending event carries its endpoint's input position.
    pub open spec fn heap_well_positioned(self) -> bool {
        forall|j: int|
            0 <= j < self.heap@.len() ==> (#[trigger] self.heap@[j]).position == self.endpoints@[
                self.heap@[j].endpoint_index as int
            ].position
    }

    /// The inputs and configuration `a` and `b` agree on.
    pub open spec fn same_inputs(a: Partitioner, b: Partitioner) -> bool {
        &&& a.endpoints@ == b.endpoints@
        &&& a.control_points@ == b.control_points@
        &&& a.subpaths@ == b.subpaths@
        &&& a.fill_rule == b.fill_rule
    }

    /// A fresh partitioner that will append to `library`.
    pub fn new(library: MeshLibrary) -> (r: Partitioner)
        requires
            library.wf(),
        ensures
            r.wf(),
            r.library == library,
            r.endpoints@.len() == 0,
            r.control_points@.len() == 0,
            r.subpaths@.len() == 0,
            r.fill_rule == FillRule::Winding,
            r.path_id == 0,
            r.heap@.len() == 0,
            r.active_edges@.len() == 0,
    {
        Partitioner {
            endpoints: Vec::new(),
            control_points: Vec::new(),
            subpaths: Vec::new(),
            library,
            fill_rule: FillRule::Winding,
            heap: EventQueue::new(),
            visited_points: VisitedSet::with_len(0),
            active_edges: Vec::new(),
            path_id: 0,
        }
    }

    pub fn library(&self) -> (r: &MeshLibrary)
        ensures
            r == &self.library,
    {
        &self.library
    }

    pub fn library_mut(&mut self) -> (r: &mut MeshLibrary)
        ensures
            *r == old(self).library,
            final(self).library == *final(r),
            final(self).endpoints@ == old(self).endpoints@,
            final(self).control_points@ == old(self).control_points@,
            final(self).subpaths@ == old(self).subpaths@,
            final(self).fill_rule == old(self).fill_rule,
            final(self).heap@ == old(self).heap@,
            final(self).visited_points@ == old(self).visited_points@,
            final(self).active_edges@ == old(self).active_edges@,
            final(self).path_id == old(self).path_id,
    {
        &mut self.library
    }

    pub fn into_library(self) -> (r: MeshLibrary)
        ensures
            r == self.library,
    {
        self.library
    }

    /// Installs the input arrays for the following `partition` calls and
    /// resets the visited set. The event queue and the active-edge list are
    /// cleared as well, since both describe the previous inputs; `partition`
    /// clears them again before each sweep.
    pub fn init_with_raw_data(
        &mut self,
        new_endpoints: Vec<Endpoint>,
        new_control_points: Vec<Vector2>,
        new_subpaths: Vec<Subpath>,
    )
        requires
            old(self).wf(),
            inputs_wf(new_endpoints@, new_control_points@, new_subpaths@),
        ensures
            final(self).wf(),
            final(self).endpoints@ == new_endpoints@,
            final(self).control_points@ == new_control_points@,
            final(self).subpaths@ == new_subpaths@,
            final(self).library == old(self).library,
            final(self).fill_rule == old(self).fill_rule,
            final(self).visited_points@ == Seq::new(new_endpoints@.len(), |i: int| false),
            final(self).heap@.len() == 0,
            final(self).active_edges@.len() == 0,
    {
        let n = new_endpoints.len();
        self.endpoints = new_endpoints;
        self.control_points = new_control_points;
        self.subpaths = new_subpaths;
        self.heap.clear();
        self.active_edges.clear();
        self.visited_points = VisitedSet::with_len(n);
        proof {
            assert(self.visited_points@ =~= Seq::new(new_endpoints@.len(), |i: int| false));
        }
    }

    pub fn set_fill_rule(&mut self, new_fill_rule: FillRule)
        requires
            old(self).wf(),
        ensures
            final(self).wf(),
            final(self).fill_rule == new_fill_rule,
            final(self).endpoints@ == old(self).endpoints@,
            final(self).control_points@ == old(self).control_points@,
            final(self).subpaths@ == old(self).subpaths@,
            final(self).library == old(self).library,
    {
        self.fill_rule = new_fill_rule;
    }

    /// The endpoint before `endpoint_index`, wrapping inside its subpath.
    pub open spec fn prev_endpoint_spec(self, endpoint_index: u32) -> u32 {
        let subpath = self.subpaths@[self.endpoints@[endpoint_index as int].subpath_index as int];
        if endpoint_index > subpath.first_endpoint_index {
            (endpoint_index - 1) as u32
        } else {
            (subpath.last_endpoint_index - 1) as u32
        }
    }

    /// The endpoint after `endpoint_index`, wrapping inside its subpath.
    pub open spec fn next_endpoint_spec(self, endpoint_index: u32) -> u32 {
        let subpath = self.subpaths@[self.endpoints@[endpoint_index as int].subpath_index as int];
        if endpoint_index + 1 < subpath.last_endpoint_index {
            (endpoint_index + 1) as u32
        } else {
            subpath.first_endpoint_index
        }
    }

    /// The cyclic neighbour maps are mutually inverse: an endpoint is the
    /// successor of its predecessor and the predecessor of its successor,
    /// since both stay inside the endpoint's own subpath.
    pub proof fn lemma_neighbor_inverse(self, endpoint_index: u32)
        requires
            inputs_wf(self.endpoints@, self.control_points@, self.subpaths@),
            endpoint_index < self.endpoints@.len(),
        ensures
            self.prev_endpoint_spec(endpoint_index) < self.endpoints@.len(),
            self.next_endpoint_spec(endpoint_index) < self.endpoints@.len(),
            self.next_endpoint_spec(self.prev_endpoint_spec(endpoint_index)) == endpoint_index,
            self.prev_endpoint_spec(self.next_endpoint_spec(endpoint_index)) == endpoint_index,
    {
        let s = self.endpoints@[endpoint_index as int].subpath_index as int;
        let sp = self.subpaths@[s];
        assert(sp.first_endpoint_index <= endpoint_index < sp.last_endpoint_index);
        let p = self.prev_endpoint_spec(endpoint_index);
        let n = self.next_endpoint_spec(endpoint_index);
        assert(sp.first_endpoint_index <= p < sp.last_endpoint_index);
        assert(sp.first_endpoint_index <= n < sp.last_endpoint_index);
        assert(self.endpoints@[p as int].subpath_index == s) by {
            if self.endpoints@[p as int].subpath_index != s {
                assert(!(self.subpaths@[s].first_endpoint_index <= p < self.subpaths@[
                    s
                ].last_endpoint_index));
            }
        }
        assert(self.endpoints@[n as int].subpath_index == s) by {
            if self.endpoints@[n as int].subpath_index != s {
                assert(!(self.subpaths@[s].first_endpoint_index <= n < self.subpaths@[
                    s
                ].last_endpoint_index));
            }
        }
    }

    pub(crate) fn prev_endpoint_of(&self, endpoint_index: u32) -> (r: u32)
        requires
            self.wf(),
            endpoint_index < self.endpoints@.len(),
        ensures
            r == self.prev_endpoint_spec(endpoint_index),
            r < self.endpoints@.len(),
    {
        let endpoint = self.endpoints[endpoint_index as usize];
        let subpath = self.subpaths[endpoint.subpath_index as usize];
        if endpoint_index > subpath.first_endpoint_index {
            endpoint_index - 1
        } else {
            subpath.last_endpoint_index - 1
        }
    }

    pub(crate) fn next_endpoint_of(&self, endpoint_index: u32) -> (r: u32)
        requires
            self.wf(),
            endpoint_index < self.endpoints@.len(),
        ensures
            r == self.next_endpoint_spec(endpoint_index),
            r < self.endpoints@.len(),
    {
        let endpoint = self.endpoints[endpoint_index as usize];
        let subpath = self.subpaths[endpoint.subpath_index as usize];
        if endpoint_index + 1 < subpath.last_endpoint_index {
            endpoint_index + 1
        } else {
            subpath.first_endpoint_index
        }
    }

    /// The event for the given endpoint.
    pub(crate) fn create_point_from_endpoint(&self, endpoint_index: u32) -> (r: Point)
        requires
            self.wf(),
            endpoint_index < self.endpoints@.len(),
        ensures
            r.position == self.endpoints@[endpoint_index as int].position,
            r.endpoint_index == endpoint_index,
    {
        Point { position: self.endpoints[endpoint_index as usize].position, endpoint_index }
    }

    /// The control point on the curve that ends at `endpoint_index`.
    pub(crate) fn control_point_index_before_endpoint(&self, endpoint_index: u32) -> (r: u32)
        requires
            self.wf(),
            endpoint_index < self.endpoints@.len(),
        ensures
            r == self.endpoints@[endpoint_index as int].control_point_index,
    {
        self.endpoints[endpoint_index as usize].control_point_index
    }

    /// The control point on the curve that starts at `endpoint_index`.
    pub(crate) fn control_point_index_after_endpoint(&self, endpoint_index: u32) -> (r: u32)
        requires
            self.wf(),
            endpoint_index < self.endpoints@.len(),
        ensures
            r == self.endpoints@[self.next_endpoint_spec(endpoint_index) as int].control_point_index,
    {
        self.control_point_index_before_endpoint(self.next_endpoint_of(endpoint_index))
    }

    /// How `endpoint_index` compares to its neighbours in sweep order.
    pub open spec fn classify_endpoint_spec(self, endpoint_index: u32) -> EndpointClass {
        let point = Point {
            position: self.endpoints@[endpoint_index as int].position,
            endpoint_index,
        };
        let prev_index = self.prev_endpoint_spec(endpoint_index);
        let next_index = self.next_endpoint_spec(endpoint_index);
        let prev_point = Point {
            position: self.endpoints@[prev_index as int].position,
            endpoint_index: prev_index,
        };
        let next_point = Point {
            position: self.endpoints@[next_index as int].position,
            endpoint_index: next_index,
        };
        let prev_less = sweep_le(prev_point, point) && prev_point != point;
        let next_less = sweep_le(next_point, point) && next_point != point;
        if prev_less && next_less {
            EndpointClass::Max
        } else if prev_less || next_less {
            EndpointClass::Regular
        } else {
            EndpointClass::Min
        }
    }

    pub(crate) fn classify_endpoint(&self, endpoint_index: u32) -> (r: EndpointClass)
        requires
            self.wf(),
            endpoint_index < self.endpoints@.len(),
        ensures
            r == self.classify_endpoint_spec(endpoint_index),
    {
        let point = self.create_point_from_endpoint(endpoint_index);
        let prev_point = self.create_point_from_endpoint(self.prev_endpoint_of(endpoint_index));
        let next_point = self.create_point_from_endpoint(self.next_endpoint_of(endpoint_index));
        let prev_less = crate::events::sweep_precedes(&prev_point, &point) && !(
        crate::events::sweep_precedes(&point, &prev_point));
        let next_less = crate::events::sweep_precedes(&next_point, &point) && !(
        crate::events::sweep_precedes(&point, &next_point));
        proof {
            crate::events::lemma_sweep_order_total(prev_point, point);
            crate::events::lemma_sweep_order_total(next_point, point);
        }
        if prev_less && next_less {
            EndpointClass::Max
        } else if prev_less || next_less {
            EndpointClass::Regular
        } else {
            EndpointClass::Min
        }
    }

    /// Whether the event's endpoint was already processed.
    pub(crate) fn already_visited_point(&self, point: &Point) -> (r: bool)
        ensures
            r == (point.endpoint_index < self.visited_points@.len()
                && self.visited_points@[point.endpoint_index as int]),
    {
        self.visited_points.get(point.endpoint_index as usize)
    }

    /// Marks the event's endpoint as processed.
    pub(crate) fn mark_point_as_visited(&mut self, point: &Point)
        requires
            point.endpoint_index < old(self).visited_points@.len(),
        ensures
            final(self).visited_points@ == old(self).visited_points@.update(
                point.endpoint_index as int,
                true,
            ),
            final(self).endpoints@ == old(self).endpoints@,
            final(self).control_points@ == old(self).control_points@,
            final(self).subpaths@ == old(self).subpaths@,
            final(self).library == old(self).library,
            final(self).fill_rule == old(self).fill_rule,
            final(self).heap@ == old(self).heap@,
            final(self).active_edges@ == old(self).active_edges@,
            final(self).path_id == old(self).path_id,
    {
        self.visited_points.set_visited(point.endpoint_index as usize);
    }

    /// No active edge in `[0, bound)` other than `first` extends to
    /// `endpoint_index`.
    pub open spec fn no_other_match(
        self,
        endpoint_index: u32,
        first: usize,
        bound: int,
    ) -> bool {
        forall|j: int|
            0 <= j < bound && j != first ==> (#[trigger] self.active_edges@[j]).right_endpoint_index
                != endpoint_index
    }

    /// Finds up to two active edges whose right endpoint is the given
    /// endpoint: zero for a Min event, one for a Regular event, two for a
    /// Max event.
    pub(crate) fn find_right_point_in_active_edge_list(&self, endpoint_index: u32) -> (r:
        MatchingActiveEdges)
        requires
            self.wf(),
        ensures
            r.count <= 2,
            r.count == 0 ==> self.no_other_match(endpoint_index, self.active_edges@.len() as usize, self.active_edges@.len() as int),
            r.count >= 1 ==> r.first < self.active_edges@.len()
                && self.active_edges@[r.first as int].right_endpoint_index == endpoint_index,
            r.count == 1 ==> self.no_other_match(endpoint_index, r.first, self.active_edges@.len() as int),
            r.count == 2 ==> r.first < r.second < self.active_edges@.len()
                && self.active_edges@[r.second as int].right_endpoint_index == endpoint_index
                && self.no_other_match(endpoint_index, r.first, r.second as int),
    {
        let mut first: usize = 0;
        let mut second: usize = 0;
        let mut count: u8 = 0;
        let mut i: usize = 0;
        while i < self.active_edges.len() && count < 2
            invariant
                self.wf(),
                i <= self.active_edges@.len(),
                count <= 2,
                count == 0 ==> self.no_other_match(endpoint_index, i, i as int),
                count >= 1 ==> first < i
                    && self.active_edges@[first as int].right_endpoint_index == endpoint_index,
                count == 1 ==> self.no_other_match(endpoint_index, first, i as int),
                count == 2 ==> first < second < i
                    && self.active_edges@[second as int].right_endpoint_index == endpoint_index
                    && self.no_other_match(endpoint_index, first, second as int),
            decreases self.active_edges@.len() - i,
        {
            if self.active_edges[i].right_endpoint_index == endpoint_index {
                if count == 0 {
                    first = i;
                } else {
                    second = i;
                }
                count = count + 1;
            }
            i = i + 1;
        }
        MatchingActiveEdges { first, second, count }
    }

    /// The position an active edge starts from: its current left vertex.
    pub open spec fn edge_left_position(self, active_edge: ActiveEdge) -> Vector2 {
        self.library.b_vertex_positions@[active_edge.left_vertex_index as int]
    }

    /// The position an active edge extends to: its right endpoint.
    pub open spec fn edge_right_position(self, active_edge: ActiveEdge) -> Vector2 {
        self.endpoints@[active_edge.right_endpoint_index as int].position
    }

    /// The numerator of the edge's parameter at the vertical line at `x`.
    pub open spec fn edge_t_num(self, active_edge: ActiveEdge, x: i64) -> int {
        if active_edge.control_point_vertex_index == NO_CONTROL_POINT_VERTEX {
            line_t_num(
                self.edge_left_position(active_edge),
                self.edge_right_position(active_edge),
                x,
            )
        } else {
            curve_t_num(
                self.edge_left_position(active_edge),
                self.library.b_vertex_positions@[active_edge.control_point_vertex_index as int],
                self.edge_right_position(active_edge),
                x,
            )
        }
    }

    /// The denominator of the edge's parameter at the vertical line at `x`.
    pub open spec fn edge_t_den(self, active_edge: ActiveEdge, x: i64) -> int {
        if active_edge.control_point_vertex_index == NO_CONTROL_POINT_VERTEX {
            line_t_den(self.edge_left_position(active_edge), self.edge_right_position(active_edge))
        } else {
            curve_t_den(
                self.edge_left_position(active_edge),
                self.library.b_vertex_positions@[active_edge.control_point_vertex_index as int],
                self.edge_right_position(active_edge),
                x,
            )
        }
    }

    /// One coordinate of the edge's point at parameter `num / den`: linear
    /// interpolation for a line, the Bezier value for a curve.
    pub open spec fn edge_sample_y(self, active_edge: ActiveEdge, num: int, den: int) -> int {
        if active_edge.control_point_vertex_index == NO_CONTROL_POINT_VERTEX {
            lerp_val(
                self.edge_left_position(active_edge).y as int,
                self.edge_right_position(active_edge).y as int,
                num,
                den,
            )
        } else {
            curve_val(
                self.edge_left_position(active_edge).y as int,
                self.library.b_vertex_positions@[
                    active_edge.control_point_vertex_index as int
                ].y as int,
                self.edge_right_position(active_edge).y as int,
                num,
                den,
            )
        }
    }

    /// As `edge_sample_y`, on the `x` axis.
    pub open spec fn edge_sample_x(self, active_edge: ActiveEdge, num: int, den: int) -> int {
        if active_edge.control_point_vertex_index == NO_CONTROL_POINT_VERTEX {
            lerp_val(
                self.edge_left_position(active_edge).x as int,
                self.edge_right_position(active_edge).x as int,
                num,
                den,
            )
        } else {
            curve_val(
                self.edge_left_position(active_edge).x as int,
                self.library.b_vertex_positions@[
                    active_edge.control_point_vertex_index as int
                ].x as int,
                self.edge_right_position(active_edge).x as int,
                num,
                den,
            )
        }
    }

    /// The edge's height at the vertical line at `x`.
    pub open spec fn edge_y_at(self, active_edge: ActiveEdge, x: i64) -> int {
        self.edge_sample_y(
            active_edge,
            self.edge_t_num(active_edge, x),
            self.edge_t_den(active_edge, x),
        )
    }

    /// Two active edges stand in the right vertical order at `x`: they
    /// converge on one right endpoint, or the first lies no lower than the
    /// second.
    pub open spec fn edges_ordered_at(
        self,
        upper_edge: ActiveEdge,
        lower_edge: ActiveEdge,
        x: i64,
    ) -> bool {
        ||| upper_edge.right_endpoint_index == lower_edge.right_endpoint_index
        ||| self.edge_y_at(upper_edge, x) <= self.edge_y_at(lower_edge, x)
    }

    /// The parameter at which the active edge meets the vertical line at `x`.
    pub(crate) fn solve_active_edge_t_for_x(&self, x: i64, active_edge: &ActiveEdge) -> (t: CurveParam)
        requires
            self.wf(),
            edge_wf(
                *active_edge,
                self.library.b_vertex_positions@.len(),
                self.endpoints@.len(),
            ),
            wf_coord(x),
        ensures
            wf_param(t),
            t.num == self.edge_t_num(*active_edge, x),
            t.den == self.edge_t_den(*active_edge, x),
    {
        let left_vertex_position = self.library.b_vertex_positions[active_edge.left_vertex_index];
        let right_endpoint_position =
            self.endpoints[active_edge.right_endpoint_index as usize].position;
        if active_edge.control_point_vertex_index == NO_CONTROL_POINT_VERTEX {
            solve_line_t_for_x(left_vertex_position, right_endpoint_position, x)
        } else {
            let control_point =
                self.library.b_vertex_positions[active_edge.control_point_vertex_index];
            solve_curve_t_for_x(
                left_vertex_position,
                control_point,
                right_endpoint_position,
                x,
            )
        }
    }

    /// The point of the active edge at parameter `t`; it stays inside the
    /// convex hull of the edge's defining points, so it stays on the grid.
    pub(crate) fn sample_active_edge(&self, t: CurveParam, active_edge: &ActiveEdge) -> (r: Vector2)
        requires
            self.wf(),
            edge_wf(
                *active_edge,
                self.library.b_vertex_positions@.len(),
                self.endpoints@.len(),
            ),
            wf_param(t),
        ensures
            wf_pos(r),
            r.x == self.edge_sample_x(*active_edge, t.num as int, t.den as int),
            r.y == self.edge_sample_y(*active_edge, t.num as int, t.den as int),
    {
        let left_vertex_position = self.library.b_vertex_positions[active_edge.left_vertex_index];
        let right_endpoint_position =
            self.endpoints[active_edge.right_endpoint_index as usize].position;
        if active_edge.control_point_vertex_index == NO_CONTROL_POINT_VERTEX {
            Vector2 {
                x: lerp_coord(left_vertex_position.x, right_endpoint_position.x, t.num, t.den),
                y: lerp_coord(left_vertex_position.y, right_endpoint_position.y, t.num, t.den),
            }
        } else {
            let control_point =
                self.library.b_vertex_positions[active_edge.control_point_vertex_index];
            Vector2 {
                x: sample_curve_coord(
                    left_vertex_position.x,
                    control_point.x,
                    right_endpoint_position.x,
                    t.num,
                    t.den,
                ),
                y: sample_curve_coord(
                    left_vertex_position.y,
                    control_point.y,
                    right_endpoint_position.y,
                    t.num,
                    t.den,
                ),
            }
        }
    }

    /// The active edge's height at the vertical line at `x`.
    pub(crate) fn solve_active_edge_y_for_x(&self, x: i64, active_edge: &ActiveEdge) -> (r: i64)
        requires
            self.wf(),
            edge_wf(
                *active_edge,
                self.library.b_vertex_positions@.len(),
                self.endpoints@.len(),
            ),
            wf_coord(x),
        ensures
            wf_coord(r),
            r == self.edge_y_at(*active_edge, x),
    {
        let t = self.solve_active_edge_t_for_x(x, active_edge);
        self.sample_active_edge(t, active_edge).y
    }

    /// The slot at which a new Min endpoint's edges go: the first active edge
    /// that passes below the endpoint, or the end of the list.
    pub(crate) fn find_point_between_active_edges(&self, endpoint_index: u32) -> (r: usize)
        requires
            self.wf(),
            endpoint_index < self.endpoints@.len(),
        ensures
            r <= self.active_edges@.len(),
            forall|j: int|
                0 <= j < r ==> self.edge_y_at(
                    #[trigger] self.active_edges@[j],
                    self.endpoints@[endpoint_index as int].position.x,
                ) <= self.endpoints@[endpoint_index as int].position.y,
            r < self.active_edges@.len() ==> self.edge_y_at(
                self.active_edges@[r as int],
                self.endpoints@[endpoint_index as int].position.x,
            ) > self.endpoints@[endpoint_index as int].position.y,
    {
        let endpoint = self.endpoints[endpoint_index as usize];
        let mut j: usize = 0;
        while j < self.active_edges.len()
            invariant
                self.wf(),
                j <= self.active_edges@.len(),
                endpoint_index < self.endpoints@.len(),
                endpoint == self.endpoints@[endpoint_index as int],
                forall|k: int|
                    0 <= k < j ==> self.edge_y_at(
                        #[trigger] self.active_edges@[k],
                        endpoint.position.x,
                    ) <= endpoint.position.y,
            decreases self.active_edges@.len() - j,
        {
            let edge = self.active_edges[j];
            if self.solve_active_edge_y_for_x(endpoint.position.x, &edge) > endpoint.position.y {
                return j;
            }
            j = j + 1;
        }
        self.active_edges.len()
    }

    /// Whether two adjacent active edges stand in the right vertical order at
    /// `x`. Two edges converging on one right endpoint always count as
    /// ordered.
    pub(crate) fn active_edges_are_ordered(
        &self,
        prev_active_edge_index: usize,
        next_active_edge_index: usize,
        x: i64,
    ) -> (r: bool)
        requires
            self.wf(),
            prev_active_edge_index < self.active_edges@.len(),
            next_active_edge_index < self.active_edges@.len(),
            wf_coord(x),
        ensures
            r == self.edges_ordered_at(
                self.active_edges@[prev_active_edge_index as int],
                self.active_edges@[next_active_edge_index as int],
                x,
            ),
    {
        let prev_active_edge = self.active_edges[prev_active_edge_index];
        let next_active_edge = self.active_edges[next_active_edge_index];
        if prev_active_edge.right_endpoint_index == next_active_edge.right_endpoint_index {
            return true;
        }
        let prev_y = self.solve_active_edge_y_for_x(x, &prev_active_edge);
        let next_y = self.solve_active_edge_y_for_x(x, &next_active_edge);
        prev_y <= next_y
    }

    /// The edge at index `k` extends past the vertical line at `x`: a cut
    /// there produces a B-quad of positive width.
    pub open spec fn should_subdivide_spec(self, k: int, x: i64) -> bool {
        x > self.edge_left_position(self.active_edges@[k]).x
    }

    /// Whether the edge extends far enough past its left vertex for a cut at
    /// `x` to produce a B-quad of positive width.
    pub(crate) fn should_subdivide_active_edge_at(&self, active_edge_index: usize, x: i64) -> (r: bool)
        requires
            self.wf(),
            active_edge_index < self.active_edges@.len(),
            wf_coord(x),
        ensures
            r == self.should_subdivide_spec(active_edge_index as int, x),
    {
        let left_curve_left = self.active_edges[active_edge_index].left_vertex_index;
        let left_point_position = self.library.b_vertex_positions[left_curve_left];
        x > left_point_position.x
    }

    /// Searches the span up to `max_x` for a crossing of two edges by
    /// bisecting on the sign of their height difference.
    fn crossing_point_by_bisection(
        &self,
        upper_active_edge: &ActiveEdge,
        lower_active_edge: &ActiveEdge,
        max_x: i64,
    ) -> (r: Option<Vector2>)
        requires
            self.wf(),
            edge_wf(
                *upper_active_edge,
                self.library.b_vertex_positions@.len(),
                self.endpoints@.len(),
            ),
            edge_wf(
                *lower_active_edge,
                self.library.b_vertex_positions@.len(),
                self.endpoints@.len(),
            ),
            wf_coord(max_x),
        ensures
            match r {
                Some(p) => wf_pos(p) && p.x <= max_x && p.y == self.edge_y_at(
                    *upper_active_edge,
                    p.x,
                ) && (self.edge_y_at(*upper_active_edge, p.x) == self.edge_y_at(
                    *lower_active_edge,
                    p.x,
                ) || exists|x1: i64|
                    p.x < x1 <= max_x && ((self.edge_y_at(*upper_active_edge, p.x)
                        > self.edge_y_at(*lower_active_edge, p.x)) != (#[trigger] self.edge_y_at(
                        *upper_active_edge,
                        x1,
                    ) > self.edge_y_at(*lower_active_edge, x1)))),
                None => true,
            },
    {
        let upper_left =
            self.library.b_vertex_positions[upper_active_edge.left_vertex_index];
        let lower_left =
            self.library.b_vertex_positions[lower_active_edge.left_vertex_index];
        let mut lo: i64 = if upper_left.x >= lower_left.x {
            upper_left.x
        } else {
            lower_left.x
        };
        let mut hi: i64 = max_x;
        if hi < lo {
            return None;
        }
        let d_lo: i64 = self.solve_active_edge_y_for_x(lo, upper_active_edge)
            - self.solve_active_edge_y_for_x(lo, lower_active_edge);
        let d_hi: i64 = self.solve_active_edge_y_for_x(hi, upper_active_edge)
            - self.solve_active_edge_y_for_x(hi, lower_active_edge);
        if d_lo == 0 {
            return Some(
                Vector2 { x: lo, y: self.solve_active_edge_y_for_x(lo, upper_active_edge) },
            );
        }
        if d_hi == 0 {
            return Some(
                Vector2 { x: hi, y: self.solve_active_edge_y_for_x(hi, upper_active_edge) },
            );
        }
        if (d_lo > 0) == (d_hi > 0) {
            return None;
        }
        let positive_at_lo: bool = d_lo > 0;
        let mut iteration: u8 = 0;
        while iteration < 48 && lo + 1 < hi
            invariant
                self.wf(),
                edge_wf(
                    *upper_active_edge,
                    self.library.b_vertex_positions@.len(),
                    self.endpoints@.len(),
                ),
                edge_wf(
                    *lower_active_edge,
                    self.library.b_vertex_positions@.len(),
                    self.endpoints@.len(),
                ),
                wf_coord(lo),
                wf_coord(hi),
                lo < hi,
                hi <= max_x,
                self.edge_y_at(*upper_active_edge, lo) != self.edge_y_at(*lower_active_edge, lo),
                self.edge_y_at(*upper_active_edge, hi) != self.edge_y_at(*lower_active_edge, hi),
                (self.edge_y_at(*upper_active_edge, lo) > self.edge_y_at(*lower_active_edge, lo))
                    == positive_at_lo,
                (self.edge_y_at(*upper_active_edge, hi) > self.edge_y_at(*lower_active_edge, hi))
                    != positive_at_lo,
            decreases 48 - iteration,
        {
            let mid: i64 = lo + (((hi - lo) as u64) / 2) as i64;
            let d_mid: i64 = self.solve_active_edge_y_for_x(mid, upper_active_edge)
                - self.solve_active_edge_y_for_x(mid, lower_active_edge);
            if d_mid == 0 {
                return Some(
                    Vector2 { x: mid, y: self.solve_active_edge_y_for_x(mid, upper_active_edge) },
                );
            }
            if (d_mid > 0) == positive_at_lo {
                lo = mid;
            } else {
                hi = mid;
            }
            iteration = iteration + 1;
        }
        proof {
            assert(lo < hi <= max_x);
            assert((self.edge_y_at(*upper_active_edge, lo) > self.edge_y_at(
                *lower_active_edge,
                lo,
            )) != (self.edge_y_at(*upper_active_edge, hi) > self.edge_y_at(
                *lower_active_edge,
                hi,
            )));
        }
        Some(Vector2 { x: lo, y: self.solve_active_edge_y_for_x(lo, upper_active_edge) })
    }

    /// The crossing of the active edge with the one below it, truncated to
    /// `x <= max_x`: `None` when they share a left vertex or a right
    /// endpoint, or do not cross in range. Straight pairs intersect exactly;
    /// pairs involving a curve are resolved by bisection, which the exact
    /// pairwise intersection of the straight case cannot cover: the returned
    /// point then lies on the upper edge and, unless the two heights agree
    /// there, a sign change of their difference brackets it before `max_x`.
    pub(crate) fn crossing_point_for_active_edge(
        &self,
        upper_active_edge_index: usize,
        max_x: i64,
    ) -> (r: Option<Vector2>)
        requires
            self.wf(),
            upper_active_edge_index + 1 < self.active_edges@.len(),
            wf_coord(max_x),
        ensures
            match r {
                Some(p) => wf_pos(p) && p.x <= max_x,
                None => true,
            },
            ({
                let upper = self.active_edges@[upper_active_edge_index as int];
                let lower = self.active_edges@[upper_active_edge_index + 1];
                &&& (upper.left_vertex_index == lower.left_vertex_index
                    || upper.right_endpoint_index == lower.right_endpoint_index) ==> r is None
                &&& (upper.left_vertex_index != lower.left_vertex_index
                    && upper.right_endpoint_index != lower.right_endpoint_index
                    && upper.control_point_vertex_index == NO_CONTROL_POINT_VERTEX
                    && lower.control_point_vertex_index == NO_CONTROL_POINT_VERTEX) ==> r == (
                match line_intersection(
                    self.edge_left_position(upper),
                    self.edge_right_position(upper),
                    self.edge_left_position(lower),
                    self.edge_right_position(lower),
                ) {
                    Some(p) => if p.x <= max_x {
                        Some(p)
                    } else {
                        None
                    },
                    None => None,
                })
            }),
            ({
                let upper = self.active_edges@[upper_active_edge_index as int];
                let lower = self.active_edges@[upper_active_edge_index + 1];
                (r is Some && !(upper.control_point_vertex_index == NO_CONTROL_POINT_VERTEX
                    && lower.control_point_vertex_index == NO_CONTROL_POINT_VERTEX)) ==> ({
                    let p = r.unwrap();
                    &&& p.y == self.edge_y_at(upper, p.x)
                    &&& (self.edge_y_at(upper, p.x) == self.edge_y_at(lower, p.x) || exists|
                        x1: i64,
                    |
                        p.x < x1 <= max_x && ((self.edge_y_at(upper, p.x) > self.edge_y_at(
                            lower,
                            p.x,
                        )) != (#[trigger] self.edge_y_at(upper, x1) > self.edge_y_at(lower, x1))))
                })
            }),
    {
        let _edge_count: usize = self.active_edges.len();
        let lower_active_edge_index = upper_active_edge_index + 1;
        let upper_active_edge = self.active_edges[upper_active_edge_index];
        let lower_active_edge = self.active_edges[lower_active_edge_index];
        if upper_active_edge.left_vertex_index == lower_active_edge.left_vertex_index
            || upper_active_edge.right_endpoint_index == lower_active_edge.right_endpoint_index {
            return None;
        }
        if upper_active_edge.control_point_vertex_index == NO_CONTROL_POINT_VERTEX
            && lower_active_edge.control_point_vertex_index == NO_CONTROL_POINT_VERTEX {
            let upper_left =
                self.library.b_vertex_positions[upper_active_edge.left_vertex_index];
            let upper_right =
                self.endpoints[upper_active_edge.right_endpoint_index as usize].position;
            let lower_left =
                self.library.b_vertex_positions[lower_active_edge.left_vertex_index];
            let lower_right =
                self.endpoints[lower_active_edge.right_endpoint_index as usize].position;
            match line_line_intersect(upper_left, upper_right, lower_left, lower_right) {
                None => None,
                Some(p) => if p.x <= max_x {
                    Some(p)
                } else {
                    None
                },
            }
        } else {
            match self.crossing_point_by_bisection(
                &upper_active_edge,
                &lower_active_edge,
                max_x,
            ) {
                None => None,
                Some(p) => if p.x <= max_x {
                    Some(p)
                } else {
                    None
                },
            }
        }
    }

    /// The total winding contribution of the first `j` active edges.
    pub open spec fn winding_prefix(edges: Seq<ActiveEdge>, j: int) -> int
        decreases j,
    {
        if j <= 0 {
            0
        } else {
            Partitioner::winding_prefix(edges, j - 1) + (if edges[j - 1].left_to_right {
                1int
            } else {
                -1int
            })
        }
    }

    /// `(upper, lower)` is the pair of active edges that bound the filled
    /// region through the given edge under the current fill rule. Under
    /// even-odd, edges pair up by adjacency. Under winding, the upper bound
    /// is the last edge at which the winding count from the top was zero,
    /// and the lower bound is the first edge at or below the asked one after
    /// which the count returns to zero, or the asked edge itself when it
    /// never does.
    pub open spec fn is_bounding_pair(
        self,
        active_edge_index: usize,
        upper: int,
        lower: int,
    ) -> bool {
        &&& 0 <= upper <= active_edge_index as int
        &&& active_edge_index as int <= lower < self.active_edges@.len()
        &&& (self.fill_rule == FillRule::EvenOdd ==> ({
            if active_edge_index % 2 == 1 {
                upper == active_edge_index - 1 && lower == active_edge_index as int
            } else if active_edge_index + 1 == self.active_edges@.len() {
                upper == active_edge_index as int && lower == active_edge_index as int
            } else {
                upper == active_edge_index as int && lower == active_edge_index + 1
            }
        }))
        &&& (self.fill_rule == FillRule::Winding ==> ({
            &&& Partitioner::winding_prefix(self.active_edges@, upper) == 0
            &&& forall|j: int|
                upper < j <= active_edge_index ==> Partitioner::winding_prefix(
                    self.active_edges@,
                    j,
                ) != 0
            &&& forall|k: int|
                active_edge_index <= k < lower ==> #[trigger] Partitioner::winding_prefix(
                    self.active_edges@,
                    k + 1,
                ) != 0
            &&& (Partitioner::winding_prefix(self.active_edges@, lower + 1) == 0 || (lower
                == active_edge_index as int && forall|k: int|
                active_edge_index <= k < self.active_edges@.len()
                    ==> #[trigger] Partitioner::winding_prefix(self.active_edges@, k + 1) != 0))
        }))
    }

    /// The pair of active edges that bound the filled region through the
    /// given edge under the current fill rule; a pair of equal indices means
    /// no filled region passes through.
    pub(crate) fn bounding_active_edges_for_fill(&self, active_edge_index: usize) -> (r: (usize, usize))
        requires
            self.wf(),
            active_edge_index < self.active_edges@.len(),
        ensures
            r.0 <= active_edge_index <= r.1 < self.active_edges@.len(),
            self.is_bounding_pair(active_edge_index, r.0 as int, r.1 as int),
    {
        match self.fill_rule {
            FillRule::EvenOdd => {
                if active_edge_index % 2 == 1 {
                    (active_edge_index - 1, active_edge_index)
                } else if active_edge_index + 1 == self.active_edges.len() {
                    (active_edge_index, active_edge_index)
                } else {
                    (active_edge_index, active_edge_index + 1)
                }
            },
            FillRule::Winding => {
                let mut winding_number: i128 = 0;
                let mut upper_active_edge_index: usize = 0;
                let mut j: usize = 0;
                while j < active_edge_index
                    invariant
                        self.wf(),
                        active_edge_index < self.active_edges@.len(),
                        j <= active_edge_index,
                        upper_active_edge_index <= j,
                        -(j as int) <= winding_number <= j as int,
                        winding_number == Partitioner::winding_prefix(self.active_edges@, j as int),
                        Partitioner::winding_prefix(
                            self.active_edges@,
                            upper_active_edge_index as int,
                        ) == 0,
                        forall|m: int|
                            upper_active_edge_index < m < j ==> #[trigger] Partitioner::winding_prefix(
                                self.active_edges@,
                                m,
                            ) != 0,
                    decreases active_edge_index - j,
                {
                    if winding_number == 0 {
                        upper_active_edge_index = j;
                    }
                    winding_number = winding_number
                        + (self.active_edges[j].winding_number() as i128);
                    j = j + 1;
                }
                if winding_number == 0 {
                    upper_active_edge_index = active_edge_index;
                }
                let edge_total = self.active_edges.len();
                let mut lower_active_edge_index: usize = active_edge_index;
                let mut found: bool = false;
                let mut k: usize = active_edge_index;
                while k < edge_total && !found
                    invariant
                        self.wf(),
                        edge_total == self.active_edges@.len(),
                        active_edge_index < edge_total,
                        active_edge_index <= k <= edge_total,
                        -(k as int) - 1 <= winding_number <= k as int + 1,
                        !found ==> lower_active_edge_index == active_edge_index,
                        !found ==> winding_number == Partitioner::winding_prefix(
                            self.active_edges@,
                            k as int,
                        ),
                        !found ==> forall|m: int|
                            active_edge_index <= m < k ==> #[trigger] Partitioner::winding_prefix(
                                self.active_edges@,
                                m + 1,
                            ) != 0,
                        found ==> active_edge_index <= lower_active_edge_index < edge_total
                            && Partitioner::winding_prefix(
                            self.active_edges@,
                            lower_active_edge_index + 1,
                        ) == 0,
                        found ==> forall|m: int|
                            active_edge_index <= m < lower_active_edge_index
                                ==> #[trigger] Partitioner::winding_prefix(
                                self.active_edges@,
                                m + 1,
                            ) != 0,
                    decreases edge_total - k, (if found { 0int } else { 1int }),
                {
                    winding_number = winding_number
                        + (self.active_edges[k].winding_number() as i128);
                    if winding_number == 0 {
                        lower_active_edge_index = k;
                        found = true;
                    } else {
                        k = k + 1;
                    }
                }
                (upper_active_edge_index, lower_active_edge_index)
            },
        }
    }
}

/// A subdivided edge's references are in range for a mesh of `n` vertices.
pub open spec fn sub_wf(s: SubdividedActiveEdge, n: nat) -> bool {
    &&& s.left_curve_left < n
    &&& s.middle_point < n
    &&& (s.left_curve_control_point != NO_CONTROL_POINT_VERTEX ==> s.left_curve_control_point < n)
}

/// The two edges agree on everything but the Loop-Blinn parity.
pub open spec fn edge_same_geometry(a: ActiveEdge, b: ActiveEdge) -> bool {
    &&& b.left_vertex_index == a.left_vertex_index
    &&& b.control_point_vertex_index == a.control_point_vertex_index
    &&& b.right_endpoint_index == a.right_endpoint_index
    &&& b.left_to_right == a.left_to_right
}

/// Emission appends to every buffer and rewrites only Loop-Blinn labels;
/// everything `a` held stays in place in `b`.
pub open spec fn library_extended(a: MeshLibrary, b: MeshLibrary) -> bool {
    &&& a.b_vertex_positions@.is_prefix_of(b.b_vertex_positions@)
    &&& a.cover_indices.interior_indices@.is_prefix_of(b.cover_indices.interior_indices@)
    &&& a.cover_indices.curve_indices@.is_prefix_of(b.cover_indices.curve_indices@)
    &&& a.b_quads@.is_prefix_of(b.b_quads@)
}

/// A prefix agrees with the longer sequence at every index it covers.
pub proof fn lemma_prefix_index<T>(a: Seq<T>, b: Seq<T>, i: int)
    requires
        a.is_prefix_of(b),
        0 <= i < a.len(),
    ensures
        b[i] == a[i],
{
    assert(a =~= b.subrange(0, a.len() as int));
    assert(a[i] == b.subrange(0, a.len() as int)[i]);
}

/// Being a prefix is transitive.
pub proof fn lemma_prefix_trans<T>(a: Seq<T>, b: Seq<T>, c: Seq<T>)
    requires
        a.is_prefix_of(b),
        b.is_prefix_of(c),
    ensures
        a.is_prefix_of(c),
{
    assert forall|i: int| 0 <= i < a.len() implies a[i] == c[i] by {
        lemma_prefix_index(a, b, i);
        lemma_prefix_index(b, c, i);
    }
    assert(a =~= c.subrange(0, a.len() as int));
}

/// Subdivision and emission only append vertices to the library; `b` holds
/// everything `a` held, in place.
pub open spec fn library_vertices_extended(a: MeshLibrary, b: MeshLibrary) -> bool {
    &&& a.b_vertex_positions@.is_prefix_of(b.b_vertex_positions@)
    &&& b.cover_indices.interior_indices@ == a.cover_indices.interior_indices@
    &&& b.cover_indices.curve_indices@ == a.cover_indices.curve_indices@
    &&& b.b_quads@ == a.b_quads@
}

/// `b` extends to the same endpoint and in the same direction as `a`.
pub open spec fn edge_same_course(a: ActiveEdge, b: ActiveEdge) -> bool {
    b.right_endpoint_index == a.right_endpoint_index && b.left_to_right == a.left_to_right
}

/// Some edge of the list extends to the given endpoint.
pub open spec fn has_edge_to(edges: Seq<ActiveEdge>, endpoint_index: u32) -> bool {
    exists|k: int|
        0 <= k < edges.len() && (#[trigger] edges[k]).right_endpoint_index == endpoint_index
}

/// Lists whose edges extend pointwise to the same endpoints reach the same
/// endpoints.
pub proof fn lemma_has_edge_to_pointwise(a: Seq<ActiveEdge>, b: Seq<ActiveEdge>)
    requires
        a.len() == b.len(),
        forall|i: int|
            0 <= i < a.len() ==> (#[trigger] b[i]).right_endpoint_index == a[
                i
            ].right_endpoint_index,
    ensures
        forall|e: u32| #[trigger] has_edge_to(b, e) == has_edge_to(a, e),
{
    assert forall|e: u32| #[trigger] has_edge_to(b, e) == has_edge_to(a, e) by {
        if has_edge_to(a, e) {
            let k = choose|k: int|
                0 <= k < a.len() && (#[trigger] a[k]).right_endpoint_index == e;
            assert(b[k].right_endpoint_index == e);
        }
        if has_edge_to(b, e) {
            let k = choose|k: int|
                0 <= k < b.len() && (#[trigger] b[k]).right_endpoint_index == e;
            assert(a[k].right_endpoint_index == e);
        }
    }
}

/// Swapping two edges does not change which endpoints the list reaches.
pub proof fn lemma_has_edge_to_swap(a: Seq<ActiveEdge>, u: int, l: int)
    requires
        0 <= u < a.len(),
        0 <= l < a.len(),
    ensures
        forall|e: u32|
            #[trigger] has_edge_to(a.update(u, a[l]).update(l, a[u]), e) == has_edge_to(a, e),
{
    let b = a.update(u, a[l]).update(l, a[u]);
    assert forall|e: u32| #[trigger] has_edge_to(b, e) == has_edge_to(a, e) by {
        if has_edge_to(a, e) {
            let k = choose|k: int|
                0 <= k < a.len() && (#[trigger] a[k]).right_endpoint_index == e;
            if k == u {
                assert(b[l].right_endpoint_index == e);
            } else if k == l {
                assert(b[u].right_endpoint_index == e);
            } else {
                assert(b[k].right_endpoint_index == e);
            }
        }
        if has_edge_to(b, e) {
            let k = choose|k: int|
                0 <= k < b.len() && (#[trigger] b[k]).right_endpoint_index == e;
            if k == u {
                assert(a[l].right_endpoint_index == e);
            } else if k == l {
                assert(a[u].right_endpoint_index == e);
            } else {
                assert(a[k].right_endpoint_index == e);
            }
        }
    }
}

/// The given edge with its Loop-Blinn parity flipped and nothing else.
pub open spec fn edge_with_parity_flipped(e: ActiveEdge) -> ActiveEdge {
    ActiveEdge {
        left_vertex_index: e.left_vertex_index,
        control_point_vertex_index: e.control_point_vertex_index,
        right_endpoint_index: e.right_endpoint_index,
        left_to_right: e.left_to_right,
        parity: e.parity == false,
    }
}

/// The Endpoint0 / Endpoint1 label an edge of the given parity hands out.
pub open spec fn endpoint_kind_of_parity(parity: bool) -> BVertexKind {
    if !parity {
        BVertexKind::Endpoint0
    } else {
        BVertexKind::Endpoint1
    }
}

/// The interior (solid) triangles one emitted B-quad contributes, per the
/// shape of its upper and lower boundary.
pub open spec fn interior_triangles_for(
    us: SubdividedActiveEdge,
    ls: SubdividedActiveEdge,
    upper_concave: bool,
    lower_concave: bool,
) -> Seq<usize> {
    if !upper_concave && !lower_concave {
        seq![
            us.left_curve_left,
            us.middle_point,
            ls.left_curve_left,
            ls.middle_point,
            ls.left_curve_left,
            us.middle_point,
        ]
    } else if upper_concave && !lower_concave {
        seq![
            us.left_curve_left,
            us.left_curve_control_point,
            ls.left_curve_left,
            us.middle_point,
            ls.middle_point,
            us.left_curve_control_point,
            ls.middle_point,
            ls.left_curve_left,
            us.left_curve_control_point,
        ]
    } else if !upper_concave && lower_concave {
        seq![
            us.left_curve_left,
            us.middle_point,
            ls.left_curve_control_point,
            us.middle_point,
            ls.middle_point,
            ls.left_curve_control_point,
            us.left_curve_left,
            ls.left_curve_control_point,
            ls.left_curve_left,
        ]
    } else {
        seq![
            us.left_curve_left,
            us.left_curve_control_point,
            ls.left_curve_left,
            ls.left_curve_left,
            us.left_curve_control_point,
            ls.left_curve_control_point,
            us.middle_point,
            ls.left_curve_control_point,
            us.left_curve_control_point,
            us.middle_point,
            ls.middle_point,
            ls.left_curve_control_point,
        ]
    }
}

/// The curve triangles one emitted B-quad contributes, per the shape of its
/// upper and lower boundary.
pub open spec fn curve_triangles_for(
    us: SubdividedActiveEdge,
    ls: SubdividedActiveEdge,
    upper_shape: Shape,
    lower_shape: Shape,
) -> Seq<usize> {
    let upper_tri = seq![us.left_curve_control_point, us.middle_point, us.left_curve_left];
    let upper_tri_concave = seq![us.left_curve_control_point, us.left_curve_left, us.middle_point];
    let lower_tri = seq![ls.left_curve_control_point, ls.left_curve_left, ls.middle_point];
    let lower_tri_concave = seq![ls.left_curve_control_point, ls.middle_point, ls.left_curve_left];
    if upper_shape != Shape::Concave && lower_shape != Shape::Concave {
        (if upper_shape != Shape::Flat {
            upper_tri
        } else {
            Seq::empty()
        }) + (if lower_shape != Shape::Flat {
            lower_tri
        } else {
            Seq::empty()
        })
    } else if upper_shape == Shape::Concave && lower_shape != Shape::Concave {
        upper_tri_concave + (if lower_shape != Shape::Flat {
            lower_tri
        } else {
            Seq::empty()
        })
    } else if upper_shape != Shape::Concave && lower_shape == Shape::Concave {
        lower_tri_concave + (if upper_shape != Shape::Flat {
            upper_tri
        } else {
            Seq::empty()
        })
    } else {
        upper_tri_concave + lower_tri_concave
    }
}

/// Emission may move cut points and flip parities, but never changes which
/// endpoint an edge extends to, nor its direction, nor the list's length.
pub open spec fn same_topology(a: Seq<ActiveEdge>, b: Seq<ActiveEdge>) -> bool {
    &&& a.len() == b.len()
    &&& forall|i: int|
        0 <= i < a.len() ==> ((#[trigger] b[i]).right_endpoint_index == a[i].right_endpoint_index
            && b[i].left_to_right == a[i].left_to_right)
}

impl Partitioner {
    /// Cuts the active edge at the vertical line at `x`: appends the new cut
    /// vertex (and, for a curve, the two control points flanking it), moves
    /// the edge's left end to the cut, and returns the piece cut off. Does
    /// *not* toggle the edge's parity; callers do that per emission.
    pub(crate) fn subdivide_active_edge_at(
        &mut self,
        active_edge_index: usize,
        x: i64,
        subdivision_type: SubdivisionType,
    ) -> (r: SubdividedActiveEdge)
        requires
            old(self).wf(),
            active_edge_index < old(self).active_edges@.len(),
            wf_coord(x),
        ensures
            final(self).wf(),
            Partitioner::same_inputs(*old(self), *final(self)),
            final(self).path_id == old(self).path_id,
            final(self).heap@ == old(self).heap@,
            final(self).visited_points@ == old(self).visited_points@,
            library_vertices_extended(old(self).library, final(self).library),
            final(self).active_edges@.len() == old(self).active_edges@.len(),
            forall|i: int|
                0 <= i < old(self).active_edges@.len() && i != active_edge_index
                    ==> #[trigger] final(self).active_edges@[i] == old(self).active_edges@[i],
            final(self).active_edges@[active_edge_index as int].right_endpoint_index == old(
                self,
            ).active_edges@[active_edge_index as int].right_endpoint_index,
            final(self).active_edges@[active_edge_index as int].left_to_right == old(
                self,
            ).active_edges@[active_edge_index as int].left_to_right,
            final(self).active_edges@[active_edge_index as int].parity == old(
                self,
            ).active_edges@[active_edge_index as int].parity,
            r.left_curve_left == old(self).active_edges@[active_edge_index as int].left_vertex_index,
            r.middle_point < final(self).library.b_vertex_positions@.len(),
            r.left_curve_control_point != NO_CONTROL_POINT_VERTEX ==> r.left_curve_control_point
                < final(self).library.b_vertex_positions@.len(),
            final(self).library.b_vertex_positions@[r.middle_point as int].x == x,
            final(self).active_edges@[active_edge_index as int].left_vertex_index
                == r.middle_point,
            (r.left_curve_control_point == NO_CONTROL_POINT_VERTEX <==> old(self).active_edges@[
                active_edge_index as int
            ].control_point_vertex_index == NO_CONTROL_POINT_VERTEX),
            ({
                let e = old(self).active_edges@[active_edge_index as int];
                let lp = old(self).library.b_vertex_positions@[e.left_vertex_index as int];
                let rp = old(self).endpoints@[e.right_endpoint_index as int].position;
                let tn = old(self).edge_t_num(e, x);
                let td = old(self).edge_t_den(e, x);
                &&& (e.control_point_vertex_index == NO_CONTROL_POINT_VERTEX ==> ({
                    &&& final(self).library.b_vertex_positions@ == old(
                        self,
                    ).library.b_vertex_positions@.push(
                        (Vector2 { x, y: lerp_val(lp.y as int, rp.y as int, tn, td) as i64 }),
                    )
                    &&& r.middle_point == old(self).library.b_vertex_positions@.len()
                    &&& final(self).active_edges@[
                        active_edge_index as int
                    ].control_point_vertex_index == NO_CONTROL_POINT_VERTEX
                }))
                &&& (e.control_point_vertex_index != NO_CONTROL_POINT_VERTEX ==> ({
                    let cp = old(self).library.b_vertex_positions@[
                        e.control_point_vertex_index as int
                    ];
                    let lc = Vector2 {
                        x: lerp_val(lp.x as int, cp.x as int, tn, td) as i64,
                        y: lerp_val(lp.y as int, cp.y as int, tn, td) as i64,
                    };
                    let rc = Vector2 {
                        x: lerp_val(cp.x as int, rp.x as int, tn, td) as i64,
                        y: lerp_val(cp.y as int, rp.y as int, tn, td) as i64,
                    };
                    let mid = Vector2 {
                        x,
                        y: curve_val(lp.y as int, cp.y as int, rp.y as int, tn, td) as i64,
                    };
                    &&& final(self).library.b_vertex_positions@ == old(
                        self,
                    ).library.b_vertex_positions@.push(lc).push(mid).push(rc)
                    &&& r.left_curve_control_point == old(self).library.b_vertex_positions@.len()
                    &&& r.middle_point == old(self).library.b_vertex_positions@.len() + 1
                    &&& final(self).active_edges@[
                        active_edge_index as int
                    ].control_point_vertex_index == old(self).library.b_vertex_positions@.len()
                        + 2
                }))
            }),
    {
        let active_edge = self.active_edges[active_edge_index];
        let left_curve_left = active_edge.left_vertex_index;
        let left_point_position = self.library.b_vertex_positions[left_curve_left];
        let t = self.solve_active_edge_t_for_x(x, &active_edge);
        let bottom = match subdivision_type {
            SubdivisionType::Lower => true,
            _ => false,
        };
        if active_edge.control_point_vertex_index == NO_CONTROL_POINT_VERTEX {
            let path_id = self.library.b_vertex_path_ids[left_curve_left];
            let right_point = self.endpoints[active_edge.right_endpoint_index as usize].position;
            let middle_y = lerp_coord(left_point_position.y, right_point.y, t.num, t.den);
            let middle_point = Vector2 { x, y: middle_y };
            let middle_index = self.library.push_vertex(
                middle_point,
                path_id,
                BVertexLoopBlinnData::new(active_edge.endpoint_kind()),
            );
            let mut updated_edge = active_edge;
            updated_edge.left_vertex_index = middle_index;
            self.active_edges[active_edge_index] = updated_edge;
            SubdividedActiveEdge {
                left_curve_left,
                left_curve_control_point: NO_CONTROL_POINT_VERTEX,
                middle_point: middle_index,
            }
        } else {
            let control_point_position =
                self.library.b_vertex_positions[active_edge.control_point_vertex_index];
            let right_point = self.endpoints[active_edge.right_endpoint_index as usize].position;
            let left_control = Vector2 {
                x: lerp_coord(left_point_position.x, control_point_position.x, t.num, t.den),
                y: lerp_coord(left_point_position.y, control_point_position.y, t.num, t.den),
            };
            let right_control = Vector2 {
                x: lerp_coord(control_point_position.x, right_point.x, t.num, t.den),
                y: lerp_coord(control_point_position.y, right_point.y, t.num, t.den),
            };
            let middle_point = Vector2 {
                x,
                y: sample_curve_coord(
                    left_point_position.y,
                    control_point_position.y,
                    right_point.y,
                    t.num,
                    t.den,
                ),
            };
            let left_control_index = self.library.push_vertex(
                left_control,
                self.path_id,
                BVertexLoopBlinnData::control_point(
                    &left_point_position,
                    &left_control,
                    &middle_point,
                    bottom,
                ),
            );
            let middle_index = self.library.push_vertex(
                middle_point,
                self.path_id,
                BVertexLoopBlinnData::new(active_edge.endpoint_kind()),
            );
            let right_control_index = self.library.push_vertex(
                right_control,
                self.path_id,
                BVertexLoopBlinnData::control_point(
                    &middle_point,
                    &right_control,
                    &right_point,
                    bottom,
                ),
            );
            let mut updated_edge = active_edge;
            updated_edge.left_vertex_index = middle_index;
            updated_edge.control_point_vertex_index = right_control_index;
            self.active_edges[active_edge_index] = updated_edge;
            SubdividedActiveEdge {
                left_curve_left,
                left_curve_control_point: left_control_index,
                middle_point: middle_index,
            }
        }
    }

    /// Cuts an already-subdivided curve piece once more at parameter `t`,
    /// placing the new middle vertex at `middle_x`. Appends the left control
    /// point, the middle vertex (labelled Endpoint0 until the emitter
    /// rewrites it), and the right control point.
    fn subdivide_again(
        &mut self,
        subdivision: &SubdividedActiveEdge,
        t: CurveParam,
        bottom: bool,
        middle_x: i64,
    ) -> (r: (SubdividedActiveEdge, SubdividedActiveEdge))
        requires
            old(self).wf(),
            subdivision.left_curve_left < old(self).library.b_vertex_positions@.len(),
            subdivision.left_curve_control_point != NO_CONTROL_POINT_VERTEX,
            subdivision.left_curve_control_point < old(self).library.b_vertex_positions@.len(),
            subdivision.middle_point < old(self).library.b_vertex_positions@.len(),
            wf_param(t),
            wf_coord(middle_x),
        ensures
            final(self).wf(),
            Partitioner::same_inputs(*old(self), *final(self)),
            final(self).path_id == old(self).path_id,
            final(self).heap@ == old(self).heap@,
            final(self).visited_points@ == old(self).visited_points@,
            final(self).active_edges@ == old(self).active_edges@,
            library_vertices_extended(old(self).library, final(self).library),
            r.0.left_curve_left == subdivision.left_curve_left,
            r.0.left_curve_control_point != NO_CONTROL_POINT_VERTEX,
            r.0.left_curve_control_point < final(self).library.b_vertex_positions@.len(),
            r.0.middle_point < final(self).library.b_vertex_positions@.len(),
            r.1.left_curve_left == r.0.middle_point,
            r.1.left_curve_control_point != NO_CONTROL_POINT_VERTEX,
            r.1.left_curve_control_point < final(self).library.b_vertex_positions@.len(),
            r.1.middle_point == subdivision.middle_point,
            final(self).library.b_vertex_positions@[r.0.middle_point as int].x == middle_x,
            ({
                let a = old(self).library.b_vertex_positions@[subdivision.left_curve_left as int];
                let c = old(self).library.b_vertex_positions@[
                    subdivision.left_curve_control_point as int
                ];
                let b = old(self).library.b_vertex_positions@[subdivision.middle_point as int];
                let lc = Vector2 {
                    x: lerp_val(a.x as int, c.x as int, t.num as int, t.den as int) as i64,
                    y: lerp_val(a.y as int, c.y as int, t.num as int, t.den as int) as i64,
                };
                let rc = Vector2 {
                    x: lerp_val(c.x as int, b.x as int, t.num as int, t.den as int) as i64,
                    y: lerp_val(c.y as int, b.y as int, t.num as int, t.den as int) as i64,
                };
                let mid = Vector2 {
                    x: middle_x,
                    y: curve_val(
                        a.y as int,
                        c.y as int,
                        b.y as int,
                        t.num as int,
                        t.den as int,
                    ) as i64,
                };
                &&& final(self).library.b_vertex_positions@ == old(
                    self,
                ).library.b_vertex_positions@.push(lc).push(mid).push(rc)
                &&& final(self).library.b_vertex_loop_blinn_data@ == old(
                    self,
                ).library.b_vertex_loop_blinn_data@.push(
                    BVertexLoopBlinnData::of_kind(
                        BVertexLoopBlinnData::control_point_kind(a, lc, mid, bottom),
                    ),
                ).push(BVertexLoopBlinnData::of_kind(BVertexKind::Endpoint0)).push(
                    BVertexLoopBlinnData::of_kind(
                        BVertexLoopBlinnData::control_point_kind(mid, rc, b, bottom),
                    ),
                )
                &&& r.0.left_curve_control_point == old(self).library.b_vertex_positions@.len()
                &&& r.0.middle_point == old(self).library.b_vertex_positions@.len() + 1
                &&& r.1.left_curve_control_point == old(self).library.b_vertex_positions@.len()
                    + 2
            }),
    {
        let a = self.library.b_vertex_positions[subdivision.left_curve_left];
        let c = self.library.b_vertex_positions[subdivision.left_curve_control_point];
        let b = self.library.b_vertex_positions[subdivision.middle_point];
        let left_control = Vector2 {
            x: lerp_coord(a.x, c.x, t.num, t.den),
            y: lerp_coord(a.y, c.y, t.num, t.den),
        };
        let right_control = Vector2 {
            x: lerp_coord(c.x, b.x, t.num, t.den),
            y: lerp_coord(c.y, b.y, t.num, t.den),
        };
        let middle_point = Vector2 {
            x: middle_x,
            y: sample_curve_coord(a.y, c.y, b.y, t.num, t.den),
        };
        let left_control_index = self.library.push_vertex(
            left_control,
            self.path_id,
            BVertexLoopBlinnData::control_point(&a, &left_control, &middle_point, bottom),
        );
        let middle_index = self.library.push_vertex(
            middle_point,
            self.path_id,
            BVertexLoopBlinnData::new(BVertexKind::Endpoint0),
        );
        let right_control_index = self.library.push_vertex(
            right_control,
            self.path_id,
            BVertexLoopBlinnData::control_point(&middle_point, &right_control, &b, bottom),
        );
        let total = self.library.vertex_count();
        proof {
            assert(right_control_index < total);
        }
        (
            SubdividedActiveEdge {
                left_curve_left: subdivision.left_curve_left,
                left_curve_control_point: left_control_index,
                middle_point: middle_index,
            },
            SubdividedActiveEdge {
                left_curve_left: middle_index,
                left_curve_control_point: right_control_index,
                middle_point: subdivision.middle_point,
            },
        )
    }

    /// Cuts a subdivided curve piece at parameter `t`; the middle vertex
    /// lands where the curve sample puts it.
    fn subdivide_active_edge_again_at_t(
        &mut self,
        subdivision: &SubdividedActiveEdge,
        t: CurveParam,
        bottom: bool,
    ) -> (r: (SubdividedActiveEdge, SubdividedActiveEdge))
        requires
            old(self).wf(),
            subdivision.left_curve_left < old(self).library.b_vertex_positions@.len(),
            subdivision.left_curve_control_point != NO_CONTROL_POINT_VERTEX,
            subdivision.left_curve_control_point < old(self).library.b_vertex_positions@.len(),
            subdivision.middle_point < old(self).library.b_vertex_positions@.len(),
            wf_param(t),
        ensures
            final(self).wf(),
            Partitioner::same_inputs(*old(self), *final(self)),
            final(self).path_id == old(self).path_id,
            final(self).heap@ == old(self).heap@,
            final(self).visited_points@ == old(self).visited_points@,
            final(self).active_edges@ == old(self).active_edges@,
            library_vertices_extended(old(self).library, final(self).library),
            r.0.left_curve_left == subdivision.left_curve_left,
            r.0.left_curve_control_point != NO_CONTROL_POINT_VERTEX,
            r.0.left_curve_control_point < final(self).library.b_vertex_positions@.len(),
            r.0.middle_point < final(self).library.b_vertex_positions@.len(),
            r.1.left_curve_left == r.0.middle_point,
            r.1.left_curve_control_point != NO_CONTROL_POINT_VERTEX,
            r.1.left_curve_control_point < final(self).library.b_vertex_positions@.len(),
            r.1.middle_point == subdivision.middle_point,
            ({
                let a = old(self).library.b_vertex_positions@[subdivision.left_curve_left as int];
                let c = old(self).library.b_vertex_positions@[
                    subdivision.left_curve_control_point as int
                ];
                let b = old(self).library.b_vertex_positions@[subdivision.middle_point as int];
                &&& r.0.left_curve_control_point == old(self).library.b_vertex_positions@.len()
                &&& r.0.middle_point == old(self).library.b_vertex_positions@.len() + 1
                &&& r.1.left_curve_control_point == old(self).library.b_vertex_positions@.len()
                    + 2
                &&& final(self).library.b_vertex_positions@.len() == old(
                    self,
                ).library.b_vertex_positions@.len() + 3
                &&& final(self).library.b_vertex_positions@[r.0.middle_point as int] == (Vector2 {
                    x: curve_val(
                        a.x as int,
                        c.x as int,
                        b.x as int,
                        t.num as int,
                        t.den as int,
                    ) as i64,
                    y: curve_val(
                        a.y as int,
                        c.y as int,
                        b.y as int,
                        t.num as int,
                        t.den as int,
                    ) as i64,
                })
                &&& final(self).library.b_vertex_loop_blinn_data@[r.0.middle_point as int]
                    == BVertexLoopBlinnData::of_kind(BVertexKind::Endpoint0)
            }),
    {
        let a = self.library.b_vertex_positions[subdivision.left_curve_left];
        let c = self.library.b_vertex_positions[subdivision.left_curve_control_point];
        let b = self.library.b_vertex_positions[subdivision.middle_point];
        let middle_x = sample_curve_coord(a.x, c.x, b.x, t.num, t.den);
        self.subdivide_again(subdivision, t, bottom, middle_x)
    }

    /// Cuts a subdivided curve piece at the vertical line at `x`; the new
    /// middle vertex lands exactly on that line.
    fn subdivide_active_edge_again_at_x(
        &mut self,
        subdivision: &SubdividedActiveEdge,
        x: i64,
        bottom: bool,
    ) -> (r: (SubdividedActiveEdge, SubdividedActiveEdge))
        requires
            old(self).wf(),
            subdivision.left_curve_left < old(self).library.b_vertex_positions@.len(),
            subdivision.left_curve_control_point != NO_CONTROL_POINT_VERTEX,
            subdivision.left_curve_control_point < old(self).library.b_vertex_positions@.len(),
            subdivision.middle_point < old(self).library.b_vertex_positions@.len(),
            wf_coord(x),
        ensures
            final(self).wf(),
            Partitioner::same_inputs(*old(self), *final(self)),
            final(self).path_id == old(self).path_id,
            final(self).heap@ == old(self).heap@,
            final(self).visited_points@ == old(self).visited_points@,
            final(self).active_edges@ == old(self).active_edges@,
            library_vertices_extended(old(self).library, final(self).library),
            r.0.left_curve_left == subdivision.left_curve_left,
            r.0.left_curve_control_point != NO_CONTROL_POINT_VERTEX,
            r.0.left_curve_control_point < final(self).library.b_vertex_positions@.len(),
            r.0.middle_point < final(self).library.b_vertex_positions@.len(),
            r.1.left_curve_left == r.0.middle_point,
            r.1.left_curve_control_point != NO_CONTROL_POINT_VERTEX,
            r.1.left_curve_control_point < final(self).library.b_vertex_positions@.len(),
            r.1.middle_point == subdivision.middle_point,
            final(self).library.b_vertex_positions@[r.0.middle_point as int].x == x,
    {
        let a = self.library.b_vertex_positions[subdivision.left_curve_left];
        let c = self.library.b_vertex_positions[subdivision.left_curve_control_point];
        let b = self.library.b_vertex_positions[subdivision.middle_point];
        let t = solve_curve_t_for_x(a, c, b, x);
        self.subdivide_again(subdivision, t, bottom, x)
    }

    /// Whether the emitter emits at once instead of subdividing: the
    /// recursion budget is spent, one boundary is a line, or neither concave
    /// boundary's control point crosses the other boundary's baseline.
    pub open spec fn emit_terminal_case(
        self,
        upper_subdivision: SubdividedActiveEdge,
        lower_subdivision: SubdividedActiveEdge,
        iteration: u8,
    ) -> bool {
        ||| iteration >= MAX_B_QUAD_SUBDIVISIONS
        ||| upper_subdivision.left_curve_control_point == NO_CONTROL_POINT_VERTEX
        ||| lower_subdivision.left_curve_control_point == NO_CONTROL_POINT_VERTEX
        ||| ({
            let positions = self.library.b_vertex_positions@;
            let data = self.library.b_vertex_loop_blinn_data@;
            &&& !(upper_subdivision.shape_spec(data) == Shape::Concave && cross_val(
                positions[lower_subdivision.left_curve_left as int],
                positions[lower_subdivision.middle_point as int],
                positions[upper_subdivision.left_curve_control_point as int],
            ) > 0)
            &&& !(lower_subdivision.shape_spec(data) == Shape::Concave && cross_val(
                positions[upper_subdivision.left_curve_left as int],
                positions[upper_subdivision.middle_point as int],
                positions[lower_subdivision.left_curve_control_point as int],
            ) < 0)
        })
    }

    /// Emits B-quads between two subdivided bounding edges, recursively
    /// subdividing while one boundary is concave and its control point
    /// crosses the other boundary's baseline, up to
    /// `MAX_B_QUAD_SUBDIVISIONS` rounds; then writes the Loop-Blinn labels of
    /// both middle vertices from the edges' parities, toggles those
    /// parities, and records the triangles and the B-quad.
    #[verifier::rlimit(60)]
    fn emit_b_quads(
        &mut self,
        upper_active_edge_index: usize,
        lower_active_edge_index: usize,
        upper_subdivision: &SubdividedActiveEdge,
        lower_subdivision: &SubdividedActiveEdge,
        iteration: u8,
    )
        requires
            old(self).wf(),
            upper_active_edge_index < old(self).active_edges@.len(),
            lower_active_edge_index < old(self).active_edges@.len(),
            upper_active_edge_index != lower_active_edge_index,
            sub_wf(*upper_subdivision, old(self).library.b_vertex_positions@.len()),
            sub_wf(*lower_subdivision, old(self).library.b_vertex_positions@.len()),
            old(self).library.b_vertex_positions@[upper_subdivision.middle_point as int].x == old(
                self,
            ).library.b_vertex_positions@[lower_subdivision.middle_point as int].x,
            iteration <= MAX_B_QUAD_SUBDIVISIONS,
        ensures
            final(self).wf(),
            Partitioner::same_inputs(*old(self), *final(self)),
            final(self).path_id == old(self).path_id,
            final(self).heap@ == old(self).heap@,
            final(self).visited_points@ == old(self).visited_points@,
            library_extended(old(self).library, final(self).library),
            final(self).active_edges@.len() == old(self).active_edges@.len(),
            forall|i: int|
                0 <= i < old(self).active_edges@.len() ==> edge_same_geometry(
                    old(self).active_edges@[i],
                    #[trigger] final(self).active_edges@[i],
                ),
            forall|i: int|
                0 <= i < old(self).active_edges@.len() && i != upper_active_edge_index && i
                    != lower_active_edge_index ==> #[trigger] final(self).active_edges@[i] == old(
                    self,
                ).active_edges@[i],
            final(self).library.b_quads@.len() > old(self).library.b_quads@.len(),
            old(self).emit_terminal_case(*upper_subdivision, *lower_subdivision, iteration)
                ==> ({
                let upper_shape = upper_subdivision.shape_spec(
                    old(self).library.b_vertex_loop_blinn_data@,
                );
                let lower_shape = lower_subdivision.shape_spec(
                    old(self).library.b_vertex_loop_blinn_data@,
                );
                let after = *final(self);
                &&& after.library.b_vertex_positions@ == old(self).library.b_vertex_positions@
                &&& after.library.b_quads@ == old(self).library.b_quads@.push(
                    BQuad {
                        upper_left_vertex_index: upper_subdivision.left_curve_left,
                        upper_control_point_vertex_index:
                            upper_subdivision.left_curve_control_point,
                        upper_right_vertex_index: upper_subdivision.middle_point,
                        lower_left_vertex_index: lower_subdivision.left_curve_left,
                        lower_control_point_vertex_index:
                            lower_subdivision.left_curve_control_point,
                        lower_right_vertex_index: lower_subdivision.middle_point,
                    },
                )
                &&& after.library.b_vertex_loop_blinn_data@ == old(
                    self,
                ).library.b_vertex_loop_blinn_data@.update(
                    upper_subdivision.middle_point as int,
                    BVertexLoopBlinnData::of_kind(
                        endpoint_kind_of_parity(
                            old(self).active_edges@[upper_active_edge_index as int].parity,
                        ),
                    ),
                ).update(
                    lower_subdivision.middle_point as int,
                    BVertexLoopBlinnData::of_kind(
                        endpoint_kind_of_parity(
                            old(self).active_edges@[lower_active_edge_index as int].parity,
                        ),
                    ),
                )
                &&& after.library.cover_indices.interior_indices@ == old(
                    self,
                ).library.cover_indices.interior_indices@ + interior_triangles_for(
                    *upper_subdivision,
                    *lower_subdivision,
                    upper_shape == Shape::Concave,
                    lower_shape == Shape::Concave,
                )
                &&& after.library.cover_indices.curve_indices@ == old(
                    self,
                ).library.cover_indices.curve_indices@ + curve_triangles_for(
                    *upper_subdivision,
                    *lower_subdivision,
                    upper_shape,
                    lower_shape,
                )
                &&& after.active_edges@ == old(self).active_edges@.update(
                    upper_active_edge_index as int,
                    edge_with_parity_flipped(
                        old(self).active_edges@[upper_active_edge_index as int],
                    ),
                ).update(
                    lower_active_edge_index as int,
                    edge_with_parity_flipped(
                        old(self).active_edges@[lower_active_edge_index as int],
                    ),
                )
            }),
        decreases MAX_B_QUAD_SUBDIVISIONS - iteration,
    {
        let ghost entry = *self;
        let upper_shape = upper_subdivision.shape(&self.library.b_vertex_loop_blinn_data);
        let lower_shape = lower_subdivision.shape(&self.library.b_vertex_loop_blinn_data);

        if iteration < MAX_B_QUAD_SUBDIVISIONS
            && upper_subdivision.left_curve_control_point != NO_CONTROL_POINT_VERTEX
            && lower_subdivision.left_curve_control_point != NO_CONTROL_POINT_VERTEX {
            let upper_control =
                self.library.b_vertex_positions[upper_subdivision.left_curve_control_point];
            let lower_control =
                self.library.b_vertex_positions[lower_subdivision.left_curve_control_point];
            let upper_baseline_left =
                self.library.b_vertex_positions[upper_subdivision.left_curve_left];
            let upper_baseline_right =
                self.library.b_vertex_positions[upper_subdivision.middle_point];
            let lower_baseline_left =
                self.library.b_vertex_positions[lower_subdivision.left_curve_left];
            let lower_baseline_right =
                self.library.b_vertex_positions[lower_subdivision.middle_point];

            let upper_concave = match upper_shape {
                Shape::Concave => true,
                _ => false,
            };
            if upper_concave
                && cross_from(lower_baseline_left, lower_baseline_right, upper_control) > 0 {
                let half = CurveParam { num: 1, den: 2 };
                let (upper_left_sub, upper_right_sub) =
                    self.subdivide_active_edge_again_at_t(upper_subdivision, half, false);
                let midpoint_x =
                    self.library.b_vertex_positions[upper_left_sub.middle_point].x;
                let ghost after_upper = *self;
                let (lower_left_sub, lower_right_sub) =
                    self.subdivide_active_edge_again_at_x(lower_subdivision, midpoint_x, true);
                proof {
                    lemma_prefix_index(
                        after_upper.library.b_vertex_positions@,
                        self.library.b_vertex_positions@,
                        upper_left_sub.middle_point as int,
                    );
                    lemma_prefix_index(
                        entry.library.b_vertex_positions@,
                        after_upper.library.b_vertex_positions@,
                        upper_subdivision.middle_point as int,
                    );
                    lemma_prefix_index(
                        after_upper.library.b_vertex_positions@,
                        self.library.b_vertex_positions@,
                        upper_subdivision.middle_point as int,
                    );
                }
                let ghost before_first = *self;
                self.emit_b_quads(
                    upper_active_edge_index,
                    lower_active_edge_index,
                    &upper_left_sub,
                    &lower_left_sub,
                    iteration + 1,
                );
                proof {
                    lemma_prefix_index(
                        before_first.library.b_vertex_positions@,
                        self.library.b_vertex_positions@,
                        upper_right_sub.middle_point as int,
                    );
                    lemma_prefix_index(
                        before_first.library.b_vertex_positions@,
                        self.library.b_vertex_positions@,
                        lower_right_sub.middle_point as int,
                    );
                }
                self.emit_b_quads(
                    upper_active_edge_index,
                    lower_active_edge_index,
                    &upper_right_sub,
                    &lower_right_sub,
                    iteration + 1,
                );
                proof {
                    lemma_prefix_trans(
                        entry.library.b_vertex_positions@,
                        before_first.library.b_vertex_positions@,
                        self.library.b_vertex_positions@,
                    );
                    lemma_prefix_trans(
                        entry.library.cover_indices.interior_indices@,
                        before_first.library.cover_indices.interior_indices@,
                        self.library.cover_indices.interior_indices@,
                    );
                    lemma_prefix_trans(
                        entry.library.cover_indices.curve_indices@,
                        before_first.library.cover_indices.curve_indices@,
                        self.library.cover_indices.curve_indices@,
                    );
                    lemma_prefix_trans(
                        entry.library.b_quads@,
                        before_first.library.b_quads@,
                        self.library.b_quads@,
                    );
                }
                return ;
            }

            let lower_concave = match lower_shape {
                Shape::Concave => true,
                _ => false,
            };
            if lower_concave
                && cross_from(upper_baseline_left, upper_baseline_right, lower_control) < 0 {
                let half = CurveParam { num: 1, den: 2 };
                let (lower_left_sub, lower_right_sub) =
                    self.subdivide_active_edge_again_at_t(lower_subdivision, half, true);
                let midpoint_x =
                    self.library.b_vertex_positions[lower_left_sub.middle_point].x;
                let ghost after_lower = *self;
                let (upper_left_sub, upper_right_sub) =
                    self.subdivide_active_edge_again_at_x(upper_subdivision, midpoint_x, false);
                proof {
                    lemma_prefix_index(
                        after_lower.library.b_vertex_positions@,
                        self.library.b_vertex_positions@,
                        lower_left_sub.middle_point as int,
                    );
                    lemma_prefix_index(
                        entry.library.b_vertex_positions@,
                        after_lower.library.b_vertex_positions@,
                        lower_subdivision.middle_point as int,
                    );
                    lemma_prefix_index(
                        after_lower.library.b_vertex_positions@,
                        self.library.b_vertex_positions@,
                        lower_subdivision.middle_point as int,
                    );
                }
                let ghost before_first = *self;
                self.emit_b_quads(
                    upper_active_edge_index,
                    lower_active_edge_index,
                    &upper_left_sub,
                    &lower_left_sub,
                    iteration + 1,
                );
                proof {
                    lemma_prefix_index(
                        before_first.library.b_vertex_positions@,
                        self.library.b_vertex_positions@,
                        upper_right_sub.middle_point as int,
                    );
                    lemma_prefix_index(
                        before_first.library.b_vertex_positions@,
                        self.library.b_vertex_positions@,
                        lower_right_sub.middle_point as int,
                    );
                }
                self.emit_b_quads(
                    upper_active_edge_index,
                    lower_active_edge_index,
                    &upper_right_sub,
                    &lower_right_sub,
                    iteration + 1,
                );
                proof {
                    lemma_prefix_trans(
                        entry.library.b_vertex_positions@,
                        before_first.library.b_vertex_positions@,
                        self.library.b_vertex_positions@,
                    );
                    lemma_prefix_trans(
                        entry.library.cover_indices.interior_indices@,
                        before_first.library.cover_indices.interior_indices@,
                        self.library.cover_indices.interior_indices@,
                    );
                    lemma_prefix_trans(
                        entry.library.cover_indices.curve_indices@,
                        before_first.library.cover_indices.curve_indices@,
                        self.library.cover_indices.curve_indices@,
                    );
                    lemma_prefix_trans(
                        entry.library.b_quads@,
                        before_first.library.b_quads@,
                        self.library.b_quads@,
                    );
                }
                return ;
            }
        }

        let upper_edge = self.active_edges[upper_active_edge_index];
        self.library.set_loop_blinn_data(
            upper_subdivision.middle_point,
            BVertexLoopBlinnData::new(upper_edge.endpoint_kind()),
        );
        let mut updated_upper = upper_edge;
        updated_upper.parity = !updated_upper.parity;
        self.active_edges[upper_active_edge_index] = updated_upper;

        let lower_edge = self.active_edges[lower_active_edge_index];
        self.library.set_loop_blinn_data(
            lower_subdivision.middle_point,
            BVertexLoopBlinnData::new(lower_edge.endpoint_kind()),
        );
        let mut updated_lower = lower_edge;
        updated_lower.parity = !updated_lower.parity;
        self.active_edges[lower_active_edge_index] = updated_lower;

        let upper_flat = match upper_shape {
            Shape::Flat => true,
            _ => false,
        };
        let lower_flat = match lower_shape {
            Shape::Flat => true,
            _ => false,
        };
        let upper_concave = match upper_shape {
            Shape::Concave => true,
            _ => false,
        };
        let lower_concave = match lower_shape {
            Shape::Concave => true,
            _ => false,
        };

        if !upper_concave && !lower_concave {
            self.library.push_interior_triangle(
                upper_subdivision.left_curve_left,
                upper_subdivision.middle_point,
                lower_subdivision.left_curve_left,
            );
            self.library.push_interior_triangle(
                lower_subdivision.middle_point,
                lower_subdivision.left_curve_left,
                upper_subdivision.middle_point,
            );
            if !upper_flat {
                self.library.push_curve_triangle(
                    upper_subdivision.left_curve_control_point,
                    upper_subdivision.middle_point,
                    upper_subdivision.left_curve_left,
                );
            }
            if !lower_flat {
                self.library.push_curve_triangle(
                    lower_subdivision.left_curve_control_point,
                    lower_subdivision.left_curve_left,
                    lower_subdivision.middle_point,
                );
            }
        } else if upper_concave && !lower_concave {
            self.library.push_interior_triangle(
                upper_subdivision.left_curve_left,
                upper_subdivision.left_curve_control_point,
                lower_subdivision.left_curve_left,
            );
            self.library.push_interior_triangle(
                upper_subdivision.middle_point,
                lower_subdivision.middle_point,
                upper_subdivision.left_curve_control_point,
            );
            self.library.push_interior_triangle(
                lower_subdivision.middle_point,
                lower_subdivision.left_curve_left,
                upper_subdivision.left_curve_control_point,
            );
            self.library.push_curve_triangle(
                upper_subdivision.left_curve_control_point,
                upper_subdivision.left_curve_left,
                upper_subdivision.middle_point,
            );
            if !lower_flat {
                self.library.push_curve_triangle(
                    lower_subdivision.left_curve_control_point,
                    lower_subdivision.left_curve_left,
                    lower_subdivision.middle_point,
                );
            }
        } else if !upper_concave && lower_concave {
            self.library.push_interior_triangle(
                upper_subdivision.left_curve_left,
                upper_subdivision.middle_point,
                lower_subdivision.left_curve_control_point,
            );
            self.library.push_interior_triangle(
                upper_subdivision.middle_point,
                lower_subdivision.middle_point,
                lower_subdivision.left_curve_control_point,
            );
            self.library.push_interior_triangle(
                upper_subdivision.left_curve_left,
                lower_subdivision.left_curve_control_point,
                lower_subdivision.left_curve_left,
            );
            self.library.push_curve_triangle(
                lower_subdivision.left_curve_control_point,
                lower_subdivision.middle_point,
                lower_subdivision.left_curve_left,
            );
            if !upper_flat {
                self.library.push_curve_triangle(
                    upper_subdivision.left_curve_control_point,
                    upper_subdivision.middle_point,
                    upper_subdivision.left_curve_left,
                );
            }
        } else {
            self.library.push_interior_triangle(
                upper_subdivision.left_curve_left,
                upper_subdivision.left_curve_control_point,
                lower_subdivision.left_curve_left,
            );
            self.library.push_interior_triangle(
                lower_subdivision.left_curve_left,
                upper_subdivision.left_curve_control_point,
                lower_subdivision.left_curve_control_point,
            );
            self.library.push_interior_triangle(
                upper_subdivision.middle_point,
                lower_subdivision.left_curve_control_point,
                upper_subdivision.left_curve_control_point,
            );
            self.library.push_interior_triangle(
                upper_subdivision.middle_point,
                lower_subdivision.middle_point,
                lower_subdivision.left_curve_control_point,
            );
            self.library.push_curve_triangle(
                upper_subdivision.left_curve_control_point,
                upper_subdivision.left_curve_left,
                upper_subdivision.middle_point,
            );
            self.library.push_curve_triangle(
                lower_subdivision.left_curve_control_point,
                lower_subdivision.middle_point,
                lower_subdivision.left_curve_left,
            );
        }

        let b_quad = BQuad::new(
            upper_subdivision.left_curve_left,
            upper_subdivision.left_curve_control_point,
            upper_subdivision.middle_point,
            lower_subdivision.left_curve_left,
            lower_subdivision.left_curve_control_point,
            lower_subdivision.middle_point,
        );
        self.library.add_b_quad(&b_quad);
        proof {
            let upper_shape_g = upper_subdivision.shape_spec(
                entry.library.b_vertex_loop_blinn_data@,
            );
            let lower_shape_g = lower_subdivision.shape_spec(
                entry.library.b_vertex_loop_blinn_data@,
            );
            assert(self.library.cover_indices.interior_indices@
                =~= entry.library.cover_indices.interior_indices@ + interior_triangles_for(
                *upper_subdivision,
                *lower_subdivision,
                upper_shape_g == Shape::Concave,
                lower_shape_g == Shape::Concave,
            ));
            assert(self.library.cover_indices.curve_indices@
                =~= entry.library.cover_indices.curve_indices@ + curve_triangles_for(
                *upper_subdivision,
                *lower_subdivision,
                upper_shape_g,
                lower_shape_g,
            ));
            assert(entry.library.b_vertex_positions@.is_prefix_of(
                self.library.b_vertex_positions@,
            ));
            assert(entry.library.cover_indices.interior_indices@.is_prefix_of(
                self.library.cover_indices.interior_indices@,
            ));
            assert(entry.library.cover_indices.curve_indices@.is_prefix_of(
                self.library.cover_indices.curve_indices@,
            ));
            assert(entry.library.b_quads@.is_prefix_of(self.library.b_quads@));
        }
    }

    /// Emits the B-quads that close off the filled region around the given
    /// active edge up to the vertical line at `right_x`: resolves the
    /// bounding pair under the fill rule, cuts both bounds (and every edge
    /// strictly between them) at `right_x`, and hands the two cut-off pieces
    /// to the recursive emitter.
    pub(crate) fn emit_b_quads_around_active_edge(
        &mut self,
        active_edge_index: usize,
        right_x: i64,
    ) -> (r: BQuadEmissionResult)
        requires
            old(self).wf(),
            wf_coord(right_x),
        ensures
            final(self).wf(),
            Partitioner::same_inputs(*old(self), *final(self)),
            final(self).path_id == old(self).path_id,
            final(self).heap@ == old(self).heap@,
            final(self).visited_points@ == old(self).visited_points@,
            library_extended(old(self).library, final(self).library),
            same_topology(old(self).active_edges@, final(self).active_edges@),
            active_edge_index >= old(self).active_edges@.len()
                ==> r == BQuadEmissionResult::NoBQuadEmitted && *final(self) == *old(self),
            active_edge_index < old(self).active_edges@.len() ==> exists|u: int, l: int|
                #![trigger old(self).is_bounding_pair(active_edge_index, u, l)]
                old(self).is_bounding_pair(active_edge_index, u, l) && ((u != l && old(
                    self,
                ).should_subdivide_spec(u, right_x) && old(self).should_subdivide_spec(
                    l,
                    right_x,
                )) ==> final(self).library.b_quads@.len() > old(self).library.b_quads@.len()),
            active_edge_index < old(self).active_edges@.len() ==> exists|u: int, l: int|
                #![trigger old(self).is_bounding_pair(active_edge_index, u, l)]
                old(self).is_bounding_pair(active_edge_index, u, l) && ((u != l && old(
                    self,
                ).should_subdivide_spec(u, right_x) && old(self).should_subdivide_spec(
                    l,
                    right_x,
                )) ==> forall|j: int|
                    u < j < l && old(self).should_subdivide_spec(j, right_x) ==> ({
                        let moved = #[trigger] final(self).active_edges@[j];
                        &&& moved.parity == !old(self).active_edges@[j].parity
                        &&& moved.left_vertex_index
                            < final(self).library.b_vertex_positions@.len()
                        &&& final(self).library.b_vertex_positions@[
                            moved.left_vertex_index as int
                        ].x == right_x
                    })),
            active_edge_index < old(self).active_edges@.len() ==> exists|u: int, l: int|
                #![trigger old(self).is_bounding_pair(active_edge_index, u, l)]
                ({
                    let after = *final(self);
                    &&& old(self).is_bounding_pair(active_edge_index, u, l)
                    &&& r == (if u == l {
                        BQuadEmissionResult::NoBQuadEmitted
                    } else if u == active_edge_index as int {
                        BQuadEmissionResult::BQuadEmittedBelow
                    } else if l == active_edge_index as int {
                        BQuadEmissionResult::BQuadEmittedAbove
                    } else {
                        BQuadEmissionResult::BQuadEmittedAround
                    })
                    &&& (u == l ==> after == *old(self))
                    &&& (u != l && !(old(self).should_subdivide_spec(u, right_x) && old(
                        self,
                    ).should_subdivide_spec(l, right_x)) ==> after == *old(self))
                    &&& (u != l && old(self).should_subdivide_spec(u, right_x) && old(
                        self,
                    ).should_subdivide_spec(l, right_x) ==> ({
                        &&& after.library.b_quads@.len() > old(self).library.b_quads@.len()
                        &&& after.active_edges@[u].left_vertex_index
                            < after.library.b_vertex_positions@.len()
                        &&& after.library.b_vertex_positions@[
                            after.active_edges@[u].left_vertex_index as int
                        ].x == right_x
                        &&& after.active_edges@[l].left_vertex_index
                            < after.library.b_vertex_positions@.len()
                        &&& after.library.b_vertex_positions@[
                            after.active_edges@[l].left_vertex_index as int
                        ].x == right_x
                    }))
                }),
    {
        let ghost entry = *self;
        if active_edge_index >= self.active_edges.len() {
            return BQuadEmissionResult::NoBQuadEmitted;
        }

        let bounds = self.bounding_active_edges_for_fill(active_edge_index);
        let upper_active_edge_index = bounds.0;
        let lower_active_edge_index = bounds.1;

        let emission_result = BQuadEmissionResult::new(
            active_edge_index,
            upper_active_edge_index,
            lower_active_edge_index,
        );
        if emission_result == BQuadEmissionResult::NoBQuadEmitted {
            return emission_result;
        }

        if !self.should_subdivide_active_edge_at(upper_active_edge_index, right_x)
            || !self.should_subdivide_active_edge_at(lower_active_edge_index, right_x) {
            return emission_result;
        }

        let upper_curve = self.subdivide_active_edge_at(
            upper_active_edge_index,
            right_x,
            SubdivisionType::Upper,
        );
        let mut inside_index = upper_active_edge_index + 1;
        while inside_index < lower_active_edge_index
            invariant
                entry == *old(self),
                entry.wf(),
                self.wf(),
                Partitioner::same_inputs(entry, *self),
                self.path_id == entry.path_id,
                self.heap@ == entry.heap@,
                self.visited_points@ == entry.visited_points@,
                library_vertices_extended(entry.library, self.library),
                same_topology(entry.active_edges@, self.active_edges@),
                upper_active_edge_index < inside_index,
                inside_index <= lower_active_edge_index,
                lower_active_edge_index < self.active_edges@.len(),
                wf_coord(right_x),
                forall|j: int|
                    inside_index <= j < self.active_edges@.len() && j != upper_active_edge_index
                        ==> #[trigger] self.active_edges@[j] == entry.active_edges@[j],
                forall|j: int|
                    upper_active_edge_index < j < inside_index ==> ({
                        let moved = #[trigger] self.active_edges@[j];
                        &&& (entry.should_subdivide_spec(j, right_x) ==> moved.parity
                            == !entry.active_edges@[j].parity && moved.left_vertex_index
                            < self.library.b_vertex_positions@.len()
                            && self.library.b_vertex_positions@[moved.left_vertex_index as int].x
                            == right_x)
                        &&& (!entry.should_subdivide_spec(j, right_x) ==> moved
                            == entry.active_edges@[j])
                    }),
                sub_wf(upper_curve, self.library.b_vertex_positions@.len()),
                self.library.b_vertex_positions@[upper_curve.middle_point as int].x == right_x,
                self.active_edges@[upper_active_edge_index as int].left_vertex_index
                    < self.library.b_vertex_positions@.len(),
                self.library.b_vertex_positions@[self.active_edges@[
                    upper_active_edge_index as int
                ].left_vertex_index as int].x == right_x,
            decreases lower_active_edge_index - inside_index,
        {
            let ghost before = *self;
            if self.should_subdivide_active_edge_at(inside_index, right_x) {
                self.subdivide_active_edge_at(inside_index, right_x, SubdivisionType::Inside);
                let mut toggled = self.active_edges[inside_index];
                toggled.parity = !toggled.parity;
                self.active_edges[inside_index] = toggled;
                proof {
                    lemma_prefix_index(
                        before.library.b_vertex_positions@,
                        self.library.b_vertex_positions@,
                        upper_curve.middle_point as int,
                    );
                    lemma_prefix_index(
                        before.library.b_vertex_positions@,
                        self.library.b_vertex_positions@,
                        before.active_edges@[
                            upper_active_edge_index as int
                        ].left_vertex_index as int,
                    );
                    lemma_prefix_trans(
                        entry.library.b_vertex_positions@,
                        before.library.b_vertex_positions@,
                        self.library.b_vertex_positions@,
                    );
                }
            }
            proof {
                assert forall|j: int| upper_active_edge_index < j < inside_index + 1 implies ({
                    let moved = #[trigger] self.active_edges@[j];
                    &&& (entry.should_subdivide_spec(j, right_x) ==> moved.parity
                        == !entry.active_edges@[j].parity && moved.left_vertex_index
                        < self.library.b_vertex_positions@.len()
                        && self.library.b_vertex_positions@[moved.left_vertex_index as int].x
                        == right_x)
                    &&& (!entry.should_subdivide_spec(j, right_x) ==> moved == entry.active_edges@[
                        j
                    ])
                }) by {
                    if j < inside_index {
                        assert(self.active_edges@[j] == before.active_edges@[j]);
                        if entry.should_subdivide_spec(j, right_x) {
                            lemma_prefix_index(
                                before.library.b_vertex_positions@,
                                self.library.b_vertex_positions@,
                                before.active_edges@[j].left_vertex_index as int,
                            );
                        }
                    } else {
                        assert(edge_wf(
                            entry.active_edges@[j],
                            entry.library.b_vertex_positions@.len() as nat,
                            entry.endpoints@.len() as nat,
                        ));
                        lemma_prefix_index(
                            entry.library.b_vertex_positions@,
                            before.library.b_vertex_positions@,
                            entry.active_edges@[j].left_vertex_index as int,
                        );
                    }
                }
            }
            inside_index = inside_index + 1;
        }
        let ghost before_lower = *self;
        let lower_curve = self.subdivide_active_edge_at(
            lower_active_edge_index,
            right_x,
            SubdivisionType::Lower,
        );
        proof {
            lemma_prefix_index(
                before_lower.library.b_vertex_positions@,
                self.library.b_vertex_positions@,
                upper_curve.middle_point as int,
            );
            lemma_prefix_index(
                before_lower.library.b_vertex_positions@,
                self.library.b_vertex_positions@,
                before_lower.active_edges@[
                    upper_active_edge_index as int
                ].left_vertex_index as int,
            );
            lemma_prefix_trans(
                entry.library.b_vertex_positions@,
                before_lower.library.b_vertex_positions@,
                self.library.b_vertex_positions@,
            );
        }
        let ghost before_emit = *self;
        self.emit_b_quads(
            upper_active_edge_index,
            lower_active_edge_index,
            &upper_curve,
            &lower_curve,
            0,
        );
        proof {
            lemma_prefix_trans(
                entry.library.b_vertex_positions@,
                before_emit.library.b_vertex_positions@,
                self.library.b_vertex_positions@,
            );
            assert(entry.library.cover_indices.interior_indices@.is_prefix_of(
                before_emit.library.cover_indices.interior_indices@,
            ));
            assert(entry.library.cover_indices.curve_indices@.is_prefix_of(
                before_emit.library.cover_indices.curve_indices@,
            ));
            assert(entry.library.b_quads@.is_prefix_of(before_emit.library.b_quads@));
            lemma_prefix_trans(
                entry.library.cover_indices.interior_indices@,
                before_emit.library.cover_indices.interior_indices@,
                self.library.cover_indices.interior_indices@,
            );
            lemma_prefix_trans(
                entry.library.cover_indices.curve_indices@,
                before_emit.library.cover_indices.curve_indices@,
                self.library.cover_indices.curve_indices@,
            );
            lemma_prefix_trans(
                entry.library.b_quads@,
                before_emit.library.b_quads@,
                self.library.b_quads@,
            );
            lemma_prefix_index(
                before_emit.library.b_vertex_positions@,
                self.library.b_vertex_positions@,
                before_emit.active_edges@[
                    upper_active_edge_index as int
                ].left_vertex_index as int,
            );
            lemma_prefix_index(
                before_emit.library.b_vertex_positions@,
                self.library.b_vertex_positions@,
                before_emit.active_edges@[
                    lower_active_edge_index as int
                ].left_vertex_index as int,
            );
            assert(entry.is_bounding_pair(
                active_edge_index,
                upper_active_edge_index as int,
                lower_active_edge_index as int,
            ));
            assert(self.active_edges@[upper_active_edge_index as int].left_vertex_index
                == before_emit.active_edges@[upper_active_edge_index as int].left_vertex_index);
            assert(self.active_edges@[lower_active_edge_index as int].left_vertex_index
                == before_emit.active_edges@[lower_active_edge_index as int].left_vertex_index);
            assert(self.library.b_vertex_positions@[self.active_edges@[
                upper_active_edge_index as int
            ].left_vertex_index as int].x == right_x);
            assert(self.library.b_vertex_positions@[self.active_edges@[
                lower_active_edge_index as int
            ].left_vertex_index as int].x == right_x);
            assert forall|j: int|
                upper_active_edge_index < j < lower_active_edge_index
                    && entry.should_subdivide_spec(j, right_x) implies ({
                let moved = #[trigger] self.active_edges@[j];
                &&& moved.parity == !entry.active_edges@[j].parity
                &&& moved.left_vertex_index < self.library.b_vertex_positions@.len()
                &&& self.library.b_vertex_positions@[moved.left_vertex_index as int].x == right_x
            }) by {
                assert(self.active_edges@[j] == before_emit.active_edges@[j]);
                assert(before_emit.active_edges@[j] == before_lower.active_edges@[j]);
                lemma_prefix_index(
                    before_lower.library.b_vertex_positions@,
                    before_emit.library.b_vertex_positions@,
                    before_lower.active_edges@[j].left_vertex_index as int,
                );
                lemma_prefix_index(
                    before_emit.library.b_vertex_positions@,
                    self.library.b_vertex_positions@,
                    before_emit.active_edges@[j].left_vertex_index as int,
                );
            }
        }
        emission_result
    }
}

/// Appending only vertices extends the library in the broader sense too.
pub proof fn lemma_vertices_extended_implies_extended(a: MeshLibrary, b: MeshLibrary)
    requires
        library_vertices_extended(a, b),
    ensures
        library_extended(a, b),
{
    assert(a.cover_indices.interior_indices@ =~= b.cover_indices.interior_indices@.subrange(
        0,
        a.cover_indices.interior_indices@.len() as int,
    ));
    assert(a.cover_indices.curve_indices@ =~= b.cover_indices.curve_indices@.subrange(
        0,
        a.cover_indices.curve_indices@.len() as int,
    ));
    assert(a.b_quads@ =~= b.b_quads@.subrange(0, a.b_quads@.len() as int));
}

/// Extending the library twice extends it.
pub proof fn lemma_library_extended_trans(a: MeshLibrary, b: MeshLibrary, c: MeshLibrary)
    requires
        library_extended(a, b),
        library_extended(b, c),
    ensures
        library_extended(a, c),
{
    lemma_prefix_trans(a.b_vertex_positions@, b.b_vertex_positions@, c.b_vertex_positions@);
    lemma_prefix_trans(
        a.cover_indices.interior_indices@,
        b.cover_indices.interior_indices@,
        c.cover_indices.interior_indices@,
    );
    lemma_prefix_trans(
        a.cover_indices.curve_indices@,
        b.cover_indices.curve_indices@,
        c.cover_indices.curve_indices@,
    );
    lemma_prefix_trans(a.b_quads@, b.b_quads@, c.b_quads@);
}

impl Partitioner {
    /// The cross product of the outgoing displacements at a Min endpoint:
    /// toward the predecessor, then toward the successor.
    pub open spec fn min_point_cross(self, endpoint_index: u32) -> int {
        cross_val(
            self.endpoints@[endpoint_index as int].position,
            self.endpoints@[self.prev_endpoint_spec(endpoint_index) as int].position,
            self.endpoints@[self.next_endpoint_spec(endpoint_index) as int].position,
        )
    }

    /// The input control point carried by the upper of the two edges a Min
    /// endpoint opens.
    pub open spec fn min_point_upper_control(self, endpoint_index: u32) -> u32 {
        if self.min_point_cross(endpoint_index) >= 0 {
            self.endpoints@[endpoint_index as int].control_point_index
        } else {
            self.endpoints@[self.next_endpoint_spec(endpoint_index) as int].control_point_index
        }
    }

    /// The input control point carried by the lower of the two edges a Min
    /// endpoint opens.
    pub open spec fn min_point_lower_control(self, endpoint_index: u32) -> u32 {
        if self.min_point_cross(endpoint_index) >= 0 {
            self.endpoints@[self.next_endpoint_spec(endpoint_index) as int].control_point_index
        } else {
            self.endpoints@[endpoint_index as int].control_point_index
        }
    }

    /// The upper edge a Min endpoint opens: toward the predecessor when the
    /// cross product is non-negative, else toward the successor; its left
    /// vertex is the endpoint's fresh vertex and its control-point vertex,
    /// if any, is the one pushed right after it.
    pub open spec fn min_point_upper_edge(self, endpoint_index: u32) -> ActiveEdge {
        let cr = self.min_point_cross(endpoint_index);
        ActiveEdge {
            left_vertex_index: self.library.b_vertex_positions@.len() as usize,
            control_point_vertex_index: if self.min_point_upper_control(endpoint_index)
                == NO_CONTROL_POINT {
                NO_CONTROL_POINT_VERTEX
            } else {
                (self.library.b_vertex_positions@.len() + 1) as usize
            },
            right_endpoint_index: if cr >= 0 {
                self.prev_endpoint_spec(endpoint_index)
            } else {
                self.next_endpoint_spec(endpoint_index)
            },
            left_to_right: cr < 0,
            parity: true,
        }
    }

    /// The lower edge a Min endpoint opens, mirroring the upper one.
    pub open spec fn min_point_lower_edge(self, endpoint_index: u32) -> ActiveEdge {
        let cr = self.min_point_cross(endpoint_index);
        ActiveEdge {
            left_vertex_index: self.library.b_vertex_positions@.len() as usize,
            control_point_vertex_index: if self.min_point_lower_control(endpoint_index)
                == NO_CONTROL_POINT {
                NO_CONTROL_POINT_VERTEX
            } else if self.min_point_upper_control(endpoint_index) == NO_CONTROL_POINT {
                (self.library.b_vertex_positions@.len() + 1) as usize
            } else {
                (self.library.b_vertex_positions@.len() + 2) as usize
            },
            right_endpoint_index: if cr >= 0 {
                self.next_endpoint_spec(endpoint_index)
            } else {
                self.prev_endpoint_spec(endpoint_index)
            },
            left_to_right: cr >= 0,
            parity: true,
        }
    }

    /// The vertex positions a Min endpoint appends: its own position, then
    /// the control points of the upper and lower outgoing curves, if any.
    pub open spec fn min_point_positions(self, endpoint_index: u32) -> Seq<Vector2> {
        let base = self.library.b_vertex_positions@.push(
            self.endpoints@[endpoint_index as int].position,
        );
        let with_upper = if self.min_point_upper_control(endpoint_index) == NO_CONTROL_POINT {
            base
        } else {
            base.push(self.control_points@[self.min_point_upper_control(endpoint_index) as int])
        };
        if self.min_point_lower_control(endpoint_index) == NO_CONTROL_POINT {
            with_upper
        } else {
            with_upper.push(
                self.control_points@[self.min_point_lower_control(endpoint_index) as int],
            )
        }
    }

    /// The Loop-Blinn data the vertices of `min_point_positions` carry: an
    /// Endpoint0 label for the shared left vertex, then the classification of
    /// the upper (emitted with `bottom == false`) and lower (`bottom ==
    /// true`) outgoing control points against their chords.
    pub open spec fn min_point_lbd(self, endpoint_index: u32) -> Seq<BVertexLoopBlinnData> {
        let p = self.endpoints@[endpoint_index as int].position;
        let base = self.library.b_vertex_loop_blinn_data@.push(
            BVertexLoopBlinnData::of_kind(BVertexKind::Endpoint0),
        );
        let uc = self.min_point_upper_control(endpoint_index);
        let lc = self.min_point_lower_control(endpoint_index);
        let with_upper = if uc == NO_CONTROL_POINT {
            base
        } else {
            base.push(
                BVertexLoopBlinnData::of_kind(
                    BVertexLoopBlinnData::control_point_kind(
                        p,
                        self.control_points@[uc as int],
                        self.endpoints@[
                            self.min_point_upper_edge(endpoint_index).right_endpoint_index as int
                        ].position,
                        false,
                    ),
                ),
            )
        };
        if lc == NO_CONTROL_POINT {
            with_upper
        } else {
            with_upper.push(
                BVertexLoopBlinnData::of_kind(
                    BVertexLoopBlinnData::control_point_kind(
                        p,
                        self.control_points@[lc as int],
                        self.endpoints@[
                            self.min_point_lower_edge(endpoint_index).right_endpoint_index as int
                        ].position,
                        true,
                    ),
                ),
            )
        }
    }

    /// Opens the two active edges a Min endpoint creates: both share a fresh
    /// left vertex at the endpoint; the cross product of the outgoing
    /// displacements decides which neighbour becomes the upper edge; and a
    /// control-point vertex is appended for each outgoing curve.
    pub(crate) fn add_new_edges_for_min_point(
        &mut self,
        endpoint_index: u32,
        next_active_edge_index: usize,
    )
        requires
            old(self).wf(),
            endpoint_index < old(self).endpoints@.len(),
            next_active_edge_index <= old(self).active_edges@.len(),
        ensures
            final(self).wf(),
            Partitioner::same_inputs(*old(self), *final(self)),
            final(self).path_id == old(self).path_id,
            final(self).heap@ == old(self).heap@,
            final(self).visited_points@ == old(self).visited_points@,
            library_vertices_extended(old(self).library, final(self).library),
            final(self).active_edges@.len() == old(self).active_edges@.len() + 2,
            final(self).library.b_vertex_positions@ == old(self).min_point_positions(
                endpoint_index,
            ),
            final(self).library.b_vertex_loop_blinn_data@ == old(self).min_point_lbd(
                endpoint_index,
            ),
            final(self).active_edges@ == old(self).active_edges@.insert(
                next_active_edge_index as int,
                old(self).min_point_lower_edge(endpoint_index),
            ).insert(next_active_edge_index as int, old(self).min_point_upper_edge(endpoint_index)),
    {
        let prev_endpoint_index = self.prev_endpoint_of(endpoint_index);
        let next_endpoint_index = self.next_endpoint_of(endpoint_index);

        let position = self.endpoints[endpoint_index as usize].position;
        let left_vertex_index = self.library.push_vertex(
            position,
            self.path_id,
            BVertexLoopBlinnData::new(BVertexKind::Endpoint0),
        );

        let prev_position = self.endpoints[prev_endpoint_index as usize].position;
        let next_position = self.endpoints[next_endpoint_index as usize].position;

        let mut upper_edge = ActiveEdge::default();
        let mut lower_edge = ActiveEdge::default();
        upper_edge.left_vertex_index = left_vertex_index;
        lower_edge.left_vertex_index = left_vertex_index;
        upper_edge.parity = true;
        lower_edge.parity = true;

        let upper_control_point_index: u32;
        let lower_control_point_index: u32;
        if cross_from(position, prev_position, next_position) >= 0 {
            upper_edge.right_endpoint_index = prev_endpoint_index;
            lower_edge.right_endpoint_index = next_endpoint_index;
            upper_edge.left_to_right = false;
            lower_edge.left_to_right = true;
            upper_control_point_index =
                self.endpoints[endpoint_index as usize].control_point_index;
            lower_control_point_index =
                self.endpoints[next_endpoint_index as usize].control_point_index;
        } else {
            upper_edge.right_endpoint_index = next_endpoint_index;
            lower_edge.right_endpoint_index = prev_endpoint_index;
            upper_edge.left_to_right = true;
            lower_edge.left_to_right = false;
            upper_control_point_index =
                self.endpoints[next_endpoint_index as usize].control_point_index;
            lower_control_point_index =
                self.endpoints[endpoint_index as usize].control_point_index;
        }

        if upper_control_point_index == NO_CONTROL_POINT {
            upper_edge.control_point_vertex_index = NO_CONTROL_POINT_VERTEX;
        } else {
            let control_point_position =
                self.control_points[upper_control_point_index as usize];
            let right_vertex_position =
                self.endpoints[upper_edge.right_endpoint_index as usize].position;
            let data = BVertexLoopBlinnData::control_point(
                &position,
                &control_point_position,
                &right_vertex_position,
                false,
            );
            let index = self.library.push_vertex(control_point_position, self.path_id, data);
            upper_edge.control_point_vertex_index = index;
        }

        if lower_control_point_index == NO_CONTROL_POINT {
            lower_edge.control_point_vertex_index = NO_CONTROL_POINT_VERTEX;
        } else {
            let control_point_position =
                self.control_points[lower_control_point_index as usize];
            let right_vertex_position =
                self.endpoints[lower_edge.right_endpoint_index as usize].position;
            let data = BVertexLoopBlinnData::control_point(
                &position,
                &control_point_position,
                &right_vertex_position,
                true,
            );
            let index = self.library.push_vertex(control_point_position, self.path_id, data);
            lower_edge.control_point_vertex_index = index;
        }

        self.active_edges.insert(next_active_edge_index, lower_edge);
        self.active_edges.insert(next_active_edge_index, upper_edge);
    }

    /// Handles a Min endpoint: flushes any B-quad between its neighbouring
    /// active edges, opens the two new edges, and schedules both neighbours
    /// of the endpoint, replacing the consumed event.
    #[verifier::rlimit(100)]
    pub(crate) fn process_min_endpoint(&mut self, endpoint_index: u32)
        requires
            old(self).wf(),
            endpoint_index < old(self).endpoints@.len(),
            old(self).heap@.len() > 0,
            old(self).heap_well_positioned(),
            forall|idx: int|
                crate::events::is_first_min(old(self).heap@, idx) ==> old(self).heap@[
                    idx
                ].endpoint_index == endpoint_index,
        ensures
            final(self).wf(),
            Partitioner::same_inputs(*old(self), *final(self)),
            final(self).path_id == old(self).path_id,
            final(self).visited_points@ == old(self).visited_points@,
            final(self).heap@.len() <= old(self).heap@.len() + 1,
            final(self).heap_well_positioned(),
            library_extended(old(self).library, final(self).library),
            forall|i: u32|
                i != endpoint_index && old(self).heap_contains_endpoint(i)
                    ==> #[trigger] final(self).heap_contains_endpoint(i),
            final(self).active_edges@.len() == old(self).active_edges@.len() + 2,
            exists|v: int|
                old(self).library.b_vertex_positions@.len() <= v
                    < final(self).library.b_vertex_positions@.len()
                    && final(self).library.b_vertex_positions@[v] == old(self).endpoints@[
                    endpoint_index as int
                ].position,
            forall|e: u32|
                #[trigger] has_edge_to(final(self).active_edges@, e) ==> has_edge_to(
                    old(self).active_edges@,
                    e,
                ) || e == old(self).prev_endpoint_spec(endpoint_index) || e == old(
                    self,
                ).next_endpoint_spec(endpoint_index),
            exists|idx: int|
                crate::events::is_first_min(old(self).heap@, idx) && final(self).heap@ == ({
                    let next_index = old(self).next_endpoint_spec(endpoint_index);
                    let prev_index = old(self).prev_endpoint_spec(endpoint_index);
                    let next_event = Point {
                        position: old(self).endpoints@[next_index as int].position,
                        endpoint_index: next_index,
                    };
                    let prev_event = Point {
                        position: old(self).endpoints@[prev_index as int].position,
                        endpoint_index: prev_index,
                    };
                    if next_index == prev_index {
                        old(self).heap@.update(idx, next_event)
                    } else {
                        old(self).heap@.update(idx, next_event).push(prev_event)
                    }
                }),
            exists|slot: int|
                #![trigger final(self).active_edges@[slot]]
                ({
                    let cr = old(self).min_point_cross(endpoint_index);
                    let upper = final(self).active_edges@[slot];
                    let lower = final(self).active_edges@[slot + 1];
                    &&& 0 <= slot
                    &&& slot + 1 < final(self).active_edges@.len()
                    &&& upper.right_endpoint_index == (if cr >= 0 {
                        old(self).prev_endpoint_spec(endpoint_index)
                    } else {
                        old(self).next_endpoint_spec(endpoint_index)
                    })
                    &&& lower.right_endpoint_index == (if cr >= 0 {
                        old(self).next_endpoint_spec(endpoint_index)
                    } else {
                        old(self).prev_endpoint_spec(endpoint_index)
                    })
                    &&& upper.left_to_right == (cr < 0)
                    &&& lower.left_to_right == (cr >= 0)
                    &&& upper.parity
                    &&& lower.parity
                    &&& upper.left_vertex_index == lower.left_vertex_index
                    &&& upper.left_vertex_index < final(self).library.b_vertex_positions@.len()
                    &&& final(self).library.b_vertex_positions@[upper.left_vertex_index as int]
                        == old(self).endpoints@[endpoint_index as int].position
                    &&& (upper.control_point_vertex_index == NO_CONTROL_POINT_VERTEX <==> old(
                        self,
                    ).min_point_upper_control(endpoint_index) == NO_CONTROL_POINT)
                    &&& (lower.control_point_vertex_index == NO_CONTROL_POINT_VERTEX <==> old(
                        self,
                    ).min_point_lower_control(endpoint_index) == NO_CONTROL_POINT)
                }),
    {
        let ghost entry = *self;
        let next_active_edge_index = self.find_point_between_active_edges(endpoint_index);

        let endpoint_x = self.endpoints[endpoint_index as usize].position.x;
        self.emit_b_quads_around_active_edge(next_active_edge_index, endpoint_x);

        let ghost after_emit = *self;
        self.add_new_edges_for_min_point(endpoint_index, next_active_edge_index);
        proof {
            lemma_vertices_extended_implies_extended(after_emit.library, self.library);
            lemma_library_extended_trans(entry.library, after_emit.library, self.library);
        }

        proof {
            let slot = next_active_edge_index as int;
            let upper_spec = after_emit.min_point_upper_edge(endpoint_index);
            let lower_spec = after_emit.min_point_lower_edge(endpoint_index);
            assert(self.active_edges@ == after_emit.active_edges@.insert(slot, lower_spec).insert(
                slot,
                upper_spec,
            ));
            assert(self.active_edges@[slot] == upper_spec);
            assert(self.active_edges@[slot + 1] == after_emit.active_edges@.insert(
                slot,
                lower_spec,
            )[slot]);
            assert(self.active_edges@[slot + 1] == lower_spec);
            assert(after_emit.min_point_cross(endpoint_index) == entry.min_point_cross(
                endpoint_index,
            ));
            assert(after_emit.min_point_upper_control(endpoint_index)
                == entry.min_point_upper_control(endpoint_index));
            assert(after_emit.min_point_lower_control(endpoint_index)
                == entry.min_point_lower_control(endpoint_index));
        }

        let prev_endpoint_index = self.prev_endpoint_of(endpoint_index);
        let next_endpoint_index = self.next_endpoint_of(endpoint_index);
        let new_point = self.create_point_from_endpoint(next_endpoint_index);
        let ghost heap_before = self.heap@;
        self.heap.replace_min(new_point);
        proof {
            crate::events::lemma_heap_update_keeps_other_endpoints(
                heap_before,
                self.heap@,
                endpoint_index,
                new_point,
            );
        }
        let ghost heap_replaced = self.heap@;
        if next_endpoint_index != prev_endpoint_index {
            let prev_point = self.create_point_from_endpoint(prev_endpoint_index);
            self.heap.push(prev_point);
            proof {
                assert forall|i: u32|
                    i != endpoint_index && crate::events::heap_has_endpoint(
                        heap_replaced,
                        i,
                    ) implies #[trigger] self.heap_contains_endpoint(i) by {
                    let j = choose|j: int|
                        0 <= j < heap_replaced.len() && (#[trigger] heap_replaced[
                        j]).endpoint_index == i;
                    assert(self.heap@[j].endpoint_index == i);
                }
            }
        }
        let _vertex_total: usize = self.library.vertex_count();
        proof {
            let slot = next_active_edge_index as int;
            let upper_spec = after_emit.min_point_upper_edge(endpoint_index);
            let lower_spec = after_emit.min_point_lower_edge(endpoint_index);
            assert(self.active_edges@[slot] == upper_spec);
            assert(self.active_edges@[slot + 1] == lower_spec);
            assert(self.library.b_vertex_positions@ == after_emit.min_point_positions(
                endpoint_index,
            ));
            assert(self.library.b_vertex_positions@[upper_spec.left_vertex_index as int]
                == entry.endpoints@[endpoint_index as int].position);
            assert(upper_spec.control_point_vertex_index == NO_CONTROL_POINT_VERTEX
                <==> entry.min_point_upper_control(endpoint_index) == NO_CONTROL_POINT);
            assert(lower_spec.control_point_vertex_index == NO_CONTROL_POINT_VERTEX
                <==> entry.min_point_lower_control(endpoint_index) == NO_CONTROL_POINT);

            let v = after_emit.library.b_vertex_positions@.len() as int;
            assert(entry.library.b_vertex_positions@.len() <= v);
            assert(v < self.library.b_vertex_positions@.len());
            assert(self.library.b_vertex_positions@[v] == entry.endpoints@[
                endpoint_index as int
            ].position);

            lemma_has_edge_to_pointwise(entry.active_edges@, after_emit.active_edges@);
            assert forall|e: u32| #[trigger] has_edge_to(self.active_edges@, e) implies
                has_edge_to(entry.active_edges@, e) || e == entry.prev_endpoint_spec(
                endpoint_index,
            ) || e == entry.next_endpoint_spec(endpoint_index) by {
                let k = choose|k: int|
                    0 <= k < self.active_edges@.len() && (#[trigger] self.active_edges@[
                    k]).right_endpoint_index == e;
                if k == slot {
                    assert(self.active_edges@[k] == upper_spec);
                } else if k == slot + 1 {
                    assert(self.active_edges@[k] == lower_spec);
                } else if k < slot {
                    assert(self.active_edges@[k] == after_emit.active_edges@[k]);
                    assert(has_edge_to(after_emit.active_edges@, e));
                } else {
                    assert(self.active_edges@[k] == after_emit.active_edges@[k - 2]);
                    assert(has_edge_to(after_emit.active_edges@, e));
                }
            }

            assert forall|j: int| 0 <= j < self.heap@.len() implies (#[trigger] self.heap@[
            j]).position == self.endpoints@[self.heap@[j].endpoint_index as int].position by {
                let i0 = choose|i0: int|
                    crate::events::is_first_min(heap_before, i0) && heap_replaced
                        == heap_before.update(i0, new_point);
                if j < heap_replaced.len() {
                    if j != i0 {
                        assert(heap_replaced[j] == heap_before[j]);
                    }
                    assert(self.heap@[j] == heap_replaced[j]);
                }
            }
        }
    }

    /// How a Regular endpoint advances the matched active edge, stated
    /// against the edge `pe` and vertex count `plen` that emission left
    /// behind: a fresh left vertex is appended, labelled from the edge's
    /// parity, and the parity toggles, exactly when the recorded left vertex
    /// does not already sit on the endpoint; one control-point vertex is
    /// appended, carrying the curve's Loop-Blinn classification for some
    /// emission side `bottom`, exactly when the next span is curved; and
    /// nothing else is appended.
    pub open spec fn regular_advance_shape(
        before: Partitioner,
        after: Partitioner,
        endpoint_index: u32,
        active_edge_index: usize,
        pe: ActiveEdge,
        plen: int,
        bottom: bool,
    ) -> bool {
        let e = before.active_edges@[active_edge_index as int];
        let target = before.endpoints@[e.right_endpoint_index as int].position;
        let moved = after.active_edges@[active_edge_index as int];
        let advanced = if e.left_to_right {
            before.next_endpoint_spec(endpoint_index)
        } else {
            before.prev_endpoint_spec(endpoint_index)
        };
        let cp = if e.left_to_right {
            before.endpoints@[advanced as int].control_point_index
        } else {
            before.endpoints@[endpoint_index as int].control_point_index
        };
        let pos = after.library.b_vertex_positions@[pe.left_vertex_index as int];
        let vertex_moved = pos != target;
        &&& before.library.b_vertex_positions@.len() <= plen
        &&& pe.left_vertex_index < plen
        &&& moved.parity == (if vertex_moved {
            !pe.parity
        } else {
            pe.parity
        })
        &&& moved.left_vertex_index as int == (if vertex_moved {
            plen
        } else {
            pe.left_vertex_index as int
        })
        &&& after.library.b_vertex_positions@.len() == plen + (if vertex_moved {
            1int
        } else {
            0int
        }) + (if cp == NO_CONTROL_POINT {
            0int
        } else {
            1int
        })
        &&& (vertex_moved ==> after.library.b_vertex_loop_blinn_data@[plen]
            == BVertexLoopBlinnData::of_kind(endpoint_kind_of_parity(pe.parity)))
        &&& (cp != NO_CONTROL_POINT ==> ({
            let cpos = before.control_points@[cp as int];
            &&& moved.control_point_vertex_index as int == plen + (if vertex_moved {
                1int
            } else {
                0int
            })
            &&& after.library.b_vertex_positions@[moved.control_point_vertex_index as int] == cpos
            &&& after.library.b_vertex_loop_blinn_data@[moved.control_point_vertex_index as int]
                == BVertexLoopBlinnData::of_kind(
                BVertexLoopBlinnData::control_point_kind(
                    target,
                    cpos,
                    before.endpoints@[advanced as int].position,
                    bottom,
                ),
            )
        }))
    }

    /// Handles a Regular endpoint: flushes B-quads around the matched edge,
    /// moves the edge's left end to this endpoint (appending a vertex when
    /// the position actually moved), advances the edge to its next endpoint,
    /// reschedules the event, and installs the next curve's control point.
    #[verifier::rlimit(100)]
    pub(crate) fn process_regular_endpoint(&mut self, endpoint_index: u32, active_edge_index: usize)
        requires
            old(self).wf(),
            endpoint_index < old(self).endpoints@.len(),
            active_edge_index < old(self).active_edges@.len(),
            old(self).heap@.len() > 0,
            old(self).heap_well_positioned(),
            forall|idx: int|
                crate::events::is_first_min(old(self).heap@, idx) ==> old(self).heap@[
                    idx
                ].endpoint_index == endpoint_index,
        ensures
            final(self).wf(),
            Partitioner::same_inputs(*old(self), *final(self)),
            final(self).path_id == old(self).path_id,
            final(self).visited_points@ == old(self).visited_points@,
            final(self).heap@.len() == old(self).heap@.len(),
            final(self).heap_well_positioned(),
            library_extended(old(self).library, final(self).library),
            forall|i: u32|
                i != endpoint_index && old(self).heap_contains_endpoint(i)
                    ==> #[trigger] final(self).heap_contains_endpoint(i),
            final(self).active_edges@.len() == old(self).active_edges@.len(),
            forall|e: u32|
                #[trigger] has_edge_to(final(self).active_edges@, e) ==> has_edge_to(
                    old(self).active_edges@,
                    e,
                ) || e == old(self).prev_endpoint_spec(endpoint_index) || e == old(
                    self,
                ).next_endpoint_spec(endpoint_index),
            forall|k: int|
                0 <= k < old(self).active_edges@.len() && k != active_edge_index ==> ((
                #[trigger] final(self).active_edges@[k]).right_endpoint_index == old(
                    self,
                ).active_edges@[k].right_endpoint_index && final(self).active_edges@[
                    k
                ].left_to_right == old(self).active_edges@[k].left_to_right),
            ({
                let direction = old(self).active_edges@[active_edge_index as int].left_to_right;
                let advanced = if direction {
                    old(self).next_endpoint_spec(endpoint_index)
                } else {
                    old(self).prev_endpoint_spec(endpoint_index)
                };
                let moved = final(self).active_edges@[active_edge_index as int];
                &&& moved.right_endpoint_index == advanced
                &&& moved.left_to_right == direction
                &&& moved.left_vertex_index < final(self).library.b_vertex_positions@.len()
                &&& final(self).library.b_vertex_positions@[moved.left_vertex_index as int] == old(
                    self,
                ).endpoints@[old(self).active_edges@[active_edge_index as int].right_endpoint_index as int].position
                &&& (moved.control_point_vertex_index == NO_CONTROL_POINT_VERTEX <==> (if direction {
                    old(self).endpoints@[advanced as int].control_point_index
                } else {
                    old(self).endpoints@[endpoint_index as int].control_point_index
                }) == NO_CONTROL_POINT)
                &&& exists|idx: int|
                    crate::events::is_first_min(old(self).heap@, idx) && final(self).heap@ == old(
                        self,
                    ).heap@.update(
                        idx,
                        Point {
                            position: old(self).endpoints@[advanced as int].position,
                            endpoint_index: advanced,
                        },
                    )
            }),
            exists|u: int, l: int|
                #![trigger old(self).is_bounding_pair(active_edge_index, u, l)]
                ({
                    let x = old(self).endpoints@[endpoint_index as int].position.x;
                    old(self).is_bounding_pair(active_edge_index, u, l) && ((u != l && old(
                        self,
                    ).should_subdivide_spec(u, x) && old(self).should_subdivide_spec(l, x))
                        ==> final(self).library.b_quads@.len() > old(self).library.b_quads@.len())
                }),
            exists|pe: ActiveEdge, plen: int, bottom: bool|
                #[trigger] Partitioner::regular_advance_shape(
                    *old(self),
                    *final(self),
                    endpoint_index,
                    active_edge_index,
                    pe,
                    plen,
                    bottom,
                ),
    {
        let ghost entry = *self;
        let endpoint_x = self.endpoints[endpoint_index as usize].position.x;
        let emission_result = self.emit_b_quads_around_active_edge(active_edge_index, endpoint_x);
        let ghost after_emit = *self;
        let bottom = emission_result == BQuadEmissionResult::BQuadEmittedAbove;

        let prev_endpoint_index = self.prev_endpoint_of(endpoint_index);
        let next_endpoint_index = self.next_endpoint_of(endpoint_index);

        let active_edge = self.active_edges[active_edge_index];
        let endpoint_position =
            self.endpoints[active_edge.right_endpoint_index as usize].position;
        let old_left_position = self.library.b_vertex_positions[active_edge.left_vertex_index];

        let mut edge = active_edge;
        if endpoint_position != old_left_position {
            let new_left_index = self.library.push_vertex(
                endpoint_position,
                self.path_id,
                BVertexLoopBlinnData::new(edge.endpoint_kind()),
            );
            edge.left_vertex_index = new_left_index;
            edge.parity = !edge.parity;
        }

        if edge.left_to_right {
            edge.right_endpoint_index = next_endpoint_index;
        } else {
            edge.right_endpoint_index = prev_endpoint_index;
        }

        let new_point = self.create_point_from_endpoint(edge.right_endpoint_index);
        let ghost heap_before = self.heap@;
        self.heap.replace_min(new_point);
        proof {
            crate::events::lemma_heap_update_keeps_other_endpoints(
                heap_before,
                self.heap@,
                endpoint_index,
                new_point,
            );
        }

        let control_point_index = if edge.left_to_right {
            self.control_point_index_before_endpoint(next_endpoint_index)
        } else {
            self.control_point_index_after_endpoint(prev_endpoint_index)
        };

        if control_point_index == NO_CONTROL_POINT {
            edge.control_point_vertex_index = NO_CONTROL_POINT_VERTEX;
        } else {
            let left_vertex_position = self.library.b_vertex_positions[edge.left_vertex_index];
            let control_point_position = self.control_points[control_point_index as usize];
            let data = BVertexLoopBlinnData::control_point(
                &left_vertex_position,
                &control_point_position,
                &new_point.position,
                bottom,
            );
            let control_vertex_index = self.library.push_vertex(
                control_point_position,
                self.path_id,
                data,
            );
            edge.control_point_vertex_index = control_vertex_index;
        }

        self.active_edges[active_edge_index] = edge;
        let _vertex_total: usize = self.library.vertex_count();
        proof {
            lemma_prefix_index(
                entry.library.b_vertex_positions@,
                self.library.b_vertex_positions@,
                entry.active_edges@[active_edge_index as int].left_vertex_index as int,
            );
            let (u, l): (int, int) = choose|u: int, l: int|
                #![trigger entry.is_bounding_pair(active_edge_index, u, l)]
                entry.is_bounding_pair(active_edge_index, u, l) && ((u != l
                    && entry.should_subdivide_spec(u, endpoint_x) && entry.should_subdivide_spec(
                    l,
                    endpoint_x,
                )) ==> after_emit.library.b_quads@.len() > entry.library.b_quads@.len());
            assert(after_emit.library.b_quads@.len() <= self.library.b_quads@.len());

            assert forall|e: u32| #[trigger] has_edge_to(self.active_edges@, e) implies
                has_edge_to(entry.active_edges@, e) || e == entry.prev_endpoint_spec(
                endpoint_index,
            ) || e == entry.next_endpoint_spec(endpoint_index) by {
                let k = choose|k: int|
                    0 <= k < self.active_edges@.len() && (#[trigger] self.active_edges@[
                    k]).right_endpoint_index == e;
                if k != active_edge_index {
                    assert(self.active_edges@[k].right_endpoint_index == entry.active_edges@[
                        k
                    ].right_endpoint_index);
                    assert(has_edge_to(entry.active_edges@, e));
                }
            }

            assert forall|j: int| 0 <= j < self.heap@.len() implies (#[trigger] self.heap@[
            j]).position == self.endpoints@[self.heap@[j].endpoint_index as int].position by {
                let i0 = choose|i0: int|
                    crate::events::is_first_min(heap_before, i0) && self.heap@
                        == heap_before.update(i0, new_point);
                if j != i0 {
                    assert(self.heap@[j] == heap_before[j]);
                }
            }

            entry.lemma_neighbor_inverse(endpoint_index);
            let pe = after_emit.active_edges@[active_edge_index as int];
            let plen = after_emit.library.b_vertex_positions@.len() as int;
            lemma_prefix_index(
                after_emit.library.b_vertex_positions@,
                self.library.b_vertex_positions@,
                pe.left_vertex_index as int,
            );
            let e0 = entry.active_edges@[active_edge_index as int];
            assert(pe.right_endpoint_index == e0.right_endpoint_index && pe.left_to_right
                == e0.left_to_right);
            assert(self.active_edges@[active_edge_index as int] == edge);
            assert(self.library.b_vertex_positions@[pe.left_vertex_index as int]
                == old_left_position);
            assert(endpoint_position == entry.endpoints@[e0.right_endpoint_index as int].position);
            assert(next_endpoint_index == entry.next_endpoint_spec(endpoint_index));
            assert(prev_endpoint_index == entry.prev_endpoint_spec(endpoint_index));
            if e0.left_to_right {
                assert(control_point_index == entry.endpoints@[
                    next_endpoint_index as int
                ].control_point_index);
            } else {
                assert(control_point_index == entry.endpoints@[
                    endpoint_index as int
                ].control_point_index);
            }
            assert(Partitioner::regular_advance_shape(
                entry,
                *self,
                endpoint_index,
                active_edge_index,
                pe,
                plen,
                bottom,
            ));
        }
    }

    /// Handles a Max endpoint: flushes B-quads around both converging edges,
    /// retires the event, and removes both edges.
    #[verifier::rlimit(100)]
    pub(crate) fn process_max_endpoint(
        &mut self,
        endpoint_index: u32,
        first_active_edge_index: usize,
        second_active_edge_index: usize,
    )
        requires
            old(self).wf(),
            endpoint_index < old(self).endpoints@.len(),
            first_active_edge_index < second_active_edge_index,
            second_active_edge_index < old(self).active_edges@.len(),
            old(self).heap@.len() > 0,
            old(self).heap_well_positioned(),
            forall|idx: int|
                crate::events::is_first_min(old(self).heap@, idx) ==> old(self).heap@[
                    idx
                ].endpoint_index == endpoint_index,
        ensures
            final(self).wf(),
            Partitioner::same_inputs(*old(self), *final(self)),
            final(self).path_id == old(self).path_id,
            final(self).visited_points@ == old(self).visited_points@,
            final(self).heap@.len() == old(self).heap@.len() - 1,
            final(self).heap_well_positioned(),
            forall|e: u32|
                #[trigger] has_edge_to(final(self).active_edges@, e) ==> has_edge_to(
                    old(self).active_edges@,
                    e,
                ),
            library_extended(old(self).library, final(self).library),
            forall|i: u32|
                i != endpoint_index && old(self).heap_contains_endpoint(i)
                    ==> #[trigger] final(self).heap_contains_endpoint(i),
            final(self).active_edges@.len() == old(self).active_edges@.len() - 2,
            forall|k: int|
                0 <= k < first_active_edge_index ==> edge_same_course(
                    old(self).active_edges@[k],
                    #[trigger] final(self).active_edges@[k],
                ),
            forall|k: int|
                first_active_edge_index <= k < second_active_edge_index - 1 ==> edge_same_course(
                    old(self).active_edges@[k + 1],
                    #[trigger] final(self).active_edges@[k],
                ),
            forall|k: int|
                second_active_edge_index - 1 <= k < final(self).active_edges@.len()
                    ==> edge_same_course(
                    old(self).active_edges@[k + 2],
                    #[trigger] final(self).active_edges@[k],
                ),
            exists|idx: int|
                crate::events::is_first_min(old(self).heap@, idx) && final(self).heap@ == old(
                    self,
                ).heap@.remove(idx),
            exists|u: int, l: int|
                #![trigger old(self).is_bounding_pair(first_active_edge_index, u, l)]
                ({
                    let x = old(self).endpoints@[endpoint_index as int].position.x;
                    old(self).is_bounding_pair(first_active_edge_index, u, l) && ((u != l && old(
                        self,
                    ).should_subdivide_spec(u, x) && old(self).should_subdivide_spec(l, x))
                        ==> final(self).library.b_quads@.len() > old(self).library.b_quads@.len())
                }),
    {
        let ghost entry = *self;
        let endpoint_x = self.endpoints[endpoint_index as usize].position.x;
        self.emit_b_quads_around_active_edge(first_active_edge_index, endpoint_x);
        let ghost after_first = *self;
        self.emit_b_quads_around_active_edge(second_active_edge_index, endpoint_x);
        proof {
            lemma_library_extended_trans(entry.library, after_first.library, self.library);
        }

        let ghost heap_before = self.heap@;
        self.heap.pop_min();
        proof {
            crate::events::lemma_heap_remove_keeps_other_endpoints(
                heap_before,
                self.heap@,
                endpoint_index,
            );
        }

        self.active_edges.remove(second_active_edge_index);
        self.active_edges.remove(first_active_edge_index);
        proof {
            let (u, l): (int, int) = choose|u: int, l: int|
                #![trigger entry.is_bounding_pair(first_active_edge_index, u, l)]
                entry.is_bounding_pair(first_active_edge_index, u, l) && ((u != l
                    && entry.should_subdivide_spec(u, endpoint_x) && entry.should_subdivide_spec(
                    l,
                    endpoint_x,
                )) ==> after_first.library.b_quads@.len() > entry.library.b_quads@.len());
            assert(after_first.library.b_quads@.len() <= self.library.b_quads@.len());

            assert forall|e: u32| #[trigger] has_edge_to(self.active_edges@, e) implies
                has_edge_to(entry.active_edges@, e) by {
                let k = choose|k: int|
                    0 <= k < self.active_edges@.len() && (#[trigger] self.active_edges@[
                    k]).right_endpoint_index == e;
                if k < first_active_edge_index {
                    assert(entry.active_edges@[k].right_endpoint_index == e);
                } else if k < second_active_edge_index - 1 {
                    assert(entry.active_edges@[k + 1].right_endpoint_index == e);
                } else {
                    assert(entry.active_edges@[k + 2].right_endpoint_index == e);
                }
            }

            assert forall|j: int| 0 <= j < self.heap@.len() implies (#[trigger] self.heap@[
            j]).position == self.endpoints@[self.heap@[j].endpoint_index as int].position by {
                let i0 = choose|i0: int|
                    crate::events::is_first_min(heap_before, i0) && self.heap@
                        == heap_before.remove(i0);
                if j < i0 {
                    assert(self.heap@[j] == heap_before[j]);
                } else {
                    assert(self.heap@[j] == heap_before[j + 1]);
                }
            }
        }
    }

    /// All neighbouring active edges stand in the right vertical order at
    /// `x`.
    pub open spec fn adjacent_edges_ordered_at(self, x: i64) -> bool {
        forall|k: int|
            0 <= k < self.active_edges@.len() - 1 ==> self.edges_ordered_at(
                self.active_edges@[k],
                #[trigger] self.active_edges@[k + 1],
                x,
            )
    }

    /// Restores the vertical order of the active edges at the event's `x` by
    /// bubble passes; each out-of-order neighbour pair is first searched for
    /// a crossing, and any crossing found has B-quads flushed up to it on
    /// both edges before the pair is swapped. One pass per edge bounds the
    /// passes, so the sort always terminates where an unbounded bubble sort
    /// might not. Returns whether the list ends in order: false reports an
    /// under-resolved intersection, left for a later event to recover.
    pub(crate) fn sort_active_edge_list_and_emit_self_intersections(
        &mut self,
        endpoint_index: u32,
    ) -> (r: bool)
        requires
            old(self).wf(),
            endpoint_index < old(self).endpoints@.len(),
        ensures
            final(self).wf(),
            Partitioner::same_inputs(*old(self), *final(self)),
            final(self).path_id == old(self).path_id,
            final(self).heap@ == old(self).heap@,
            final(self).visited_points@ == old(self).visited_points@,
            library_extended(old(self).library, final(self).library),
            final(self).active_edges@.len() == old(self).active_edges@.len(),
            forall|e: u32|
                #[trigger] has_edge_to(final(self).active_edges@, e) == has_edge_to(
                    old(self).active_edges@,
                    e,
                ),
            r == final(self).adjacent_edges_ordered_at(
                old(self).endpoints@[endpoint_index as int].position.x,
            ),
    {
        let ghost entry = *self;
        let x = self.endpoints[endpoint_index as usize].position.x;
        let edge_count = self.active_edges.len();
        let mut pass: usize = 0;
        while pass <= edge_count
            invariant
                entry == *old(self),
                endpoint_index < entry.endpoints@.len(),
                self.wf(),
                Partitioner::same_inputs(entry, *self),
                self.path_id == entry.path_id,
                self.heap@ == entry.heap@,
                self.visited_points@ == entry.visited_points@,
                library_extended(entry.library, self.library),
                wf_coord(x),
                x == entry.endpoints@[endpoint_index as int].position.x,
                self.active_edges@.len() == entry.active_edges@.len(),
                pass <= edge_count,
                forall|e: u32|
                    #[trigger] has_edge_to(self.active_edges@, e) == has_edge_to(
                        entry.active_edges@,
                        e,
                    ),
            decreases edge_count + 1 - pass,
        {
            let mut swapped = false;
            let mut lower_index: usize = 1;
            while lower_index < self.active_edges.len()
                invariant
                    entry == *old(self),
                    endpoint_index < entry.endpoints@.len(),
                    self.wf(),
                    Partitioner::same_inputs(entry, *self),
                    self.path_id == entry.path_id,
                    self.heap@ == entry.heap@,
                    self.visited_points@ == entry.visited_points@,
                    library_extended(entry.library, self.library),
                    wf_coord(x),
                    x == entry.endpoints@[endpoint_index as int].position.x,
                    lower_index >= 1,
                    self.active_edges@.len() == entry.active_edges@.len(),
                    swapped ==> entry.active_edges@.len() > 1,
                    forall|e: u32|
                        #[trigger] has_edge_to(self.active_edges@, e) == has_edge_to(
                            entry.active_edges@,
                            e,
                        ),
                    !swapped ==> forall|k: int|
                        1 <= k < lower_index ==> self.edges_ordered_at(
                            self.active_edges@[k - 1],
                            #[trigger] self.active_edges@[k],
                            x,
                        ),
                decreases self.active_edges@.len() - lower_index,
            {
                let upper_index = lower_index - 1;
                if !self.active_edges_are_ordered(upper_index, lower_index, x) {
                    match self.crossing_point_for_active_edge(upper_index, x) {
                        Some(crossing_point) => {
                            let ghost b0 = *self;
                            self.emit_b_quads_around_active_edge(upper_index, crossing_point.x);
                            let ghost b1 = *self;
                            self.emit_b_quads_around_active_edge(lower_index, crossing_point.x);
                            proof {
                                lemma_library_extended_trans(
                                    entry.library,
                                    b0.library,
                                    b1.library,
                                );
                                lemma_library_extended_trans(
                                    entry.library,
                                    b1.library,
                                    self.library,
                                );
                                lemma_has_edge_to_pointwise(
                                    b0.active_edges@,
                                    b1.active_edges@,
                                );
                                lemma_has_edge_to_pointwise(
                                    b1.active_edges@,
                                    self.active_edges@,
                                );
                            }
                        },
                        None => {},
                    }
                    if lower_index < self.active_edges.len() {
                        let ghost before_swap = *self;
                        let upper_edge = self.active_edges[upper_index];
                        let lower_edge = self.active_edges[lower_index];
                        self.active_edges[upper_index] = lower_edge;
                        self.active_edges[lower_index] = upper_edge;
                        swapped = true;
                        proof {
                            assert(self.active_edges@ == before_swap.active_edges@.update(
                                upper_index as int,
                                before_swap.active_edges@[lower_index as int],
                            ).update(
                                lower_index as int,
                                before_swap.active_edges@[upper_index as int],
                            ));
                            lemma_has_edge_to_swap(
                                before_swap.active_edges@,
                                upper_index as int,
                                lower_index as int,
                            );
                        }
                    }
                }
                lower_index = lower_index + 1;
            }
            if !swapped {
                proof {
                    assert forall|k: int|
                        0 <= k < self.active_edges@.len() - 1 implies self.edges_ordered_at(
                        self.active_edges@[k],
                        #[trigger] self.active_edges@[k + 1],
                        x,
                    ) by {
                        assert(self.edges_ordered_at(
                            self.active_edges@[k + 1 - 1],
                            self.active_edges@[k + 1],
                            x,
                        ));
                    }
                }
                return true;
            }
            if pass == edge_count {
                break;
            }
            pass = pass + 1;
        }
        let mut ordered = true;
        let mut check_index: usize = 1;
        while check_index < self.active_edges.len()
            invariant
                self.wf(),
                wf_coord(x),
                check_index >= 1,
                ordered ==> forall|k: int|
                    1 <= k < check_index ==> self.edges_ordered_at(
                        self.active_edges@[k - 1],
                        #[trigger] self.active_edges@[k],
                        x,
                    ),
                !ordered ==> exists|k: int|
                    1 <= k < self.active_edges@.len() && !self.edges_ordered_at(
                        self.active_edges@[k - 1],
                        #[trigger] self.active_edges@[k],
                        x,
                    ),
            decreases self.active_edges@.len() - check_index,
        {
            if !self.active_edges_are_ordered(check_index - 1, check_index, x) {
                ordered = false;
                proof {
                    let k = check_index as int;
                    assert(1 <= k < self.active_edges@.len() && !self.edges_ordered_at(
                        self.active_edges@[k - 1],
                        #[trigger] self.active_edges@[k],
                        x,
                    ));
                }
            }
            check_index = check_index + 1;
        }
        proof {
            if ordered {
                assert forall|k: int|
                    0 <= k < self.active_edges@.len() - 1 implies self.edges_ordered_at(
                    self.active_edges@[k],
                    #[trigger] self.active_edges@[k + 1],
                    x,
                ) by {
                    assert(self.edges_ordered_at(
                        self.active_edges@[k + 1 - 1],
                        self.active_edges@[k + 1],
                        x,
                    ));
                }
            } else {
                let k = choose|k: int|
                    1 <= k < self.active_edges@.len() && !self.edges_ordered_at(
                        self.active_edges@[k - 1],
                        #[trigger] self.active_edges@[k],
                        x,
                    );
                assert(!self.edges_ordered_at(
                    self.active_edges@[k - 1],
                    self.active_edges@[k - 1 + 1],
                    x,
                ));
            }
        }
        ordered
    }

    /// Processes the smallest pending event: skips it if stale, otherwise
    /// marks it visited, stabilises the active-edge order, and dispatches to
    /// the Min, Regular, or Max handler by how many active edges converge on
    /// it. Returns false once the queue is empty.
    pub(crate) fn process_next_point(&mut self) -> (r: bool)
        requires
            old(self).wf(),
            old(self).heap_well_positioned(),
        ensures
            final(self).wf(),
            Partitioner::same_inputs(*old(self), *final(self)),
            final(self).path_id == old(self).path_id,
            final(self).heap_well_positioned(),
            library_extended(old(self).library, final(self).library),
            old(self).heap@.len() > 0 ==> exists|idx: int|
                #![trigger old(self).heap@[idx]]
                crate::events::is_first_min(old(self).heap@, idx) && ({
                    let point = old(self).heap@[idx];
                    let stale = point.endpoint_index < old(self).visited_points@.len() && old(
                        self,
                    ).visited_points@[point.endpoint_index as int];
                    &&& (!stale && !has_edge_to(old(self).active_edges@, point.endpoint_index)
                        ==> exists|v: int|
                        old(self).library.b_vertex_positions@.len() <= v
                            < final(self).library.b_vertex_positions@.len()
                            && final(self).library.b_vertex_positions@[v] == old(self).endpoints@[
                            point.endpoint_index as int
                        ].position)
                    &&& (forall|e: u32|
                        #[trigger] has_edge_to(final(self).active_edges@, e) ==> has_edge_to(
                            old(self).active_edges@,
                            e,
                        ) || e == old(self).prev_endpoint_spec(point.endpoint_index) || e == old(
                            self,
                        ).next_endpoint_spec(point.endpoint_index))
                    &&& (final(self).visited_points@ == old(self).visited_points@ || final(self).visited_points@
                        == old(self).visited_points@.update(point.endpoint_index as int, true))
                }),
            crate::visited::visited_monotone(
                old(self).visited_points@,
                final(self).visited_points@,
            ),
            forall|i: u32|
                #[trigger] old(self).heap_contains_endpoint(i) ==> ({
                    let after = *final(self);
                    after.heap_contains_endpoint(i) || (i < after.visited_points@.len()
                        && after.visited_points@[i as int])
                }),
            old(self).heap@.len() > 0 ==> exists|idx: int|
                #![trigger old(self).heap@[idx]]
                crate::events::is_first_min(old(self).heap@, idx) && ({
                    let point = old(self).heap@[idx];
                    let after = *final(self);
                    let stale = point.endpoint_index < old(self).visited_points@.len() && old(
                        self,
                    ).visited_points@[point.endpoint_index as int];
                    &&& (stale ==> after.heap@ == old(self).heap@.remove(idx)
                        && after.visited_points@ == old(self).visited_points@
                        && after.active_edges@ == old(self).active_edges@ && after.library == old(
                        self,
                    ).library)
                    &&& (!stale ==> after.visited_points@ == old(self).visited_points@.update(
                        point.endpoint_index as int,
                        true,
                    ) && (!has_edge_to(old(self).active_edges@, point.endpoint_index)
                        ==> after.active_edges@.len() == old(self).active_edges@.len() + 2))
                }),
            r == (old(self).heap@.len() > 0),
            old(self).heap@.len() == 0 ==> *final(self) == *old(self),
            !r ==> final(self).heap@.len() == 0,
            r ==> ({
                let unvisited_before = crate::visited::count_false(old(self).visited_points@);
                let unvisited_after = crate::visited::count_false(final(self).visited_points@);
                let heap_before = old(self).heap@.len();
                let heap_after = final(self).heap@.len();
                unvisited_after < unvisited_before || (unvisited_after == unvisited_before
                    && heap_after < heap_before)
            }),
    {
        let ghost heap_at_entry = self.heap@;
        let point = match self.heap.peek_min() {
            Some(point) => point,
            None => {
                return false;
            },
        };
        proof {
            let peeked = choose|i: int|
                crate::events::is_first_min(heap_at_entry, i) && point == heap_at_entry[i];
            assert forall|idx: int|
                crate::events::is_first_min(heap_at_entry, idx) implies heap_at_entry[
                idx].endpoint_index == point.endpoint_index by {
                crate::events::lemma_first_min_unique(heap_at_entry, idx, peeked);
            }
        }

        if self.already_visited_point(&point) {
            self.heap.pop_min();
            proof {
                crate::events::lemma_heap_remove_keeps_other_endpoints(
                    heap_at_entry,
                    self.heap@,
                    point.endpoint_index,
                );
                let peeked = choose|i: int|
                    crate::events::is_first_min(heap_at_entry, i) && point == heap_at_entry[i];
                let popped = choose|i: int|
                    crate::events::is_first_min(heap_at_entry, i) && self.heap@ == heap_at_entry.remove(
                        i,
                    );
                crate::events::lemma_first_min_unique(heap_at_entry, peeked, popped);
                assert(self.heap@ == heap_at_entry.remove(peeked));
                assert forall|j: int| 0 <= j < self.heap@.len() implies (#[trigger] self.heap@[
                j]).position == self.endpoints@[self.heap@[j].endpoint_index as int].position by {
                    if j < peeked {
                        assert(self.heap@[j] == heap_at_entry[j]);
                    } else {
                        assert(self.heap@[j] == heap_at_entry[j + 1]);
                    }
                }
            }
            return true;
        }

        let ghost entry = *self;
        self.mark_point_as_visited(&point);
        proof {
            crate::visited::lemma_count_false_update(
                entry.visited_points@,
                point.endpoint_index as int,
            );
        }

        let _list_ordered: bool = self.sort_active_edge_list_and_emit_self_intersections(
            point.endpoint_index,
        );

        let matching_active_edges = self.find_right_point_in_active_edge_list(
            point.endpoint_index,
        );
        let ghost sorted = *self;
        proof {
            assert(self.heap_well_positioned());
        }
        match matching_active_edges.count {
            0 => self.process_min_endpoint(point.endpoint_index),
            1 => self.process_regular_endpoint(
                point.endpoint_index,
                matching_active_edges.first,
            ),
            2 => self.process_max_endpoint(
                point.endpoint_index,
                matching_active_edges.first,
                matching_active_edges.second,
            ),
            _ => {
                // More than two active edges converging on one endpoint
                // breaks the closed-subpath invariant; the search never
                // reports it, and a verified function cannot abort, so the
                // event (already marked visited) is dropped and the sweep
                // goes on.
            },
        }
        proof {
            lemma_library_extended_trans(entry.library, sorted.library, self.library);
            let peeked = choose|i: int|
                crate::events::is_first_min(heap_at_entry, i) && point == heap_at_entry[i];
            if !has_edge_to(entry.active_edges@, point.endpoint_index) {
                assert(!has_edge_to(sorted.active_edges@, point.endpoint_index));
                if matching_active_edges.count >= 1 {
                    assert(sorted.active_edges@[
                        matching_active_edges.first as int
                    ].right_endpoint_index == point.endpoint_index);
                    assert(has_edge_to(sorted.active_edges@, point.endpoint_index));
                }
                assert(matching_active_edges.count == 0);
                assert(self.active_edges@.len() == entry.active_edges@.len() + 2);
                let v = choose|v: int|
                    sorted.library.b_vertex_positions@.len() <= v
                        < self.library.b_vertex_positions@.len()
                        && self.library.b_vertex_positions@[v] == sorted.endpoints@[
                        point.endpoint_index as int
                    ].position;
                assert(entry.library.b_vertex_positions@.len()
                    <= sorted.library.b_vertex_positions@.len());
                assert(entry.library.b_vertex_positions@.len() <= v
                    < self.library.b_vertex_positions@.len()
                    && self.library.b_vertex_positions@[v] == entry.endpoints@[
                    point.endpoint_index as int
                ].position);
            }
            let pt = point.endpoint_index;
            assert(sorted.prev_endpoint_spec(pt) == entry.prev_endpoint_spec(pt));
            assert(sorted.next_endpoint_spec(pt) == entry.next_endpoint_spec(pt));
            assert forall|e: u32| #[trigger] has_edge_to(self.active_edges@, e) implies
                has_edge_to(entry.active_edges@, e) || e == entry.prev_endpoint_spec(pt) || e
                == entry.next_endpoint_spec(pt) by {
                if matching_active_edges.count == 0 || matching_active_edges.count == 1 {
                    assert(has_edge_to(sorted.active_edges@, e) ==> has_edge_to(
                        entry.active_edges@,
                        e,
                    ));
                } else if matching_active_edges.count == 2 {
                    assert(has_edge_to(sorted.active_edges@, e));
                } else {
                    assert(self.active_edges@ == sorted.active_edges@);
                }
            }
            assert(self.heap_well_positioned()) by {
                if matching_active_edges.count > 2 {
                    assert(self.heap@ == sorted.heap@);
                }
            }
        }

        true
    }

    /// `endpoint_index` lies in one of the subpaths of the half-open range.
    pub open spec fn in_subpath_range(
        self,
        first_subpath_index: u32,
        last_subpath_index: u32,
        endpoint_index: u32,
    ) -> bool {
        exists|s: int|
            first_subpath_index <= s < last_subpath_index
                && (#[trigger] self.subpaths@[s]).first_endpoint_index <= endpoint_index
                && endpoint_index < self.subpaths@[s].last_endpoint_index
    }

    /// `endpoint_index` is one of the endpoints the sweep over the given
    /// subpaths must be seeded with: a Min endpoint of the range.
    pub open spec fn is_seed_endpoint(
        self,
        first_subpath_index: u32,
        last_subpath_index: u32,
        endpoint_index: u32,
    ) -> bool {
        &&& endpoint_index < self.endpoints@.len()
        &&& self.in_subpath_range(first_subpath_index, last_subpath_index, endpoint_index)
        &&& self.classify_endpoint_spec(endpoint_index) == EndpointClass::Min
    }

    /// Some pending event is for the given endpoint.
    pub open spec fn heap_contains_endpoint(self, endpoint_index: u32) -> bool {
        crate::events::heap_has_endpoint(self.heap@, endpoint_index)
    }

    /// Seeds the queue with every Min endpoint of the chosen subpaths — with
    /// those and no others, one event each; Regular and Max endpoints are
    /// reached by advancing active edges.
    pub(crate) fn init_heap(&mut self, first_subpath_index: u32, last_subpath_index: u32)
        requires
            old(self).wf(),
            first_subpath_index <= last_subpath_index,
            last_subpath_index <= old(self).subpaths@.len(),
        ensures
            final(self).wf(),
            Partitioner::same_inputs(*old(self), *final(self)),
            final(self).path_id == old(self).path_id,
            final(self).visited_points@ == old(self).visited_points@,
            final(self).library == old(self).library,
            final(self).active_edges@ == old(self).active_edges@,
            old(self).heap@.is_prefix_of(final(self).heap@),
            forall|j: int|
                old(self).heap@.len() <= j < final(self).heap@.len() ==> {
                    let p = #[trigger] final(self).heap@[j];
                    final(self).is_seed_endpoint(
                        first_subpath_index,
                        last_subpath_index,
                        p.endpoint_index,
                    ) && p.position == final(self).endpoints@[p.endpoint_index as int].position
                },
            forall|i: u32|
                #[trigger] final(self).is_seed_endpoint(
                    first_subpath_index,
                    last_subpath_index,
                    i,
                ) ==> final(self).heap_contains_endpoint(i),
            forall|j1: int, j2: int|
                old(self).heap@.len() <= j1 < j2 < final(self).heap@.len() ==> (
                #[trigger] final(self).heap@[j1]).endpoint_index
                    != (#[trigger] final(self).heap@[j2]).endpoint_index,
    {
        let ghost entry = *self;
        let mut subpath_index = first_subpath_index;
        while subpath_index < last_subpath_index
            invariant
                self.wf(),
                Partitioner::same_inputs(*old(self), *self),
                self.path_id == old(self).path_id,
                self.visited_points@ == old(self).visited_points@,
                self.library == old(self).library,
                self.active_edges@ == old(self).active_edges@,
                self.subpaths@ == entry.subpaths@,
                self.endpoints@ == entry.endpoints@,
                first_subpath_index <= subpath_index <= last_subpath_index,
                last_subpath_index <= self.subpaths@.len(),
                entry.heap@.is_prefix_of(self.heap@),
                forall|j: int|
                    entry.heap@.len() <= j < self.heap@.len() ==> {
                        let p = #[trigger] self.heap@[j];
                        self.is_seed_endpoint(
                            first_subpath_index,
                            last_subpath_index,
                            p.endpoint_index,
                        ) && p.position == self.endpoints@[p.endpoint_index as int].position
                    },
                forall|i: u32|
                    #[trigger] self.is_seed_endpoint(first_subpath_index, subpath_index, i)
                        ==> self.heap_contains_endpoint(i),
                forall|j: int|
                    entry.heap@.len() <= j < self.heap@.len() ==> (#[trigger] self.heap@[
                    j]).endpoint_index < self.endpoints@.len() && self.endpoints@[
                        self.heap@[j].endpoint_index as int
                    ].subpath_index < subpath_index,
                forall|j1: int, j2: int|
                    entry.heap@.len() <= j1 < j2 < self.heap@.len() ==> (#[trigger] self.heap@[
                    j1]).endpoint_index != (#[trigger] self.heap@[j2]).endpoint_index,
            decreases last_subpath_index - subpath_index,
        {
            let subpath = self.subpaths[subpath_index as usize];
            let mut endpoint_index = subpath.first_endpoint_index;
            while endpoint_index < subpath.last_endpoint_index
                invariant
                    self.wf(),
                    Partitioner::same_inputs(*old(self), *self),
                    self.path_id == old(self).path_id,
                    self.visited_points@ == old(self).visited_points@,
                    self.library == old(self).library,
                    self.active_edges@ == old(self).active_edges@,
                    self.subpaths@ == entry.subpaths@,
                    self.endpoints@ == entry.endpoints@,
                    first_subpath_index <= subpath_index < last_subpath_index,
                    last_subpath_index <= self.subpaths@.len(),
                    subpath == self.subpaths@[subpath_index as int],
                    subpath.first_endpoint_index <= endpoint_index <= subpath.last_endpoint_index,
                    entry.heap@.is_prefix_of(self.heap@),
                    forall|j: int|
                        entry.heap@.len() <= j < self.heap@.len() ==> {
                            let p = #[trigger] self.heap@[j];
                            self.is_seed_endpoint(
                                first_subpath_index,
                                last_subpath_index,
                                p.endpoint_index,
                            ) && p.position == self.endpoints@[p.endpoint_index as int].position
                        },
                    forall|i: u32|
                        #[trigger] self.is_seed_endpoint(first_subpath_index, subpath_index, i)
                            ==> self.heap_contains_endpoint(i),
                    forall|i: u32|
                        subpath.first_endpoint_index <= i < endpoint_index
                            && self.classify_endpoint_spec(i) == EndpointClass::Min
                            ==> #[trigger] self.heap_contains_endpoint(i),
                    forall|j: int|
                        entry.heap@.len() <= j < self.heap@.len() ==> (#[trigger] self.heap@[
                        j]).endpoint_index < self.endpoints@.len() && (self.endpoints@[
                            self.heap@[j].endpoint_index as int
                        ].subpath_index < subpath_index || (self.endpoints@[
                            self.heap@[j].endpoint_index as int
                        ].subpath_index == subpath_index && self.heap@[j].endpoint_index
                            < endpoint_index)),
                    forall|j1: int, j2: int|
                        entry.heap@.len() <= j1 < j2 < self.heap@.len() ==> (
                        #[trigger] self.heap@[j1]).endpoint_index != (#[trigger] self.heap@[
                        j2]).endpoint_index,
                decreases subpath.last_endpoint_index - endpoint_index,
            {
                let ghost before = *self;
                let classification = self.classify_endpoint(endpoint_index);
                let is_min = match classification {
                    EndpointClass::Min => true,
                    _ => false,
                };
                if is_min {
                    let new_point = self.create_point_from_endpoint(endpoint_index);
                    self.heap.push(new_point);
                }
                proof {
                    assert(before.heap@.is_prefix_of(self.heap@)) by {
                        assert(before.heap@ =~= self.heap@.subrange(
                            0,
                            before.heap@.len() as int,
                        ));
                    }
                    lemma_prefix_trans(entry.heap@, before.heap@, self.heap@);
                    assert forall|i: u32|
                        before.heap_contains_endpoint(i) implies self.heap_contains_endpoint(
                        i,
                    ) by {
                        let j = choose|j: int|
                            0 <= j < before.heap@.len() && (#[trigger] before.heap@[
                            j]).endpoint_index == i;
                        lemma_prefix_index(before.heap@, self.heap@, j);
                        assert(self.heap@[j].endpoint_index == i);
                    }
                    if is_min {
                        let pushed = self.heap@[self.heap@.len() - 1];
                        assert(pushed.endpoint_index == endpoint_index);
                        assert(self.in_subpath_range(
                            first_subpath_index,
                            last_subpath_index,
                            endpoint_index,
                        )) by {
                            let s = subpath_index as int;
                            assert(first_subpath_index <= s < last_subpath_index);
                            assert(self.subpaths@[s].first_endpoint_index <= endpoint_index);
                            assert(endpoint_index < self.subpaths@[s].last_endpoint_index);
                        }
                        assert(self.is_seed_endpoint(
                            first_subpath_index,
                            last_subpath_index,
                            endpoint_index,
                        ));
                        assert(self.heap_contains_endpoint(endpoint_index)) by {
                            assert(self.heap@[self.heap@.len() - 1].endpoint_index
                                == endpoint_index);
                        }
                    }
                    assert forall|j: int|
                        entry.heap@.len() <= j < self.heap@.len() implies {
                        let p = #[trigger] self.heap@[j];
                        self.is_seed_endpoint(
                            first_subpath_index,
                            last_subpath_index,
                            p.endpoint_index,
                        ) && p.position == self.endpoints@[p.endpoint_index as int].position
                    } by {
                        if j < before.heap@.len() {
                            lemma_prefix_index(before.heap@, self.heap@, j);
                            let p = before.heap@[j];
                            assert(before.is_seed_endpoint(
                                first_subpath_index,
                                last_subpath_index,
                                p.endpoint_index,
                            ));
                            let s = choose|s: int|
                                first_subpath_index <= s < last_subpath_index && (
                                #[trigger] before.subpaths@[s]).first_endpoint_index
                                    <= p.endpoint_index && p.endpoint_index < before.subpaths@[
                                s].last_endpoint_index;
                            assert(self.subpaths@[s].first_endpoint_index <= p.endpoint_index);
                            assert(self.in_subpath_range(
                                first_subpath_index,
                                last_subpath_index,
                                p.endpoint_index,
                            ));
                        }
                    }
                    assert forall|i: u32|
                        #[trigger] self.is_seed_endpoint(first_subpath_index, subpath_index, i)
                            implies self.heap_contains_endpoint(i) by {
                        let s = choose|s: int|
                            first_subpath_index <= s < subpath_index && (#[trigger] self.subpaths@[
                            s]).first_endpoint_index <= i && i < self.subpaths@[
                        s].last_endpoint_index;
                        assert(before.subpaths@[s].first_endpoint_index <= i);
                        assert(before.in_subpath_range(first_subpath_index, subpath_index, i));
                        assert(before.is_seed_endpoint(first_subpath_index, subpath_index, i));
                        assert(before.heap_contains_endpoint(i));
                    }
                    assert forall|i: u32|
                        subpath.first_endpoint_index <= i < endpoint_index + 1
                            && self.classify_endpoint_spec(i) == EndpointClass::Min implies #[trigger] self.heap_contains_endpoint(
                        i,
                    ) by {
                        if i < endpoint_index {
                            assert(before.classify_endpoint_spec(i)
                                == self.classify_endpoint_spec(i));
                            assert(before.heap_contains_endpoint(i));
                        } else {
                            assert(i == endpoint_index);
                            assert(classification == before.classify_endpoint_spec(
                                endpoint_index,
                            ));
                            assert(is_min);
                        }
                    }
                    if is_min {
                        assert(self.endpoints@[endpoint_index as int].subpath_index
                            == subpath_index) by {
                            if self.endpoints@[endpoint_index as int].subpath_index
                                != subpath_index {
                                assert(!(self.subpaths@[subpath_index as int].first_endpoint_index
                                    <= endpoint_index < self.subpaths@[
                                    subpath_index as int
                                ].last_endpoint_index));
                            }
                        }
                    }
                    assert forall|j: int|
                        entry.heap@.len() <= j < self.heap@.len() implies (#[trigger] self.heap@[
                        j]).endpoint_index < self.endpoints@.len() && (self.endpoints@[
                            self.heap@[j].endpoint_index as int
                        ].subpath_index < subpath_index || (self.endpoints@[
                            self.heap@[j].endpoint_index as int
                        ].subpath_index == subpath_index && self.heap@[j].endpoint_index
                            < endpoint_index + 1)) by {
                        if j < before.heap@.len() {
                            assert(self.heap@[j] == before.heap@[j]);
                        } else {
                            assert(self.heap@[j].endpoint_index == endpoint_index);
                        }
                    }
                    assert forall|j1: int, j2: int|
                        entry.heap@.len() <= j1 < j2 < self.heap@.len() implies (
                    #[trigger] self.heap@[j1]).endpoint_index != (#[trigger] self.heap@[
                    j2]).endpoint_index by {
                        assert(self.heap@[j1] == before.heap@[j1]);
                        if j2 < before.heap@.len() {
                            assert(self.heap@[j2] == before.heap@[j2]);
                        } else {
                            assert(self.heap@[j2].endpoint_index == endpoint_index);
                        }
                    }
                }
                endpoint_index = endpoint_index + 1;
            }
            proof {
                let next_subpath = (subpath_index + 1) as u32;
                assert forall|i: u32|
                    #[trigger] self.is_seed_endpoint(first_subpath_index, next_subpath, i) implies self.heap_contains_endpoint(
                    i,
                ) by {
                    let s = choose|s: int|
                        first_subpath_index <= s < next_subpath && (#[trigger] self.subpaths@[
                        s]).first_endpoint_index <= i && i < self.subpaths@[s].last_endpoint_index;
                    if s < subpath_index {
                        assert(self.in_subpath_range(first_subpath_index, subpath_index, i));
                        assert(self.is_seed_endpoint(first_subpath_index, subpath_index, i));
                    } else {
                        assert(s == subpath_index);
                        assert(subpath.first_endpoint_index <= i < subpath.last_endpoint_index);
                    }
                }
            }
            subpath_index = subpath_index + 1;
        }
    }

    /// Partitions the subpaths in `[first_subpath_index, last_subpath_index)`
    /// into B-quads appended to the library under the given path id, and
    /// returns the half-open windows of every output buffer that this call
    /// filled. The sweep visits each endpoint at most once — stale queue
    /// entries are discarded and no visited flag is ever cleared — and every
    /// Min endpoint of the partitioned range has been visited when the call
    /// returns.
    pub fn partition(
        &mut self,
        path_id: u16,
        first_subpath_index: u32,
        last_subpath_index: u32,
    ) -> (r: MeshLibraryIndexRanges)
        requires
            old(self).wf(),
            first_subpath_index <= last_subpath_index,
            last_subpath_index <= old(self).subpaths@.len(),
        ensures
            final(self).wf(),
            Partitioner::same_inputs(*old(self), *final(self)),
            final(self).path_id == path_id,
            library_extended(old(self).library, final(self).library),
            crate::visited::visited_monotone(
                old(self).visited_points@,
                final(self).visited_points@,
            ),
            final(self).heap@.len() == 0,
            forall|i: u32|
                #[trigger] old(self).is_seed_endpoint(
                    first_subpath_index,
                    last_subpath_index,
                    i,
                ) ==> i < final(self).visited_points@.len() && final(self).visited_points@[
                    i as int
                ],
            forall|i: u32|
                #[trigger] old(self).is_seed_endpoint(
                    first_subpath_index,
                    last_subpath_index,
                    i,
                ) && !old(self).visited_points@[i as int] ==> exists|v: int|
                    old(self).library.b_vertex_positions@.len() <= v
                        < final(self).library.b_vertex_positions@.len()
                        && final(self).library.b_vertex_positions@[v] == old(self).endpoints@[
                        i as int
                    ].position,
            r.b_vertex_positions == (crate::mesh::IndexRange {
                start: old(self).library.b_vertex_positions@.len() as usize,
                end: final(self).library.b_vertex_positions@.len() as usize,
            }),
            r.b_quads == (crate::mesh::IndexRange {
                start: old(self).library.b_quads@.len() as usize,
                end: final(self).library.b_quads@.len() as usize,
            }),
            r.cover_interior_indices == (crate::mesh::IndexRange {
                start: old(self).library.cover_indices.interior_indices@.len() as usize,
                end: final(self).library.cover_indices.interior_indices@.len() as usize,
            }),
            r.cover_curve_indices == (crate::mesh::IndexRange {
                start: old(self).library.cover_indices.curve_indices@.len() as usize,
                end: final(self).library.cover_indices.curve_indices@.len() as usize,
            }),
    {
        let ghost entry = *self;
        self.heap.clear();
        self.active_edges.clear();

        let start_lengths = self.library.snapshot_lengths();

        self.path_id = path_id;

        self.init_heap(first_subpath_index, last_subpath_index);
        proof {
            assert forall|i: u32|
                #[trigger] entry.is_seed_endpoint(
                    first_subpath_index,
                    last_subpath_index,
                    i,
                ) implies (i < self.visited_points@.len() && self.visited_points@[i as int])
                || self.heap_contains_endpoint(i) by {
                let s = choose|s: int|
                    first_subpath_index <= s < last_subpath_index && (#[trigger] entry.subpaths@[
                    s]).first_endpoint_index <= i && i < entry.subpaths@[s].last_endpoint_index;
                assert(self.subpaths@[s].first_endpoint_index <= i);
                assert(self.in_subpath_range(first_subpath_index, last_subpath_index, i));
                assert(self.classify_endpoint_spec(i) == entry.classify_endpoint_spec(i));
                assert(self.is_seed_endpoint(first_subpath_index, last_subpath_index, i));
            }
            assert(self.visited_points@ == entry.visited_points@);
            assert(self.active_edges@.len() == 0);
        }

        loop
            invariant
                self.wf(),
                Partitioner::same_inputs(entry, *self),
                self.path_id == path_id,
                library_extended(entry.library, self.library),
                crate::visited::visited_monotone(entry.visited_points@, self.visited_points@),
                self.heap_well_positioned(),
                forall|i: u32|
                    #[trigger] entry.is_seed_endpoint(
                        first_subpath_index,
                        last_subpath_index,
                        i,
                    ) ==> (i < self.visited_points@.len() && self.visited_points@[i as int])
                        || self.heap_contains_endpoint(i),
                forall|k: int, i: u32|
                    0 <= k < self.active_edges@.len() && #[trigger] entry.is_seed_endpoint(
                        first_subpath_index,
                        last_subpath_index,
                        i,
                    ) && !self.visited_points@[i as int] ==> (#[trigger] self.active_edges@[
                        k
                    ]).right_endpoint_index != i,
                forall|i: u32|
                    #[trigger] entry.is_seed_endpoint(first_subpath_index, last_subpath_index, i)
                        && self.visited_points@[i as int] && !entry.visited_points@[i as int]
                        ==> exists|v: int|
                        entry.library.b_vertex_positions@.len() <= v
                            < self.library.b_vertex_positions@.len()
                            && self.library.b_vertex_positions@[v] == entry.endpoints@[
                            i as int
                        ].position,
            ensures
                self.heap@.len() == 0,
                forall|i: u32|
                    #[trigger] entry.is_seed_endpoint(
                        first_subpath_index,
                        last_subpath_index,
                        i,
                    ) ==> (i < self.visited_points@.len() && self.visited_points@[i as int])
                        || self.heap_contains_endpoint(i),
                forall|i: u32|
                    #[trigger] entry.is_seed_endpoint(first_subpath_index, last_subpath_index, i)
                        && self.visited_points@[i as int] && !entry.visited_points@[i as int]
                        ==> exists|v: int|
                        entry.library.b_vertex_positions@.len() <= v
                            < self.library.b_vertex_positions@.len()
                            && self.library.b_vertex_positions@[v] == entry.endpoints@[
                            i as int
                        ].position,
            decreases
                crate::visited::count_false(self.visited_points@),
                self.heap@.len(),
        {
            let ghost before = *self;
            let more = self.process_next_point();
            proof {
                lemma_library_extended_trans(entry.library, before.library, self.library);
                crate::visited::lemma_visited_monotone_trans(
                    entry.visited_points@,
                    before.visited_points@,
                    self.visited_points@,
                );
                assert forall|i: u32|
                    #[trigger] entry.is_seed_endpoint(
                        first_subpath_index,
                        last_subpath_index,
                        i,
                    ) implies (i < self.visited_points@.len() && self.visited_points@[i as int])
                    || self.heap_contains_endpoint(i) by {
                    if i < before.visited_points@.len() && before.visited_points@[i as int] {
                    } else {
                        assert(before.heap_contains_endpoint(i));
                    }
                }
                if before.heap@.len() > 0 {
                    let idx = choose|idx: int|
                        #![trigger before.heap@[idx]]
                        crate::events::is_first_min(before.heap@, idx) && ({
                            let point = before.heap@[idx];
                            let stale = point.endpoint_index < before.visited_points@.len()
                                && before.visited_points@[point.endpoint_index as int];
                            &&& (!stale && !has_edge_to(
                                before.active_edges@,
                                point.endpoint_index,
                            ) ==> exists|v: int|
                                before.library.b_vertex_positions@.len() <= v
                                    < self.library.b_vertex_positions@.len()
                                    && self.library.b_vertex_positions@[v] == before.endpoints@[
                                    point.endpoint_index as int
                                ].position)
                            &&& (forall|e: u32|
                                #[trigger] has_edge_to(self.active_edges@, e) ==> has_edge_to(
                                    before.active_edges@,
                                    e,
                                ) || e == before.prev_endpoint_spec(point.endpoint_index) || e
                                    == before.next_endpoint_spec(point.endpoint_index))
                            &&& (self.visited_points@ == before.visited_points@
                                || self.visited_points@ == before.visited_points@.update(
                                point.endpoint_index as int,
                                true,
                            ))
                        });
                    let point = before.heap@[idx];
                    let pt = point.endpoint_index;
                    let stale = pt < before.visited_points@.len() && before.visited_points@[
                        pt as int
                    ];
                    assert forall|i: u32|
                        #[trigger] entry.is_seed_endpoint(
                            first_subpath_index,
                            last_subpath_index,
                            i,
                        ) && self.visited_points@[i as int] && !entry.visited_points@[
                        i as int
                    ] implies exists|v: int|
                        entry.library.b_vertex_positions@.len() <= v
                            < self.library.b_vertex_positions@.len()
                            && self.library.b_vertex_positions@[v] == entry.endpoints@[
                            i as int
                        ].position by {
                        if before.visited_points@[i as int] {
                            let v = choose|v: int|
                                entry.library.b_vertex_positions@.len() <= v
                                    < before.library.b_vertex_positions@.len()
                                    && before.library.b_vertex_positions@[v] == entry.endpoints@[
                                    i as int
                                ].position;
                            lemma_prefix_index(
                                before.library.b_vertex_positions@,
                                self.library.b_vertex_positions@,
                                v,
                            );
                        } else {
                            assert(i == pt);
                            assert(!stale);
                            assert(!has_edge_to(before.active_edges@, pt)) by {
                                if has_edge_to(before.active_edges@, pt) {
                                    let k = choose|k: int|
                                        0 <= k < before.active_edges@.len() && (
                                        #[trigger] before.active_edges@[k]).right_endpoint_index
                                            == pt;
                                }
                            }
                            let v = choose|v: int|
                                before.library.b_vertex_positions@.len() <= v
                                    < self.library.b_vertex_positions@.len()
                                    && self.library.b_vertex_positions@[v] == before.endpoints@[
                                    pt as int
                                ].position;
                            assert(entry.library.b_vertex_positions@.len()
                                <= before.library.b_vertex_positions@.len());
                        }
                    }
                    assert forall|k: int, i: u32|
                        0 <= k < self.active_edges@.len() && #[trigger] entry.is_seed_endpoint(
                            first_subpath_index,
                            last_subpath_index,
                            i,
                        ) && !self.visited_points@[i as int] implies (
                    #[trigger] self.active_edges@[k]).right_endpoint_index != i by {
                        if self.active_edges@[k].right_endpoint_index == i {
                            assert(has_edge_to(self.active_edges@, i));
                            assert(!before.visited_points@[i as int]);
                            if has_edge_to(before.active_edges@, i) {
                                let k0 = choose|k0: int|
                                    0 <= k0 < before.active_edges@.len() && (
                                    #[trigger] before.active_edges@[k0]).right_endpoint_index
                                        == i;
                                assert(false);
                            } else {
                                assert(i == before.prev_endpoint_spec(pt) || i
                                    == before.next_endpoint_spec(pt));
                                assert(pt < before.endpoints@.len());
                                before.lemma_neighbor_inverse(pt);
                                assert(i != pt);
                                assert(before.heap_contains_endpoint(i));
                                let j = choose|j: int|
                                    0 <= j < before.heap@.len() && (#[trigger] before.heap@[
                                    j]).endpoint_index == i;
                                assert(crate::events::sweep_le(
                                    before.heap@[idx],
                                    before.heap@[j],
                                ));
                                let ept = Point {
                                    position: before.endpoints@[pt as int].position,
                                    endpoint_index: pt,
                                };
                                let epi = Point {
                                    position: before.endpoints@[i as int].position,
                                    endpoint_index: i,
                                };
                                assert(before.heap@[idx] == ept);
                                assert(before.heap@[j] == epi);
                                assert(before.prev_endpoint_spec(i) == entry.prev_endpoint_spec(
                                    i,
                                ));
                                assert(before.next_endpoint_spec(i) == entry.next_endpoint_spec(
                                    i,
                                ));
                                assert(before.classify_endpoint_spec(i)
                                    == entry.classify_endpoint_spec(i));
                                assert(before.classify_endpoint_spec(i) == EndpointClass::Min);
                                if i == before.prev_endpoint_spec(pt) {
                                    assert(before.next_endpoint_spec(i) == pt);
                                } else {
                                    assert(before.prev_endpoint_spec(i) == pt);
                                }
                                assert(false);
                            }
                        }
                    }
                }
            }
            if !more {
                break;
            }
        }

        let end_lengths = self.library.snapshot_lengths();
        MeshLibraryIndexRanges::new(&start_lengths, &end_lengths)
    }
}

} // verus!
