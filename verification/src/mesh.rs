//! The mesh library: append-only vertex and index buffers that receive the
//! partitioner's output.
//!
//! Three parallel vertex arrays (positions, path ids, Loop-Blinn data) always
//! have the same length; every index stored in the cover index buffers or in
//! a B-quad refers to an existing vertex; and the right-hand pair of every
//! B-quad sits on one vertical line.

use vstd::prelude::*;
use crate::geometry::{Vector2, wf_pos, cross_val};

verus! {

/// Marks an absent control-point vertex: the edge or B-quad side is a line.
pub const NO_CONTROL_POINT_VERTEX: usize = usize::MAX;

/// The Loop-Blinn classification of a B-vertex.
#[derive(Clone, Copy, PartialEq, Eq, Structural, Debug)]
pub enum BVertexKind {
    Endpoint0,
    Endpoint1,
    ConcaveControlPoint,
    ConvexControlPoint,
}

/// Per-vertex Loop-Blinn shading data: canonical texture coordinates in half
/// units (endpoints carry (0, 0) or (1, 1), control points (1/2, 0)) and a
/// sign that is negative exactly on convex control points.
#[derive(Clone, Copy, PartialEq, Eq, Structural, Debug)]
pub struct BVertexLoopBlinnData {
    /// Doubled `u` texture coordinate.
    pub uv_u: u8,
    /// Doubled `v` texture coordinate.
    pub uv_v: u8,
    pub sign: i8,
}

impl BVertexLoopBlinnData {
    /// The data every vertex of the given kind carries.
    pub open spec fn of_kind(kind: BVertexKind) -> BVertexLoopBlinnData {
        match kind {
            BVertexKind::Endpoint0 => BVertexLoopBlinnData { uv_u: 0, uv_v: 0, sign: 0 },
            BVertexKind::Endpoint1 => BVertexLoopBlinnData { uv_u: 2, uv_v: 2, sign: 0 },
            BVertexKind::ConcaveControlPoint => BVertexLoopBlinnData { uv_u: 1, uv_v: 0, sign: 1 },
            BVertexKind::ConvexControlPoint => BVertexLoopBlinnData { uv_u: 1, uv_v: 0, sign: -1i8 },
        }
    }

    pub fn new(kind: BVertexKind) -> (r: BVertexLoopBlinnData)
        ensures
            r == BVertexLoopBlinnData::of_kind(kind),
    {
        match kind {
            BVertexKind::Endpoint0 => BVertexLoopBlinnData { uv_u: 0, uv_v: 0, sign: 0 },
            BVertexKind::Endpoint1 => BVertexLoopBlinnData { uv_u: 2, uv_v: 2, sign: 0 },
            BVertexKind::ConcaveControlPoint => BVertexLoopBlinnData { uv_u: 1, uv_v: 0, sign: 1 },
            BVertexKind::ConvexControlPoint => BVertexLoopBlinnData { uv_u: 1, uv_v: 0, sign: -1i8 },
        }
    }

    /// The kind a control point takes: concave when the control point lies on
    /// the side of the chord that faces the filled region, which depends on
    /// whether the edge bounds the region from below.
    pub open spec fn control_point_kind(
        left_position: Vector2,
        control_point_position: Vector2,
        right_position: Vector2,
        bottom: bool,
    ) -> BVertexKind {
        if (cross_val(left_position, control_point_position, right_position) >= 0) == bottom {
            BVertexKind::ConcaveControlPoint
        } else {
            BVertexKind::ConvexControlPoint
        }
    }

    /// Classifies and labels the control point of one curve.
    pub fn control_point(
        left_position: &Vector2,
        control_point_position: &Vector2,
        right_position: &Vector2,
        bottom: bool,
    ) -> (r: BVertexLoopBlinnData)
        requires
            wf_pos(*left_position),
            wf_pos(*control_point_position),
            wf_pos(*right_position),
        ensures
            r == BVertexLoopBlinnData::of_kind(
                BVertexLoopBlinnData::control_point_kind(
                    *left_position,
                    *control_point_position,
                    *right_position,
                    bottom,
                ),
            ),
    {
        let cross = crate::geometry::cross_from(
            *left_position,
            *control_point_position,
            *right_position,
        );
        if (cross >= 0) == bottom {
            BVertexLoopBlinnData::new(BVertexKind::ConcaveControlPoint)
        } else {
            BVertexLoopBlinnData::new(BVertexKind::ConvexControlPoint)
        }
    }
}

/// One B-quad: six vertex indices, the upper and lower boundary each giving
/// its left endpoint, optional control point, and right endpoint.
#[derive(Clone, Copy, PartialEq, Eq, Structural, Debug)]
pub struct BQuad {
    pub upper_left_vertex_index: usize,
    pub upper_control_point_vertex_index: usize,
    pub upper_right_vertex_index: usize,
    pub lower_left_vertex_index: usize,
    pub lower_control_point_vertex_index: usize,
    pub lower_right_vertex_index: usize,
}

impl BQuad {
    pub fn new(
        upper_left_vertex_index: usize,
        upper_control_point_vertex_index: usize,
        upper_right_vertex_index: usize,
        lower_left_vertex_index: usize,
        lower_control_point_vertex_index: usize,
        lower_right_vertex_index: usize,
    ) -> (r: BQuad)
        ensures
            r == (BQuad {
                upper_left_vertex_index,
                upper_control_point_vertex_index,
                upper_right_vertex_index,
                lower_left_vertex_index,
                lower_control_point_vertex_index,
                lower_right_vertex_index,
            }),
    {
        BQuad {
            upper_left_vertex_index,
            upper_control_point_vertex_index,
            upper_right_vertex_index,
            lower_left_vertex_index,
            lower_control_point_vertex_index,
            lower_right_vertex_index,
        }
    }
}

/// A B-quad is well formed against a vertex array when every index it holds
/// refers to an existing vertex and its two right-hand vertices share one
/// `x` coordinate.
pub open spec fn quad_wf(q: BQuad, positions: Seq<Vector2>) -> bool {
    &&& q.upper_left_vertex_index < positions.len()
    &&& q.upper_right_vertex_index < positions.len()
    &&& q.lower_left_vertex_index < positions.len()
    &&& q.lower_right_vertex_index < positions.len()
    &&& (q.upper_control_point_vertex_index != NO_CONTROL_POINT_VERTEX
        ==> q.upper_control_point_vertex_index < positions.len())
    &&& (q.lower_control_point_vertex_index != NO_CONTROL_POINT_VERTEX
        ==> q.lower_control_point_vertex_index < positions.len())
    &&& positions[q.upper_right_vertex_index as int].x == positions[
        q.lower_right_vertex_index as int
    ].x
}

/// The cover index buffers: interior (solid) triangles and curve triangles.
pub struct CoverIndices {
    pub interior_indices: Vec<usize>,
    pub curve_indices: Vec<usize>,
}

/// A snapshot of the library's buffer lengths.
#[derive(Clone, Copy, PartialEq, Eq, Structural, Debug)]
pub struct MeshLengths {
    pub b_quads: usize,
    pub b_vertex_positions: usize,
    pub cover_interior_indices: usize,
    pub cover_curve_indices: usize,
}

/// A half-open window into each of the library's buffers.
#[derive(Clone, Copy, PartialEq, Eq, Structural, Debug)]
pub struct IndexRange {
    pub start: usize,
    pub end: usize,
}

/// The windows one `partition` call filled, one per buffer.
#[derive(Clone, Copy, PartialEq, Eq, Structural, Debug)]
pub struct MeshLibraryIndexRanges {
    pub b_quads: IndexRange,
    pub b_vertex_positions: IndexRange,
    pub cover_interior_indices: IndexRange,
    pub cover_curve_indices: IndexRange,
}

impl MeshLibraryIndexRanges {
    pub fn new(start: &MeshLengths, end: &MeshLengths) -> (r: MeshLibraryIndexRanges)
        ensures
            r.b_quads == (IndexRange { start: start.b_quads, end: end.b_quads }),
            r.b_vertex_positions == (IndexRange {
                start: start.b_vertex_positions,
                end: end.b_vertex_positions,
            }),
            r.cover_interior_indices == (IndexRange {
                start: start.cover_interior_indices,
                end: end.cover_interior_indices,
            }),
            r.cover_curve_indices == (IndexRange {
                start: start.cover_curve_indices,
                end: end.cover_curve_indices,
            }),
    {
        MeshLibraryIndexRanges {
            b_quads: IndexRange { start: start.b_quads, end: end.b_quads },
            b_vertex_positions: IndexRange {
                start: start.b_vertex_positions,
                end: end.b_vertex_positions,
            },
            cover_interior_indices: IndexRange {
                start: start.cover_interior_indices,
                end: end.cover_interior_indices,
            },
            cover_curve_indices: IndexRange {
                start: start.cover_curve_indices,
                end: end.cover_curve_indices,
            },
        }
    }
}

/// The append-only mesh output buffers.
pub struct MeshLibrary {
    pub b_vertex_positions: Vec<Vector2>,
    pub b_vertex_path_ids: Vec<u16>,
    pub b_vertex_loop_blinn_data: Vec<BVertexLoopBlinnData>,
    pub cover_indices: CoverIndices,
    pub b_quads: Vec<BQuad>,
}

impl MeshLibrary {
    /// The library's invariant: parallel vertex arrays of one length, every
    /// stored index in range, every position on the grid, and every B-quad's
    /// right-hand vertex pair vertically aligned.
    pub open spec fn wf(self) -> bool {
        &&& self.b_vertex_path_ids@.len() == self.b_vertex_positions@.len()
        &&& self.b_vertex_loop_blinn_data@.len() == self.b_vertex_positions@.len()
        &&& forall|i: int|
            0 <= i < self.b_vertex_positions@.len() ==> wf_pos(#[trigger] self.b_vertex_positions@[i])
        &&& forall|i: int|
            0 <= i < self.cover_indices.interior_indices@.len()
                ==> #[trigger] self.cover_indices.interior_indices@[i]
                < self.b_vertex_positions@.len()
        &&& forall|i: int|
            0 <= i < self.cover_indices.curve_indices@.len()
                ==> #[trigger] self.cover_indices.curve_indices@[i]
                < self.b_vertex_positions@.len()
        &&& forall|i: int|
            0 <= i < self.b_quads@.len() ==> quad_wf(
                #[trigger] self.b_quads@[i],
                self.b_vertex_positions@,
            )
    }

    /// The number of vertices the library holds.
    pub fn vertex_count(&self) -> (r: usize)
        ensures
            r == self.b_vertex_positions@.len(),
    {
        self.b_vertex_positions.len()
    }

    pub fn new() -> (r: MeshLibrary)
        ensures
            r.wf(),
            r.b_vertex_positions@.len() == 0,
            r.b_vertex_path_ids@.len() == 0,
            r.b_vertex_loop_blinn_data@.len() == 0,
            r.cover_indices.interior_indices@.len() == 0,
            r.cover_indices.curve_indices@.len() == 0,
            r.b_quads@.len() == 0,
    {
        MeshLibrary {
            b_vertex_positions: Vec::new(),
            b_vertex_path_ids: Vec::new(),
            b_vertex_loop_blinn_data: Vec::new(),
            cover_indices: CoverIndices { interior_indices: Vec::new(), curve_indices: Vec::new() },
            b_quads: Vec::new(),
        }
    }

    /// Captures the current buffer lengths.
    pub fn snapshot_lengths(&self) -> (r: MeshLengths)
        ensures
            r.b_quads == self.b_quads@.len(),
            r.b_vertex_positions == self.b_vertex_positions@.len(),
            r.cover_interior_indices == self.cover_indices.interior_indices@.len(),
            r.cover_curve_indices == self.cover_indices.curve_indices@.len(),
    {
        MeshLengths {
            b_quads: self.b_quads.len(),
            b_vertex_positions: self.b_vertex_positions.len(),
            cover_interior_indices: self.cover_indices.interior_indices.len(),
            cover_curve_indices: self.cover_indices.curve_indices.len(),
        }
    }

    /// Appends one vertex to all three parallel arrays; returns its index.
    pub fn push_vertex(
        &mut self,
        position: Vector2,
        path_id: u16,
        data: BVertexLoopBlinnData,
    ) -> (r: usize)
        requires
            old(self).wf(),
            wf_pos(position),
        ensures
            final(self).wf(),
            r == old(self).b_vertex_positions@.len(),
            final(self).b_vertex_positions@ == old(self).b_vertex_positions@.push(position),
            final(self).b_vertex_path_ids@ == old(self).b_vertex_path_ids@.push(path_id),
            final(self).b_vertex_loop_blinn_data@ == old(self).b_vertex_loop_blinn_data@.push(
                data,
            ),
            final(self).cover_indices.interior_indices@ == old(
                self,
            ).cover_indices.interior_indices@,
            final(self).cover_indices.curve_indices@ == old(self).cover_indices.curve_indices@,
            final(self).b_quads@ == old(self).b_quads@,
    {
        let r = self.b_vertex_positions.len();
        self.b_vertex_positions.push(position);
        self.b_vertex_path_ids.push(path_id);
        self.b_vertex_loop_blinn_data.push(data);
        proof {
            assert forall|i: int| 0 <= i < self.b_quads@.len() implies quad_wf(
                #[trigger] self.b_quads@[i],
                self.b_vertex_positions@,
            ) by {
                assert(quad_wf(self.b_quads@[i], old(self).b_vertex_positions@));
            }
        }
        r
    }

    /// Rewrites the Loop-Blinn data of an existing vertex.
    pub fn set_loop_blinn_data(&mut self, index: usize, data: BVertexLoopBlinnData)
        requires
            old(self).wf(),
            index < old(self).b_vertex_positions@.len(),
        ensures
            final(self).wf(),
            final(self).b_vertex_loop_blinn_data@ == old(self).b_vertex_loop_blinn_data@.update(
                index as int,
                data,
            ),
            final(self).b_vertex_positions@ == old(self).b_vertex_positions@,
            final(self).b_vertex_path_ids@ == old(self).b_vertex_path_ids@,
            final(self).cover_indices.interior_indices@ == old(
                self,
            ).cover_indices.interior_indices@,
            final(self).cover_indices.curve_indices@ == old(self).cover_indices.curve_indices@,
            final(self).b_quads@ == old(self).b_quads@,
    {
        self.b_vertex_loop_blinn_data[index] = data;
    }

    /// Appends one triangle to the interior cover indices.
    pub fn push_interior_triangle(&mut self, a: usize, b: usize, c: usize)
        requires
            old(self).wf(),
            a < old(self).b_vertex_positions@.len(),
            b < old(self).b_vertex_positions@.len(),
            c < old(self).b_vertex_positions@.len(),
        ensures
            final(self).wf(),
            final(self).cover_indices.interior_indices@ == old(
                self,
            ).cover_indices.interior_indices@.push(a).push(b).push(c),
            final(self).cover_indices.curve_indices@ == old(self).cover_indices.curve_indices@,
            final(self).b_vertex_positions@ == old(self).b_vertex_positions@,
            final(self).b_vertex_path_ids@ == old(self).b_vertex_path_ids@,
            final(self).b_vertex_loop_blinn_data@ == old(self).b_vertex_loop_blinn_data@,
            final(self).b_quads@ == old(self).b_quads@,
    {
        self.cover_indices.interior_indices.push(a);
        self.cover_indices.interior_indices.push(b);
        self.cover_indices.interior_indices.push(c);
    }

    /// Appends one triangle to the curve cover indices.
    pub fn push_curve_triangle(&mut self, a: usize, b: usize, c: usize)
        requires
            old(self).wf(),
            a < old(self).b_vertex_positions@.len(),
            b < old(self).b_vertex_positions@.len(),
            c < old(self).b_vertex_positions@.len(),
        ensures
            final(self).wf(),
            final(self).cover_indices.curve_indices@ == old(
                self,
            ).cover_indices.curve_indices@.push(a).push(b).push(c),
            final(self).cover_indices.interior_indices@ == old(
                self,
            ).cover_indices.interior_indices@,
            final(self).b_vertex_positions@ == old(self).b_vertex_positions@,
            final(self).b_vertex_path_ids@ == old(self).b_vertex_path_ids@,
            final(self).b_vertex_loop_blinn_data@ == old(self).b_vertex_loop_blinn_data@,
            final(self).b_quads@ == old(self).b_quads@,
    {
        self.cover_indices.curve_indices.push(a);
        self.cover_indices.curve_indices.push(b);
        self.cover_indices.curve_indices.push(c);
    }

    /// Law: the three vertex arrays of a well-formed library are parallel —
    /// positions, path ids, and Loop-Blinn data always have the same length.
    pub proof fn lemma_vertex_arrays_parallel(self)
        requires
            self.wf(),
        ensures
            self.b_vertex_path_ids@.len() == self.b_vertex_positions@.len(),
            self.b_vertex_loop_blinn_data@.len() == self.b_vertex_positions@.len(),
    {
    }

    /// Law: every index a well-formed library stores — in the interior cover
    /// indices, the curve cover indices, and the B-quads — refers to an
    /// existing vertex.
    pub proof fn lemma_indices_in_range(self)
        requires
            self.wf(),
        ensures
            forall|i: int|
                0 <= i < self.cover_indices.interior_indices@.len()
                    ==> #[trigger] self.cover_indices.interior_indices@[i]
                    < self.b_vertex_positions@.len(),
            forall|i: int|
                0 <= i < self.cover_indices.curve_indices@.len()
                    ==> #[trigger] self.cover_indices.curve_indices@[i]
                    < self.b_vertex_positions@.len(),
            forall|i: int|
                0 <= i < self.b_quads@.len() ==> quad_wf(
                    #[trigger] self.b_quads@[i],
                    self.b_vertex_positions@,
                ),
    {
    }

    /// Law: in every B-quad of a well-formed library, the upper and lower
    /// right-hand vertices lie on one vertical line — both boundaries were
    /// cut at the same sweep position.
    pub proof fn lemma_b_quad_right_pair_aligned(self, i: int)
        requires
            self.wf(),
            0 <= i < self.b_quads@.len(),
        ensures
            self.b_vertex_positions@[self.b_quads@[i].upper_right_vertex_index as int].x
                == self.b_vertex_positions@[self.b_quads@[i].lower_right_vertex_index as int].x,
    {
    }

    /// Records one B-quad.
    pub fn add_b_quad(&mut self, b_quad: &BQuad)
        requires
            old(self).wf(),
            quad_wf(*b_quad, old(self).b_vertex_positions@),
        ensures
            final(self).wf(),
            final(self).b_quads@ == old(self).b_quads@.push(*b_quad),
            final(self).b_vertex_positions@ == old(self).b_vertex_positions@,
            final(self).b_vertex_path_ids@ == old(self).b_vertex_path_ids@,
            final(self).b_vertex_loop_blinn_data@ == old(self).b_vertex_loop_blinn_data@,
            final(self).cover_indices.interior_indices@ == old(
                self,
            ).cover_indices.interior_indices@,
            final(self).cover_indices.curve_indices@ == old(self).cover_indices.curve_indices@,
    {
        self.b_quads.push(*b_quad);
    }
}

} // verus!
