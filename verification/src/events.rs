//! Sweep events and the event queue.
//!
//! An event is an endpoint together with its position; events are totally
//! ordered by `x`, then `y`, then endpoint index, and are consumed smallest
//! first. The queue is a plain vector searched for its minimum, which keeps
//! the behaviour of a priority queue that allows replacing its top.

use vstd::prelude::*;
use crate::geometry::Vector2;

verus! {

/// A sweep event: one endpoint awaiting processing.
#[derive(Clone, Copy, PartialEq, Eq, Structural, Debug)]
pub struct Point {
    pub position: Vector2,
    pub endpoint_index: u32,
}

/// The sweep order: `a` comes no later than `b`.
pub open spec fn sweep_le(a: Point, b: Point) -> bool {
    ||| a.position.x < b.position.x
    ||| (a.position.x == b.position.x && a.position.y < b.position.y)
    ||| (a.position.x == b.position.x && a.position.y == b.position.y && a.endpoint_index
        <= b.endpoint_index)
}

/// The sweep order is total, and two events ordered both ways are equal.
pub proof fn lemma_sweep_order_total(a: Point, b: Point)
    ensures
        sweep_le(a, b) || sweep_le(b, a),
        sweep_le(a, b) && sweep_le(b, a) ==> a == b,
        sweep_le(a, a),
{
}

/// Compares two events in sweep order.
pub fn sweep_precedes(a: &Point, b: &Point) -> (r: bool)
    ensures
        r == sweep_le(*a, *b),
{
    if a.position.x != b.position.x {
        a.position.x < b.position.x
    } else if a.position.y != b.position.y {
        a.position.y < b.position.y
    } else {
        a.endpoint_index <= b.endpoint_index
    }
}

/// `i` is the position of the first minimal event of `s`.
pub open spec fn is_first_min(s: Seq<Point>, i: int) -> bool {
    &&& 0 <= i < s.len()
    &&& forall|j: int| 0 <= j < s.len() ==> sweep_le(s[i], #[trigger] s[j])
    &&& forall|j: int| 0 <= j < i ==> !sweep_le(#[trigger] s[j], s[i])
}

/// The first minimal position of a sequence of events is unique.
pub proof fn lemma_first_min_unique(s: Seq<Point>, i: int, j: int)
    requires
        is_first_min(s, i),
        is_first_min(s, j),
    ensures
        i == j,
{
    if i < j {
        assert(sweep_le(s[i], s[j]));
        assert(!sweep_le(s[i], s[j]));
    }
    if j < i {
        assert(sweep_le(s[j], s[i]));
        assert(!sweep_le(s[j], s[i]));
    }
}

/// Some event of `s` is for the given endpoint.
pub open spec fn heap_has_endpoint(s: Seq<Point>, endpoint_index: u32) -> bool {
    exists|j: int| 0 <= j < s.len() && (#[trigger] s[j]).endpoint_index == endpoint_index
}

/// Replacing the first minimal event — which is for `endpoint_index` — keeps
/// every other endpoint's events in the queue.
pub proof fn lemma_heap_update_keeps_other_endpoints(
    before: Seq<Point>,
    after: Seq<Point>,
    endpoint_index: u32,
    new_point: Point,
)
    requires
        exists|i0: int| is_first_min(before, i0) && after == before.update(i0, new_point),
        forall|idx: int|
            is_first_min(before, idx) ==> before[idx].endpoint_index == endpoint_index,
    ensures
        forall|i: u32|
            i != endpoint_index && heap_has_endpoint(before, i) ==> #[trigger] heap_has_endpoint(
                after,
                i,
            ),
{
    let i0 = choose|i0: int| is_first_min(before, i0) && after == before.update(i0, new_point);
    assert(before[i0].endpoint_index == endpoint_index);
    assert forall|i: u32|
        i != endpoint_index && heap_has_endpoint(before, i) implies #[trigger] heap_has_endpoint(
        after,
        i,
    ) by {
        let j = choose|j: int|
            0 <= j < before.len() && (#[trigger] before[j]).endpoint_index == i;
        assert(j != i0);
        assert(after[j] == before[j]);
    }
}

/// Removing the first minimal event — which is for `endpoint_index` — keeps
/// every other endpoint's events in the queue.
pub proof fn lemma_heap_remove_keeps_other_endpoints(
    before: Seq<Point>,
    after: Seq<Point>,
    endpoint_index: u32,
)
    requires
        exists|i0: int| is_first_min(before, i0) && after == before.remove(i0),
        forall|idx: int|
            is_first_min(before, idx) ==> before[idx].endpoint_index == endpoint_index,
    ensures
        forall|i: u32|
            i != endpoint_index && heap_has_endpoint(before, i) ==> #[trigger] heap_has_endpoint(
                after,
                i,
            ),
{
    let i0 = choose|i0: int| is_first_min(before, i0) && after == before.remove(i0);
    assert(before[i0].endpoint_index == endpoint_index);
    assert forall|i: u32|
        i != endpoint_index && heap_has_endpoint(before, i) implies #[trigger] heap_has_endpoint(
        after,
        i,
    ) by {
        let j = choose|j: int|
            0 <= j < before.len() && (#[trigger] before[j]).endpoint_index == i;
        assert(j != i0);
        if j < i0 {
            assert(after[j] == before[j]);
        } else {
            assert(after[j - 1] == before[j]);
        }
    }
}

/// The pending sweep events, consumed smallest-first.
pub struct EventQueue {
    points: Vec<Point>,
}

impl EventQueue {
    /// The pending events, in storage order.
    pub closed spec fn view(&self) -> Seq<Point> {
        self.points@
    }

    pub fn new() -> (r: EventQueue)
        ensures
            r@.len() == 0,
    {
        EventQueue { points: Vec::new() }
    }

    pub fn clear(&mut self)
        ensures
            final(self)@.len() == 0,
    {
        self.points.clear();
    }

    pub fn push(&mut self, point: Point)
        ensures
            final(self)@ == old(self)@.push(point),
    {
        self.points.push(point);
    }

    /// The index of the first minimal pending event.
    fn find_min_index(&self) -> (r: usize)
        requires
            self@.len() > 0,
        ensures
            is_first_min(self@, r as int),
    {
        let mut best: usize = 0;
        let mut j: usize = 1;
        while j < self.points.len()
            invariant
                0 <= best < j <= self.points.len(),
                forall|k: int| 0 <= k < j ==> sweep_le(self.points@[best as int], #[trigger] self.points@[k]),
                forall|k: int| 0 <= k < best ==> !sweep_le(#[trigger] self.points@[k], self.points@[best as int]),
            decreases self.points.len() - j,
        {
            if sweep_precedes(&self.points[j], &self.points[best]) {
                if !sweep_precedes(&self.points[best], &self.points[j]) {
                    proof {
                        assert forall|k: int| 0 <= k < j implies !sweep_le(
                            #[trigger] self.points@[k],
                            self.points@[j as int],
                        ) by {
                            if sweep_le(self.points@[k], self.points@[j as int]) {
                                lemma_sweep_order_total(self.points@[k], self.points@[best as int]);
                                lemma_sweep_order_total(
                                    self.points@[best as int],
                                    self.points@[j as int],
                                );
                            }
                        }
                    }
                    best = j;
                }
            }
            proof {
                lemma_sweep_order_total(self.points@[best as int], self.points@[j as int]);
            }
            j = j + 1;
        }
        best
    }

    /// A copy of the first minimal pending event, if any.
    pub fn peek_min(&self) -> (r: Option<Point>)
        ensures
            match r {
                Some(p) => exists|i: int| is_first_min(self@, i) && p == self@[i],
                None => self@.len() == 0,
            },
    {
        if self.points.len() == 0 {
            return None;
        }
        let i = self.find_min_index();
        Some(self.points[i])
    }

    /// Removes the first minimal pending event.
    pub fn pop_min(&mut self)
        requires
            old(self)@.len() > 0,
        ensures
            exists|i: int|
                is_first_min(old(self)@, i) && final(self)@ == old(self)@.remove(i),
            final(self)@.len() == old(self)@.len() - 1,
    {
        let i = self.find_min_index();
        self.points.remove(i);
    }

    /// Replaces the first minimal pending event with `point`.
    pub fn replace_min(&mut self, point: Point)
        requires
            old(self)@.len() > 0,
        ensures
            exists|i: int|
                is_first_min(old(self)@, i) && final(self)@ == old(self)@.update(i, point),
            final(self)@.len() == old(self)@.len(),
    {
        let i = self.find_min_index();
        self.points[i] = point;
    }
}

} // verus!
