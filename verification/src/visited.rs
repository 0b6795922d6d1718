//! The visited set: one bit per input endpoint, flipped to true exactly when
//! the sweep processes that endpoint, so that stale queue entries are skipped.
//!
//! The bits live in a `bit_vec::BitVec`; its three operations used here are
//! trusted against that crate's source, and everything above them is
//! verified.

use vstd::prelude::*;
use bit_vec::BitVec;

verus! {

#[verifier::external_type_specification]
#[verifier::external_body]
#[verifier::reject_recursive_types(B)]
pub struct ExBitVec<B>(BitVec<B>);

/// What a `bit_vec::BitVec` holds, as a sequence of booleans.
pub uninterp spec fn bit_vec_bits(v: &BitVec) -> Seq<bool>;

/// Relies on `bit_vec::BitVec::from_elem`: a vector of `len` bits, each set
/// to `bit`.
#[verifier::external_body]
fn bit_vec_from_elem(len: usize, bit: bool) -> (r: BitVec)
    ensures
        bit_vec_bits(&r) == Seq::new(len as nat, |i: int| bit),
{
    BitVec::from_elem(len, bit)
}

/// Relies on `bit_vec::BitVec::get`: the bit at `index`, or `None` past the
/// end.
#[verifier::external_body]
fn bit_vec_get(v: &BitVec, index: usize) -> (r: Option<bool>)
    ensures
        r == if index < bit_vec_bits(v).len() {
            Some(bit_vec_bits(v)[index as int])
        } else {
            Option::<bool>::None
        },
{
    v.get(index)
}

/// Relies on `bit_vec::BitVec::set`: writes the bit at `index`, which must
/// be within the vector (the crate panics otherwise).
#[verifier::external_body]
fn bit_vec_set(v: &mut BitVec, index: usize, value: bool)
    requires
        index < bit_vec_bits(old(v)).len(),
    ensures
        bit_vec_bits(final(v)) == bit_vec_bits(old(v)).update(index as int, value),
{
    v.set(index, value)
}

/// How many endpoints are still unvisited: the sweep's termination measure.
pub open spec fn count_false(s: Seq<bool>) -> nat
    decreases s.len(),
{
    if s.len() == 0 {
        0
    } else {
        count_false(s.drop_last()) + (if s.last() {
            0nat
        } else {
            1nat
        })
    }
}

/// Marking an unvisited endpoint visited strictly shrinks the measure.
pub proof fn lemma_count_false_update(s: Seq<bool>, i: int)
    requires
        0 <= i < s.len(),
        !s[i],
    ensures
        count_false(s.update(i, true)) < count_false(s),
    decreases s.len(),
{
    if i == s.len() - 1 {
        assert(s.update(i, true).drop_last() =~= s.drop_last());
        assert(s.update(i, true).last());
    } else {
        assert(s.update(i, true).drop_last() =~= s.drop_last().update(i, true));
        assert(s.update(i, true).last() == s.last());
        lemma_count_false_update(s.drop_last(), i);
    }
}

/// `b` keeps every flag `a` set: endpoints are never un-visited, so each is
/// processed at most once.
pub open spec fn visited_monotone(a: Seq<bool>, b: Seq<bool>) -> bool {
    &&& a.len() == b.len()
    &&& forall|i: int| 0 <= i < a.len() && a[i] ==> b[i]
}

/// Monotone growth of the visited set composes.
pub proof fn lemma_visited_monotone_trans(a: Seq<bool>, b: Seq<bool>, c: Seq<bool>)
    requires
        visited_monotone(a, b),
        visited_monotone(b, c),
    ensures
        visited_monotone(a, c),
{
}

/// The set of endpoints the sweep has already processed.
pub struct VisitedSet {
    bits: BitVec,
}

impl VisitedSet {
    /// The flags, one per endpoint.
    pub closed spec fn view(&self) -> Seq<bool> {
        bit_vec_bits(&self.bits)
    }

    /// A fresh set of `len` endpoints, none visited.
    pub fn with_len(len: usize) -> (r: VisitedSet)
        ensures
            r@ == Seq::new(len as nat, |i: int| false),
    {
        VisitedSet { bits: bit_vec_from_elem(len, false) }
    }

    /// Whether `index` was visited; an index past the end counts as not
    /// visited.
    pub fn get(&self, index: usize) -> (r: bool)
        ensures
            r == (index < self@.len() && self@[index as int]),
    {
        match bit_vec_get(&self.bits, index) {
            None => false,
            Some(visited) => visited,
        }
    }

    /// Marks `index` as visited.
    pub fn set_visited(&mut self, index: usize)
        requires
            index < old(self)@.len(),
        ensures
            final(self)@ == old(self)@.update(index as int, true),
    {
        bit_vec_set(&mut self.bits, index, true);
    }
}

} // verus!
