//! Bounded candidate lists, kept in an `arrayvec::ArrayVec`.
use vstd::prelude::*;
use crate::mv::MotionVector;

verus! {

/// Capacity of a candidate list.
pub const MV_LIST_CAP: usize = 18;

/// The type `arrayvec::ArrayVec`, opaque to proofs.
#[verifier::external_type_specification]
#[verifier::external_body]
#[verifier::reject_recursive_types(T)]
pub struct ExArrayVec<T, const CAP: usize>(arrayvec::ArrayVec<T, CAP>);

/// A list of at most `MV_LIST_CAP` candidate vectors.
pub type MvList = arrayvec::ArrayVec<MotionVector, MV_LIST_CAP>;

/// The vectors a list holds, in order.
pub uninterp spec fn mv_list_items(v: arrayvec::ArrayVec<MotionVector, MV_LIST_CAP>) -> Seq<MotionVector>;

/// Relies on `ArrayVec::new`: the new list holds nothing.
#[verifier::external_body]
pub(crate) fn mv_list_new() -> (r: MvList)
    ensures
        mv_list_items(r) == Seq::<MotionVector>::empty(),
{
    arrayvec::ArrayVec::new()
}

/// Relies on `ArrayVec::push`: the vector is appended at the end; it panics
/// only on a full list, which `requires` rules out.
#[verifier::external_body]
pub(crate) fn mv_list_push(v: &mut MvList, mv: MotionVector)
    requires
        mv_list_items(*old(v)).len() < MV_LIST_CAP,
    ensures
        mv_list_items(*final(v)) == mv_list_items(*old(v)).push(mv),
{
    v.push(mv)
}

/// Relies on `ArrayVec::as_slice`: the held vectors in order, never more
/// than the capacity.
#[verifier::external_body]
pub(crate) fn mv_list_as_slice(v: &MvList) -> (r: &[MotionVector])
    ensures
        r@ == mv_list_items(*v),
        r@.len() <= MV_LIST_CAP,
{
    v.as_slice()
}

} // verus!
