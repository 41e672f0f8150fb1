//! The fixed buffer that holds the five values of a header: an `ArrayVec`.

use arrayvec::ArrayVec;
use vstd::prelude::*;

verus! {

/// `arrayvec::ArrayVec`, a vector of at most `CAP` items stored in place.
#[verifier::external_type_specification]
#[verifier::external_body]
#[verifier::reject_recursive_types(T)]
pub struct ExArrayVec<T, const CAP: usize>(ArrayVec<T, CAP>);

/// The items that a header buffer holds, in the order in which they were pushed.
pub uninterp spec fn buffer_items(buffer: ArrayVec<u16, 5>) -> Seq<u16>;

/// Calls `ArrayVec::new`: the new buffer is empty.
#[verifier::external_body]
pub(crate) fn buffer_new() -> (buffer: ArrayVec<u16, 5>)
    ensures
        buffer_items(buffer) == Seq::<u16>::empty(),
{
    ArrayVec::new()
}

/// Calls `ArrayVec::push`: `item` is added after the items held. The call
/// panics on a full buffer, so the buffer must hold fewer than five items.
#[verifier::external_body]
pub(crate) fn buffer_push(buffer: &mut ArrayVec<u16, 5>, item: u16)
    requires
        buffer_items(*old(buffer)).len() < 5,
    ensures
        buffer_items(*final(buffer)) == buffer_items(*old(buffer)).push(item),
{
    buffer.push(item)
}

/// Calls `ArrayVec::as_slice`: the slice holds the buffer's items in order.
#[verifier::external_body]
pub(crate) fn buffer_as_slice(buffer: &ArrayVec<u16, 5>) -> (items: &[u16])
    ensures
        items@ == buffer_items(*buffer),
{
    buffer.as_slice()
}

} // verus!
