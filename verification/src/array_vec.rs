//! Up to eight components in an `arrayvec::ArrayVec`, which holds them in
//! place without allocating.
use arrayvec::ArrayVec;
use vstd::prelude::*;

verus! {

#[verifier::external_type_specification]
#[verifier::external_body]
#[verifier::reject_recursive_types(T)]
pub struct ExArrayVec<T, const CAP: usize>(ArrayVec<T, CAP>);

/// The components that an array vector holds, in order, each by its bytes.
pub uninterp spec fn comp_list(v: ArrayVec<&[u8], 8>) -> Seq<Seq<u8>>;

/// Calls `ArrayVec::new`, which the crate's source shows makes a vector of
/// length 0: it holds no component.
#[verifier::external_body]
pub(crate) fn comp_list_new<'a>() -> (r: ArrayVec<&'a [u8], 8>)
    ensures
        comp_list(r) == Seq::<Seq<u8>>::empty(),
{
    ArrayVec::new()
}

/// Calls `ArrayVec::push`, which the crate's source shows panics when the
/// vector is full (left out here) and otherwise writes the item after the
/// others and raises the length by one.
#[verifier::external_body]
pub(crate) fn comp_list_push<'a>(v: &mut ArrayVec<&'a [u8], 8>, c: &'a [u8])
    requires
        comp_list(*old(v)).len() < 8,
    ensures
        comp_list(*final(v)) == comp_list(*old(v)).push(c@),
{
    v.push(c)
}

} // verus!
