//! Byte containers that spaces and paths can be held in: a borrowed slice,
//! an owned vector or a fixed size array.
use vstd::prelude::*;

verus! {

/// A container of bytes.
pub trait ByteStore {
    /// The bytes held.
    spec fn store_view(&self) -> Seq<u8>;

    /// The bytes held, as a slice.
    fn store_bytes(&self) -> (out: &[u8])
        ensures
            out@ == self.store_view(),
    ;
}

impl<'a> ByteStore for &'a [u8] {
    open spec fn store_view(&self) -> Seq<u8> {
        self@
    }

    fn store_bytes(&self) -> (out: &[u8]) {
        *self
    }
}

impl ByteStore for Vec<u8> {
    open spec fn store_view(&self) -> Seq<u8> {
        self@
    }

    fn store_bytes(&self) -> (out: &[u8]) {
        self.as_slice()
    }
}

impl<const N: usize> ByteStore for [u8; N] {
    open spec fn store_view(&self) -> Seq<u8> {
        self@
    }

    fn store_bytes(&self) -> (out: &[u8]) {
        self.as_slice()
    }
}

/// The views of a list of byte slices.
pub open spec fn views(cs: Seq<&[u8]>) -> Seq<Seq<u8>> {
    Seq::new(cs.len(), |i: int| cs[i]@)
}

} // verus!
