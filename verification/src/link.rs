//! Links: a tag and a pointer (usually a hash).
use vstd::prelude::*;

verus! {

/// A tag and a pointer: 48 bytes in a link point.
#[derive(Copy, Clone, Debug, PartialEq, Eq, PartialOrd, Ord, Hash)]
pub struct Link {
    /// The tag.
    pub tag: [u8; 16],
    /// Usually a hash, sometimes a public key or a group.
    pub ptr: [u8; 32],
}

impl From<([u8; 16], [u8; 32])> for Link {
    fn from(v: ([u8; 16], [u8; 32])) -> (r: Link) {
        Link { tag: v.0, ptr: v.1 }
    }
}

impl vstd::std_specs::convert::FromSpecImpl<([u8; 16], [u8; 32])> for Link {
    open spec fn obeys_from_spec() -> bool {
        true
    }

    open spec fn from_spec(v: ([u8; 16], [u8; 32])) -> Link {
        Link { tag: v.0, ptr: v.1 }
    }
}

} // verus!
