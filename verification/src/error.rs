//! Why bytes do not form a valid point or packet.
use crate::consts::MIN_NETPKT_SIZE;
use crate::spath::PathError;
use vstd::prelude::*;

verus! {

/// Why bytes do not form a valid point or packet.
#[derive(Debug, Clone, Copy, PartialEq, Eq)]
pub enum Error {
    /// A point type that is none of the known kinds (its byte).
    UnknownPktType(u8),
    /// The packet length does not agree with the tail lengths.
    TailLength,
    /// An invalid path.
    SPath(PathError),
    /// A signature on a point type that cannot be signed.
    SignedInvalidPkt,
    /// The signed and the unsigned header disagree on the length.
    KeyPointLength,
    /// The hash does not match the packet.
    HashMismatch,
    /// An invalid signature.
    InvalidSignature,
    /// The packet has trailing data.
    InvalidPktDataLength,
    /// The content size exceeds the maximum, or is too small for the type.
    ContentLen,
    /// Fewer bytes than needed to read the packet size.
    MissingHeader,
    /// Reserved bits are set.
    ReservedBitsSet,
    /// Padding bytes that are not all 0xFF.
    PaddingBitsNotU8Max,
    /// Link bytes that are not a whole number of links.
    IndivisableLinkbytes,
    /// The data offset is not between the path offset and the point size.
    DataOffsetIncompatible,
    /// The path offset lies inside the header.
    ISPOffsetIncompatible,
    /// The point header's reserved byte is set (its value).
    HeaderReservedSet(u8),
    /// Bytes are missing: the packet is `netpkt_size` long.
    MissingBytes { netpkt_size: u16 },
    /// The private group cannot be used in this context.
    PrivateGroup,
}

impl Error {
    /// How many bytes a reader needs in total, for the errors that say so.
    pub fn requires_more(self) -> (r: Option<usize>)
        ensures
            r == match self {
                Error::MissingHeader => Some(MIN_NETPKT_SIZE),
                Error::MissingBytes { netpkt_size } => Some(netpkt_size as usize),
                _ => None,
            },
    {
        match self {
            Error::MissingHeader => Some(MIN_NETPKT_SIZE),
            Error::MissingBytes { netpkt_size } => Some(netpkt_size as usize),
            _ => None,
        }
    }
}

impl From<PathError> for Error {
    fn from(e: PathError) -> (r: Error) {
        Error::SPath(e)
    }
}

impl vstd::std_specs::convert::FromSpecImpl<PathError> for Error {
    open spec fn obeys_from_spec() -> bool {
        true
    }

    open spec fn from_spec(e: PathError) -> Error {
        Error::SPath(e)
    }
}

} // verus!
