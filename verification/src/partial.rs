//! The first bytes of a net packet: enough to learn its size while reading
//! it from a stream.
use crate::consts::MIN_NETPKT_SIZE;
use crate::header::{empty_net_header, header_bytes_of, NetPktHeader};
use crate::point::{header_of, PointHeader};
use vstd::prelude::*;

verus! {

/// The net header (32 bytes), the hash (32 bytes) and the point header of a
/// net packet.
#[derive(Copy, Clone, Debug)]
pub struct PartialNetHeader {
    /// The net header.
    pub net_header: NetPktHeader,
    /// The hash of the point.
    pub hash: [u8; 32],
    /// The point header.
    pub point_header: PointHeader,
}

impl PartialNetHeader {
    /// An empty net header, a zero hash and the header of an empty error point.
    pub fn empty() -> (r: PartialNetHeader)
        ensures
            header_bytes_of(r.net_header) == empty_net_header(),
            r.hash@ == Seq::new(32, |i: int| 0u8),
            r.point_header.reserved == 0,
            r.point_header.point_type.spec_bits() == 128,
            r.point_header.uset_bytes == 4,
    {
        let net_header = NetPktHeader::EMPTY();
        let hash = [0u8; 32];
        assert(hash@ =~= Seq::new(32, |i: int| 0u8));
        PartialNetHeader { net_header, hash, point_header: PointHeader::error() }
    }

    /// The header that the first bytes of a net packet hold.
    pub fn from(bytes: &[u8; MIN_NETPKT_SIZE]) -> (r: PartialNetHeader)
        ensures
            header_bytes_of(r.net_header) == bytes@.subrange(0, 32),
            r.hash@ == bytes@.subrange(32, 64),
            r.point_header == header_of(bytes@.subrange(64, 68)),
    {
        let mut net_header = [0u8; 32];
        let mut hash = [0u8; 32];
        let mut i: usize = 0;
        while i < 32
            invariant
                i <= 32,
                bytes@.len() == 68,
                forall|j: int| 0 <= j < i ==> net_header@[j] == bytes@[j],
                forall|j: int| 0 <= j < i ==> hash@[j] == bytes@[j + 32],
            decreases 32 - i,
        {
            net_header[i] = bytes[i];
            hash[i] = bytes[i + 32];
            i = i + 1;
        }
        assert(net_header@ =~= bytes@.subrange(0, 32));
        assert(hash@ =~= bytes@.subrange(32, 64));
        let net_header = NetPktHeader::cfrom(net_header);
        let point_header = PointHeader::from_bytes([bytes[64], bytes[65], bytes[66], bytes[67]]);
        assert(seq![bytes[64], bytes[65], bytes[66], bytes[67]] =~= bytes@.subrange(64, 68));
        PartialNetHeader { net_header, hash, point_header }
    }
}

} // verus!
