//! A net packet in enum form: the net header, the point's hash and the point.
use crate::codec::extend_bytes;
use crate::header::{header_bytes_of, NetPktHeader};
use crate::point::padded;
use crate::point_parts::{parts_bytes, PointParts};
use crate::point_ptr::blake3_digest;
use vstd::prelude::*;

verus! {

/// A net packet: net header bytes, the hash of the point and the point.
#[derive(Clone, Copy, Debug)]
pub struct NetPktParts<'a> {
    /// The net header.
    pub net_header: NetPktHeader,
    pub(crate) hash: [u8; 32],
    pub(crate) point_parts: PointParts<'a>,
}

impl<'a> NetPktParts<'a> {
    /// The net header held.
    pub closed spec fn spec_net_header(&self) -> NetPktHeader {
        self.net_header
    }

    /// The hash held.
    pub closed spec fn spec_hash(&self) -> Seq<u8> {
        self.hash@
    }

    /// The hash held has 32 bytes.
    pub proof fn lemma_hash_len(&self)
        ensures
            self.spec_hash().len() == 32,
    {
    }

    /// The point held.
    pub closed spec fn spec_parts(&self) -> PointParts<'a> {
        self.point_parts
    }

    /// A packet of the given parts, whose hash must be the point's.
    pub fn from_unchecked(net_header: NetPktHeader, hash: [u8; 32], pkt_parts: PointParts<'a>) -> (r: Self)
        requires
            hash@ == blake3_digest(parts_bytes(pkt_parts)),
        ensures
            r.spec_net_header() == net_header,
            r.spec_hash() == hash@,
            r.spec_parts() == pkt_parts,
    {
        NetPktParts { net_header, hash, point_parts: pkt_parts }
    }

    /// The same packet with another net header.
    pub(crate) fn rerouted(&self, net_header: NetPktHeader) -> (r: Self)
        ensures
            r.spec_net_header() == net_header,
            r.spec_hash() == self.spec_hash(),
            r.spec_parts() == self.spec_parts(),
    {
        NetPktParts { net_header, hash: self.hash, point_parts: self.point_parts }
    }

    /// The hash of the point.
    pub fn hash_ref(&self) -> (r: &[u8; 32])
        ensures
            r@ == self.spec_hash(),
    {
        &self.hash
    }

    /// The net header.
    pub fn net_header_ref(&self) -> (r: &NetPktHeader)
        ensures
            *r == self.spec_net_header(),
    {
        &self.net_header
    }

    /// The net header.
    pub fn net_header(&self) -> (r: NetPktHeader)
        ensures
            r == self.spec_net_header(),
    {
        self.net_header
    }

    /// The hash of the point.
    pub fn hash(&self) -> (r: [u8; 32])
        ensures
            r@ == self.spec_hash(),
    {
        self.hash
    }

    /// The stamp at which the packet was received: a packet in enum form
    /// was not received.
    pub fn recv(&self) -> (r: Option<[u8; 8]>)
        ensures
            r is None,
    {
        None
    }

    /// The size of the packet in bytes: header, hash and padded point.
    pub fn size(&self) -> (r: u16)
        requires
            self.spec_parts().pkt_header.uset_bytes <= 65464,
        ensures
            r == padded(self.spec_parts().pkt_header.uset_bytes as int) + 64,
    {
        self.point_parts.pkt_header.size()
    }

    /// The point.
    pub fn as_point(&self) -> (r: PointParts<'a>)
        ensures
            r == self.spec_parts(),
    {
        self.point_parts
    }

    /// The bytes of the packet: net header, hash, then the point's bytes.
    pub fn byte_segments(&self) -> (r: Vec<u8>)
        requires
            self.spec_parts().pkt_header.uset_bytes <= 65528,
        ensures
            r@ == header_bytes_of(self.spec_net_header()) + self.spec_hash() + parts_bytes(self.spec_parts()),
    {
        let mut v: Vec<u8> = Vec::new();
        let nh = self.net_header.as_bytes();
        extend_bytes(&mut v, nh.as_slice());
        extend_bytes(&mut v, self.hash.as_slice());
        let p = self.point_parts.pkt_segments();
        extend_bytes(&mut v, p.as_slice());
        v
    }
}

} // verus!
