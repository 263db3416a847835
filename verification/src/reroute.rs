//! Packets seen with another net header, or with the stamp at which they
//! were received.
use crate::header::{header_bytes_of, law_header_bytes_roundtrip, NetPktHeader};
use crate::netpkt_parts::NetPktParts;
use crate::point_parts::{parts_bytes, PointParts};
use vstd::prelude::*;

verus! {

/// The bytes of a packet in enum form.
pub open spec fn netparts_bytes(p: NetPktParts) -> Seq<u8> {
    header_bytes_of(p.spec_net_header()) + p.spec_hash() + parts_bytes(p.spec_parts())
}

/// A packet with a net header of its own.
#[derive(Clone, Copy, Debug)]
pub struct ReroutePkt<'a> {
    /// The net header that replaces the packet's.
    pub net_header: NetPktHeader,
    /// The packet.
    pub pkt: NetPktParts<'a>,
}

impl<'a> ReroutePkt<'a> {
    /// The packet, with its own net header to start with.
    pub fn new(pkt: NetPktParts<'a>) -> (r: ReroutePkt<'a>)
        ensures
            r.net_header == pkt.spec_net_header(),
            r.pkt == pkt,
    {
        ReroutePkt { net_header: pkt.net_header(), pkt }
    }

    /// The hash of the point.
    pub fn hash_ref(&self) -> (r: &[u8; 32])
        ensures
            r@ == self.pkt.spec_hash(),
    {
        self.pkt.hash_ref()
    }

    /// The net header that replaces the packet's.
    pub fn net_header_ref(&self) -> (r: &NetPktHeader)
        ensures
            *r == self.net_header,
    {
        &self.net_header
    }

    /// The point.
    pub fn as_point(&self) -> (r: PointParts<'a>)
        ensures
            r == self.pkt.spec_parts(),
    {
        self.pkt.as_point()
    }

    /// The stamp at which the packet was received, as the packet has it.
    pub fn recv(&self) -> (r: Option<[u8; 8]>)
        ensures
            r is None,
    {
        self.pkt.recv()
    }

    /// The bytes of the packet with the net header replaced: all but the
    /// first 32 bytes are the packet's.
    pub fn byte_segments(&self) -> (r: Vec<u8>)
        requires
            self.pkt.spec_parts().pkt_header.uset_bytes <= 65528,
        ensures
            r@ == header_bytes_of(self.net_header) + netparts_bytes(self.pkt).skip(32),
    {
        let p = self.pkt.rerouted(self.net_header);
        let r = p.byte_segments();
        proof {
            self.pkt.lemma_hash_len();
            law_header_bytes_roundtrip(self.pkt.spec_net_header(), self.pkt.spec_net_header());
            assert(netparts_bytes(self.pkt).skip(32) =~= self.pkt.spec_hash() + parts_bytes(
                self.pkt.spec_parts(),
            ));
            assert(r@ =~= header_bytes_of(self.net_header) + netparts_bytes(self.pkt).skip(32));
        }
        r
    }
}

/// A packet with the stamp at which it was received.
#[derive(Clone, Copy, Debug)]
pub struct RecvPkt<'a> {
    /// The stamp at which the packet was received.
    pub recv: [u8; 8],
    /// The packet.
    pub pkt: NetPktParts<'a>,
}

impl<'a> RecvPkt<'a> {
    /// The stamp at which the packet was received.
    pub fn recv(&self) -> (r: Option<[u8; 8]>)
        ensures
            r == Some(self.recv),
    {
        Some(self.recv)
    }

    /// The hash of the point.
    pub fn hash_ref(&self) -> (r: &[u8; 32])
        ensures
            r@ == self.pkt.spec_hash(),
    {
        self.pkt.hash_ref()
    }

    /// The packet's net header.
    pub fn net_header_ref(&self) -> (r: &NetPktHeader)
        ensures
            *r == self.pkt.spec_net_header(),
    {
        self.pkt.net_header_ref()
    }

    /// The point.
    pub fn as_point(&self) -> (r: PointParts<'a>)
        ensures
            r == self.pkt.spec_parts(),
    {
        self.pkt.as_point()
    }

    /// The packet's bytes.
    pub fn byte_segments(&self) -> (r: Vec<u8>)
        requires
            self.pkt.spec_parts().pkt_header.uset_bytes <= 65528,
        ensures
            r@ == netparts_bytes(self.pkt),
    {
        self.pkt.byte_segments()
    }
}

} // verus!
