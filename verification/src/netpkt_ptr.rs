//! A net packet read in place from its bytes: the net header (32 bytes), the
//! hash of the point (32 bytes) and the point's padded bytes.
use crate::codec::{array_of, bytes_eq};
use crate::consts::MIN_NETPKT_SIZE;
use crate::error::Error;
use crate::header::{header_bytes_of, NetPktHeader};
use crate::netpkt_parts::NetPktParts;
use crate::point::{header_of, padded, spec_check, PointHeader};
use crate::point_parts::parts_bytes;
use crate::point_ptr::{
    blake3_digest, law_parts_bytes, parts_of, spec_consistent, well_sized, PointThinPtr,
};
use vstd::prelude::*;

verus! {

/// The point bytes of a net packet.
pub open spec fn point_of(b: Seq<u8>) -> Seq<u8> {
    b.skip(64)
}

/// The result of checking a net packet: the point's lengths; then, unless the
/// hash is skipped, the signature of a key point (as `signature_valid` says)
/// and the hash.
pub open spec fn spec_netpkt_check(b: Seq<u8>, skip_hash: bool, signature_valid: bool) -> Result<
    (),
    Error,
> {
    match spec_consistent(point_of(b)) {
        Err(e) => Err(e),
        Ok(_) => if skip_hash {
            Ok(())
        } else if header_of(point_of(b)).point_type.spec_bits() == 7 && !signature_valid {
            Err(Error::InvalidSignature)
        } else if b.subrange(32, 64) != blake3_digest(point_of(b)) {
            Err(Error::HashMismatch)
        } else {
            Ok(())
        },
    }
}

/// The result of reading a net packet from the start of `b`: its size, or
/// why it cannot be read. Fewer bytes than a header, hash and point header
/// need, or fewer than the packet size, say how many bytes are needed.
pub open spec fn spec_read_pkt(b: Seq<u8>, skip_hash: bool, signature_valid: bool) -> Result<
    int,
    Error,
> {
    if b.len() < MIN_NETPKT_SIZE {
        Err(Error::MissingHeader)
    } else {
        let h = header_of(point_of(b));
        match spec_check(h) {
            Err(e) => Err(e),
            Ok(_) => {
                let size = padded(h.uset_bytes as int) + 64;
                if size > b.len() {
                    Err(Error::MissingBytes { netpkt_size: size as u16 })
                } else if h.uset_bytes < 4 {
                    Err(Error::ContentLen)
                } else {
                    match spec_netpkt_check(b.subrange(0, size), skip_hash, signature_valid) {
                        Err(e) => Err(e),
                        Ok(_) => Ok(size),
                    }
                }
            },
        }
    }
}

/// Reads the net packet at the start of `bytes` and checks it (see
/// [NetPktPtr::check]). Fails with [Error::MissingHeader] or
/// [Error::MissingBytes] when more bytes are needed; a point size below the
/// point header's own 4 bytes is [Error::ContentLen].
pub fn read_pkt<'a>(bytes: &'a [u8], skip_hash: bool, signature_valid: bool) -> (r: Result<
    NetPktPtr<'a>,
    Error,
>)
    ensures
        match spec_read_pkt(bytes@, skip_hash, signature_valid) {
            Ok(size) => r is Ok && r.unwrap()@ == bytes@.subrange(0, size),
            Err(e) => r == Err::<NetPktPtr<'a>, Error>(e),
        },
{
    if bytes.len() < MIN_NETPKT_SIZE {
        return Err(Error::MissingHeader);
    }
    let h = PointHeader::from_bytes([bytes[64], bytes[65], bytes[66], bytes[67]]);
    proof {
        assert(seq![bytes@[64], bytes@[65], bytes@[66], bytes@[67]] =~= point_of(bytes@).take(4));
        assert(header_of(point_of(bytes@)) == header_of(point_of(bytes@).take(4)));
    }
    match h.check() {
        Err(e) => {
            return Err(e);
        },
        Ok(_) => {},
    }
    let netpkt_size = h.size();
    let size = netpkt_size as usize;
    if size > bytes.len() {
        return Err(Error::MissingBytes { netpkt_size });
    }
    if h.uset_bytes < 4 {
        return Err(Error::ContentLen);
    }
    let b = &bytes[0..size];
    proof {
        assert(point_of(b@) =~= bytes@.subrange(64, size as int));
        assert(point_of(b@).take(4) =~= point_of(bytes@).take(4));
        assert(header_of(point_of(b@)) == header_of(point_of(b@).take(4)));
    }
    let pkt = NetPktPtr::from_bytes_unchecked(b);
    match pkt.check(skip_hash, signature_valid) {
        Err(e) => Err(e),
        Ok(()) => Ok(pkt),
    }
}

/// A net packet, held as its bytes.
pub struct NetPktPtr<'a> {
    bytes: &'a [u8],
}

impl<'a> View for NetPktPtr<'a> {
    type V = Seq<u8>;

    closed spec fn view(&self) -> Seq<u8> {
        self.bytes@
    }
}

impl<'a> NetPktPtr<'a> {
    #[verifier::type_invariant]
    spec fn sized(self) -> bool {
        &&& self.bytes@.len() >= MIN_NETPKT_SIZE
        &&& well_sized(point_of(self.bytes@))
    }

    /// The net packet that the bytes hold; they must be exactly the packet.
    pub fn from_bytes_unchecked(b: &'a [u8]) -> (r: NetPktPtr<'a>)
        requires
            b.len() >= MIN_NETPKT_SIZE,
            well_sized(point_of(b@)),
        ensures
            r@ == b@,
    {
        NetPktPtr { bytes: b }
    }

    /// The net packet that the bytes hold, when their sizes fit one exactly.
    pub fn from_bytes(b: &'a [u8]) -> (r: Option<NetPktPtr<'a>>)
        ensures
            r is Some <==> b.len() >= MIN_NETPKT_SIZE && well_sized(point_of(b@)),
            r is Some ==> r.unwrap()@ == b@,
    {
        if b.len() < MIN_NETPKT_SIZE {
            return None;
        }
        let rest = &b[64..b.len()];
        assert(rest@ =~= point_of(b@));
        match PointThinPtr::from_bytes(rest) {
            None => None,
            Some(p) => {
                if p.pkt_bytes().len() == rest.len() {
                    Some(NetPktPtr { bytes: b })
                } else {
                    None
                }
            },
        }
    }

    /// The net header.
    pub fn net_header(&self) -> (r: NetPktHeader)
        ensures
            header_bytes_of(r) == self@.subrange(0, 32),
    {
        proof {
            use_type_invariant(self);
        }
        NetPktHeader::cfrom(array_of::<32>(&self.bytes[0..32]))
    }

    /// The hash that the packet carries.
    pub fn hash(&self) -> (r: [u8; 32])
        ensures
            r@ == self@.subrange(32, 64),
    {
        proof {
            use_type_invariant(self);
        }
        array_of::<32>(&self.bytes[32..64])
    }

    /// The point.
    pub fn as_point(&self) -> (r: PointThinPtr<'a>)
        ensures
            r@ == point_of(self@),
    {
        proof {
            use_type_invariant(self);
        }
        let rest = &self.bytes[64..self.bytes.len()];
        assert(rest@ =~= point_of(self@));
        PointThinPtr::from_bytes_unchecked(rest)
    }

    /// The number of bytes of the packet.
    pub fn size(&self) -> (r: usize)
        ensures
            r == self@.len(),
            r == padded(header_of(point_of(self@)).uset_bytes as int) + 64,
    {
        proof {
            use_type_invariant(self);
        }
        self.bytes.len()
    }

    /// The bytes of the packet.
    pub fn as_netpkt_bytes(&self) -> (r: &'a [u8])
        ensures
            r@ == self@,
    {
        self.bytes
    }

    /// Checks the point's lengths and, unless `skip_hash`, the signature of a
    /// key point and the hash. `signature_valid` says whether a key point's
    /// signature verifies; it is not read for other points.
    pub fn check(&self, skip_hash: bool, signature_valid: bool) -> (r: Result<(), Error>)
        ensures
            r == spec_netpkt_check(self@, skip_hash, signature_valid),
    {
        let point = self.as_point();
        match point.internal_consitent_length() {
            Err(e) => {
                return Err(e);
            },
            Ok(_) => {},
        }
        if !skip_hash {
            if point.point_header().point_type.bits() == 7 && !signature_valid {
                return Err(Error::InvalidSignature);
            }
            let hash = self.hash();
            let computed = point.compute_hash();
            if !bytes_eq(hash.as_slice(), computed.as_slice()) {
                return Err(Error::HashMismatch);
            }
        }
        Ok(())
    }

    /// The packet in enum form, for a packet whose point is consistent and
    /// whose hash is the point's.
    pub fn as_netparts(&self) -> (r: NetPktParts<'a>)
        requires
            spec_consistent(point_of(self@)) is Ok,
            self@.subrange(32, 64) == blake3_digest(point_of(self@)),
        ensures
            header_bytes_of(r.spec_net_header()) == self@.subrange(0, 32),
            r.spec_hash() == self@.subrange(32, 64),
            parts_of(point_of(self@), r.spec_parts()),
    {
        proof {
            use_type_invariant(self);
        }
        let point = self.as_point();
        let parts = point.parts();
        proof {
            law_parts_bytes(point@, parts);
        }
        NetPktParts::from_unchecked(self.net_header(), self.hash(), parts)
    }

    /// The packet in enum form when its point is consistent and its hash is
    /// the point's; `None` otherwise.
    pub fn checked_netparts(&self) -> (r: Option<NetPktParts<'a>>)
        ensures
            r is Some <==> (spec_consistent(point_of(self@)) is Ok && self@.subrange(32, 64)
                == blake3_digest(point_of(self@))),
            r is Some ==> {
                &&& header_bytes_of(r.unwrap().spec_net_header()) == self@.subrange(0, 32)
                &&& r.unwrap().spec_hash() == self@.subrange(32, 64)
                &&& parts_of(point_of(self@), r.unwrap().spec_parts())
            },
    {
        let point = self.as_point();
        if point.internal_consitent_length().is_err() {
            return None;
        }
        let hash = self.hash();
        let computed = point.compute_hash();
        if !bytes_eq(hash.as_slice(), computed.as_slice()) {
            return None;
        }
        Some(self.as_netparts())
    }
}

/// A packet in enum form whose point is consistent and whose hash is the
/// point's: its bytes pass the packet check (a key point needs a valid
/// signature), and reading them back gives its net header, hash and point.
pub proof fn law_packet_bytes_check(pkt: NetPktParts, signature_valid: bool)
    requires
        well_sized(parts_bytes(pkt.spec_parts())),
        spec_consistent(parts_bytes(pkt.spec_parts())) is Ok,
        pkt.spec_hash() == blake3_digest(parts_bytes(pkt.spec_parts())),
        header_of(parts_bytes(pkt.spec_parts())).point_type.spec_bits() != 7 || signature_valid,
    ensures
        ({
            let b = header_bytes_of(pkt.spec_net_header()) + pkt.spec_hash() + parts_bytes(
                pkt.spec_parts(),
            );
            &&& b.len() >= MIN_NETPKT_SIZE
            &&& point_of(b) == parts_bytes(pkt.spec_parts())
            &&& b.subrange(0, 32) == header_bytes_of(pkt.spec_net_header())
            &&& b.subrange(32, 64) == pkt.spec_hash()
            &&& spec_netpkt_check(b, false, signature_valid) == Ok::<(), Error>(())
        }),
{
    pkt.lemma_hash_len();
    let b = header_bytes_of(pkt.spec_net_header()) + pkt.spec_hash() + parts_bytes(
        pkt.spec_parts(),
    );
    assert(point_of(b) =~= parts_bytes(pkt.spec_parts()));
    assert(b.subrange(0, 32) =~= header_bytes_of(pkt.spec_net_header()));
    assert(b.subrange(32, 64) =~= pkt.spec_hash());
}

/// Reading back the bytes of a packet in enum form whose point is consistent
/// and whose hash is the point's, with any bytes after them: the reader takes
/// exactly the packet's bytes when the hash is skipped or the signature of a
/// key point verifies, and rejects a key point whose signature does not verify
/// (when the hash is not skipped) with `InvalidSignature`; other points do not
/// depend on the signature argument.
pub proof fn law_read_built_packet(pkt: NetPktParts, extra: Seq<u8>, signature_valid: bool)
    requires
        well_sized(parts_bytes(pkt.spec_parts())),
        spec_consistent(parts_bytes(pkt.spec_parts())) is Ok,
        pkt.spec_hash() == blake3_digest(parts_bytes(pkt.spec_parts())),
    ensures
        ({
            let b = header_bytes_of(pkt.spec_net_header()) + pkt.spec_hash() + parts_bytes(
                pkt.spec_parts(),
            );
            let t = header_of(parts_bytes(pkt.spec_parts())).point_type.spec_bits();
            &&& spec_read_pkt(b + extra, true, signature_valid) == Ok::<int, Error>(b.len() as int)
            &&& spec_read_pkt(b + extra, false, true) == Ok::<int, Error>(b.len() as int)
            &&& t != 7 ==> spec_read_pkt(b + extra, false, false) == Ok::<int, Error>(
                b.len() as int,
            )
            &&& t == 7 ==> spec_read_pkt(b + extra, false, false) == Err::<int, Error>(
                Error::InvalidSignature,
            )
        }),
{
    let b = header_bytes_of(pkt.spec_net_header()) + pkt.spec_hash() + parts_bytes(
        pkt.spec_parts(),
    );
    let be = b + extra;
    law_packet_bytes_check(pkt, true);
    pkt.lemma_hash_len();
    let pb = parts_bytes(pkt.spec_parts());
    assert(be.subrange(0, b.len() as int) =~= b);
    assert(point_of(be).take(4) =~= pb.take(4));
    assert(header_of(point_of(be)) == header_of(point_of(be).take(4)));
    assert(header_of(pb) == header_of(pb.take(4)));
    assert(point_of(b) == pb);
}

} // verus!
