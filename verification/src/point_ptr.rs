//! A point read in place from its padded bytes.
//!
//! Layout: the 4 byte point header; for link and key points a 60 byte link
//! point header (path offset and data offset as big endian u16, create
//! stamp, group, domain), the links, the indexed path and the data; then
//! up to 7 padding bytes of 0xFF; and for key points a 96 byte signature
//! block after the padding.
use crate::consts::{LINKPOINT_HEADER_SIZE, POINT_HEADER_SIZE, SIGNED_SIZE, LINK_SIZE};
use crate::error::Error;
use crate::codec::array_of;
use crate::ipath::{spec_icheck, IPath};
use crate::point_parts::{
    pad_bytes, parts_bytes, signed_bytes, LinkPoint, PointFields, PointParts, Signed, Tail,
};
use crate::point::{
    header_bytes, header_of, law_header_bytes, lemma_flags_of, lph_bytes, padded, spec_check,
    LinkPointHeader, PointHeader, PointTypeFlags,
};
use vstd::prelude::*;

verus! {

/// The big endian u16 at offset `i`.
pub open spec fn be16(b: Seq<u8>, i: int) -> int {
    b[i] as int * 256 + b[i + 1] as int
}

/// Bytes that start with a point header whose point size is at least the
/// header and whose padded size is exactly the number of bytes.
pub open spec fn well_sized(b: Seq<u8>) -> bool {
    &&& b.len() >= 4
    &&& 4 <= header_of(b).uset_bytes <= 65528
    &&& b.len() == padded(header_of(b).uset_bytes as int)
}

/// The size of the point's fields: the point size without the signature of a
/// key point.
pub open spec fn fields_end(b: Seq<u8>) -> int {
    let h = header_of(b);
    if h.point_type.spec_bits() == 7 {
        h.uset_bytes - SIGNED_SIZE
    } else {
        h.uset_bytes as int
    }
}

/// The padding bytes: they follow the fields.
pub open spec fn padding_of(b: Seq<u8>) -> Seq<u8> {
    let h = header_of(b);
    let u = h.uset_bytes as int;
    b.subrange(fields_end(b), fields_end(b) + padded(u) - u)
}

/// Every byte is 0xFF.
pub open spec fn all_ff(s: Seq<u8>) -> bool {
    forall|i: int| 0 <= i < s.len() ==> s[i] == 255u8
}

/// Checks the padding.
pub open spec fn padding_check(b: Seq<u8>) -> Result<(), Error> {
    if all_ff(padding_of(b)) {
        Ok(())
    } else {
        Err(Error::PaddingBitsNotU8Max)
    }
}

/// The result of checking the lengths of a point against its header.
pub open spec fn spec_consistent(b: Seq<u8>) -> Result<(), Error> {
    let h = header_of(b);
    let t = h.point_type.spec_bits();
    match spec_check(h) {
        Err(e) => Err(e),
        Ok(_) => if t == 3 || t == 7 {
            let ps = fields_end(b);
            let isp = be16(b, 4);
            let dof = be16(b, 6);
            if dof > ps {
                Err(Error::DataOffsetIncompatible)
            } else if isp > dof {
                Err(Error::DataOffsetIncompatible)
            } else if isp < POINT_HEADER_SIZE + LINKPOINT_HEADER_SIZE {
                Err(Error::ISPOffsetIncompatible)
            } else if (isp - (POINT_HEADER_SIZE + LINKPOINT_HEADER_SIZE)) % (LINK_SIZE as int) != 0 {
                Err(Error::IndivisableLinkbytes)
            } else {
                match spec_icheck(b.subrange(isp, dof)) {
                    Err(e) => Err(Error::SPath(e)),
                    Ok(_) => padding_check(b),
                }
            }
        } else {
            padding_check(b)
        },
    }
}

/// The link point that the bytes of a link or key point hold.
pub open spec fn link_of(b: Seq<u8>, lp: LinkPoint) -> bool {
    let isp = be16(b, 4);
    let dof = be16(b, 6);
    &&& lph_bytes(lp.head) == b.subrange(4, 64)
    &&& lp.tail.links@ == b.subrange(64, isp)
    &&& lp.tail.ipath@ == b.subrange(isp, dof)
    &&& lp.tail.data@ == b.subrange(dof, fields_end(b))
}

/// The bytes hold a link or a key point.
pub open spec fn is_link(b: Seq<u8>) -> bool {
    header_of(b).point_type.spec_bits() == 3 || header_of(b).point_type.spec_bits() == 7
}

/// The data of the point that the bytes hold: after the path for link and key
/// points, after the header for the others.
pub open spec fn data_of(b: Seq<u8>) -> Seq<u8> {
    let t = header_of(b).point_type.spec_bits();
    if t == 3 || t == 7 {
        b.subrange(be16(b, 6), fields_end(b))
    } else if t == 1 || t == 128 {
        b.subrange(4, header_of(b).uset_bytes as int)
    } else {
        b.subrange(4, b.len() as int)
    }
}

/// `p` is the enum form of the point that the bytes hold.
pub open spec fn parts_of(b: Seq<u8>, p: PointParts) -> bool {
    let h = header_of(b);
    let t = h.point_type.spec_bits();
    &&& p.pkt_header == h
    &&& match p.fields {
        PointFields::LinkPoint(lp) => t == 3 && link_of(b, lp),
        PointFields::KeyPoint(lp, s) => t == 7 && link_of(b, lp) && signed_bytes(s) == b.subrange(
            b.len() - SIGNED_SIZE,
            b.len() as int,
        ),
        PointFields::DataPoint(d) => t == 1 && d@ == b.subrange(4, h.uset_bytes as int),
        PointFields::Error(d) => t == 128 && d@ == b.subrange(4, h.uset_bytes as int),
        PointFields::Unknown(d) => t != 1 && t != 3 && t != 7 && t != 128 && d@ == b.subrange(
            4,
            b.len() as int,
        ),
    }
}

/// The bytes that the signature of a key point signs: all but the signature
/// block at the end.
pub open spec fn sign_message(b: Seq<u8>) -> Seq<u8> {
    b.subrange(0, b.len() - SIGNED_SIZE)
}

/// The BLAKE3 hash of the bytes.
pub uninterp spec fn blake3_digest(data: Seq<u8>) -> Seq<u8>;

/// Calls `blake3::hash` and takes the 32 bytes of the result. The digest is a
/// function of the bytes alone; what it is, is left to the name.
#[verifier::external_body]
pub(crate) fn blake3_hash(data: &[u8]) -> (r: [u8; 32])
    ensures
        r@ == blake3_digest(data@),
{
    *blake3::hash(data).as_bytes()
}

/// A point, held as its padded bytes.
pub struct PointThinPtr<'a> {
    bytes: &'a [u8],
}

impl<'a> View for PointThinPtr<'a> {
    type V = Seq<u8>;

    closed spec fn view(&self) -> Seq<u8> {
        self.bytes@
    }
}

impl<'a> PointThinPtr<'a> {
    #[verifier::type_invariant]
    spec fn sized(self) -> bool {
        well_sized(self.bytes@)
    }

    /// The point at the start of `b`: the bytes that its header's padded
    /// size covers.
    pub fn from_bytes_unchecked(b: &'a [u8]) -> (r: PointThinPtr<'a>)
        requires
            b.len() >= 4,
            b.len() % 8 == 0,
            4 <= header_of(b@).uset_bytes <= 65528,
            padded(header_of(b@).uset_bytes as int) <= b.len(),
        ensures
            r@ == b@.take(padded(header_of(b@).uset_bytes as int)),
    {
        let h = PointHeader::from_bytes([b[0], b[1], b[2], b[3]]);
        proof {
            assert(seq![b[0], b[1], b[2], b[3]] =~= b@.take(4));
        }
        let n = h.padded_point_size() as usize;
        let bytes = &b[0..n];
        proof {
            assert(bytes@.take(4) =~= b@.take(4));
        }
        PointThinPtr { bytes }
    }

    /// The point at the start of `b`, when its header's sizes are usable and
    /// `b` holds all its padded bytes.
    pub fn from_bytes(b: &'a [u8]) -> (r: Option<PointThinPtr<'a>>)
        ensures
            (b.len() >= 4 && b.len() % 8 == 0 && 4 <= header_of(b@).uset_bytes <= 65528
                && padded(header_of(b@).uset_bytes as int) <= b.len()) <==> r is Some,
            r is Some ==> r.unwrap()@ == b@.take(padded(header_of(b@).uset_bytes as int)),
    {
        if b.len() < 4 || b.len() % 8 != 0 {
            return None;
        }
        let h = PointHeader::from_bytes([b[0], b[1], b[2], b[3]]);
        proof {
            assert(seq![b[0], b[1], b[2], b[3]] =~= b@.take(4));
        }
        if h.uset_bytes < 4 || h.uset_bytes > 65528 || h.padded_point_size() as usize > b.len() {
            return None;
        }
        Some(Self::from_bytes_unchecked(b))
    }

    /// The point header.
    pub fn point_header(&self) -> (r: PointHeader)
        ensures
            r == header_of(self@),
    {
        proof {
            use_type_invariant(self);
        }
        let b = self.bytes;
        let h = PointHeader::from_bytes([b[0], b[1], b[2], b[3]]);
        proof {
            assert(seq![b[0], b[1], b[2], b[3]] =~= b@.take(4));
        }
        h
    }

    /// The padded bytes of the point.
    pub fn pkt_bytes(&self) -> (r: &'a [u8])
        ensures
            r@ == self@,
            well_sized(r@),
    {
        proof {
            use_type_invariant(self);
        }
        self.bytes
    }

    /// The hash of the point: the BLAKE3 hash of its padded bytes.
    pub fn compute_hash(&self) -> (r: [u8; 32])
        ensures
            r@ == blake3_digest(self@),
    {
        blake3_hash(self.bytes)
    }

    /// The enum form of a point whose lengths are consistent.
    pub fn parts(&self) -> (r: PointParts<'a>)
        requires
            spec_consistent(self@) is Ok,
        ensures
            parts_of(self@, r),
    {
        proof {
            use_type_invariant(self);
        }
        let b = self.bytes;
        let h = self.point_header();
        proof {
            lemma_type_bits(h.point_type);
        }
        let u = h.upoint_size() as usize;
        let fields = if h.point_type.contains(PointTypeFlags::LINK()) {
            let head = LinkPointHeader::from_bytes(&b[4..64]);
            let isp = b[4] as usize * 256 + b[5] as usize;
            let dof = b[6] as usize * 256 + b[7] as usize;
            let end = if h.point_type.contains(PointTypeFlags::SIGNATURE()) {
                u - SIGNED_SIZE
            } else {
                u
            };
            let tail = Tail {
                links: &b[64..isp],
                data: &b[dof..end],
                ipath: IPath::from_unchecked(&b[isp..dof]),
            };
            let lp = LinkPoint { head, tail };
            if h.point_type.contains(PointTypeFlags::SIGNATURE()) {
                let n = b.len();
                let signed = Signed {
                    pubkey: array_of::<32>(&b[n - 96..n - 64]),
                    signature: array_of::<64>(&b[n - 64..n]),
                };
                proof {
                    assert(signed_bytes(signed) =~= b@.subrange(n - 96, n as int));
                }
                PointFields::KeyPoint(lp, signed)
            } else {
                PointFields::LinkPoint(lp)
            }
        } else if h.point_type.bits() == 1 {
            PointFields::DataPoint(&b[4..u])
        } else if h.point_type.bits() == 128 {
            PointFields::Error(&b[4..u])
        } else {
            PointFields::Unknown(&b[4..b.len()])
        };
        PointParts { pkt_header: h, fields }
    }

    /// The data of a point whose lengths are consistent.
    pub fn data(&self) -> (r: &'a [u8])
        requires
            spec_consistent(self@) is Ok,
        ensures
            r@ == data_of(self@),
    {
        let p = self.parts();
        p.data_ptr()
    }

    /// The tail of a link or key point whose lengths are consistent.
    pub fn tail(&self) -> (r: Option<Tail<'a>>)
        requires
            spec_consistent(self@) is Ok,
        ensures
            r is Some <==> is_link(self@),
            r is Some ==> {
                let t = r.unwrap();
                &&& t.links@ == self@.subrange(64, be16(self@, 4))
                &&& t.ipath@ == self@.subrange(be16(self@, 4), be16(self@, 6))
                &&& t.data@ == self@.subrange(be16(self@, 6), fields_end(self@))
            },
    {
        self.parts().tail()
    }

    /// The link point header of a link or key point whose lengths are
    /// consistent.
    pub fn linkpoint_header(&self) -> (r: Option<LinkPointHeader>)
        requires
            spec_consistent(self@) is Ok,
        ensures
            r is Some <==> is_link(self@),
            r is Some ==> lph_bytes(r.unwrap()) == self@.subrange(4, 64),
    {
        self.parts().linkpoint_header()
    }

    /// The signature block of a key point whose lengths are consistent.
    pub fn signed(&self) -> (r: Option<Signed>)
        requires
            spec_consistent(self@) is Ok,
        ensures
            r is Some <==> header_of(self@).point_type.spec_bits() == 7,
            r is Some ==> signed_bytes(r.unwrap()) == self@.subrange(
                self@.len() - SIGNED_SIZE,
                self@.len() as int,
            ),
    {
        self.parts().signed()
    }

    /// The hash that the signature of a key point signs: the BLAKE3 hash of
    /// its padded bytes without the signature block. `None` for other points
    /// and for bytes too short to hold a signature block.
    pub fn signing_hash(&self) -> (r: Option<[u8; 32]>)
        ensures
            r is Some <==> (header_of(self@).point_type.spec_bits() == 7 && self@.len()
                >= SIGNED_SIZE),
            r is Some ==> r.unwrap()@ == blake3_digest(sign_message(self@)),
    {
        let h = self.point_header();
        let b = self.bytes;
        if h.point_type.bits() == 7 && b.len() >= SIGNED_SIZE {
            Some(blake3_hash(&b[0..b.len() - SIGNED_SIZE]))
        } else {
            None
        }
    }

    /// Fails for a key point whose signature does not verify, as
    /// `signature_valid` says; `signature_valid` is not read for other points.
    pub fn check_signature(&self, signature_valid: bool) -> (r: Result<(), Error>)
        ensures
            r is Err <==> (header_of(self@).point_type.spec_bits() == 7 && !signature_valid),
            r is Err ==> r == Err::<(), Error>(Error::InvalidSignature),
    {
        let h = self.point_header();
        if h.point_type.bits() == 7 && !signature_valid {
            Err(Error::InvalidSignature)
        } else {
            Ok(())
        }
    }

    /// The padding bytes of a point whose header checks.
    pub fn padding(&self) -> (r: &'a [u8])
        requires
            spec_check(header_of(self@)) is Ok,
        ensures
            r@ == padding_of(self@),
    {
        proof {
            use_type_invariant(self);
        }
        let h = self.point_header();
        let u = h.upoint_size() as usize;
        let pad = h.padding() as usize;
        proof {
            lemma_type_bits(h.point_type);
        }
        let end = if h.point_type.contains(PointTypeFlags::SIGNATURE()) {
            u - SIGNED_SIZE
        } else {
            u
        };
        &self.bytes[end..end + pad]
    }

    /// Checks the header, the link point offsets, the indexed path and the
    /// padding of the point.
    pub fn internal_consitent_length(&self) -> (r: Result<(), Error>)
        ensures
            r == spec_consistent(self@),
    {
        proof {
            use_type_invariant(self);
        }
        let b = self.bytes;
        let h = self.point_header();
        match h.check() {
            Err(e) => {
                return Err(e);
            },
            Ok(_) => {},
        }
        proof {
            lemma_type_bits(h.point_type);
        }
        if h.point_type.contains(PointTypeFlags::LINK()) {
            let mut point_size = h.upoint_size();
            if h.point_type.contains(PointTypeFlags::SIGNATURE()) {
                point_size = point_size - SIGNED_SIZE as u16;
            }
            let isp_offset = b[4] as u16 * 256 + b[5] as u16;
            let data_offset = b[6] as u16 * 256 + b[7] as u16;
            if data_offset > point_size {
                return Err(Error::DataOffsetIncompatible);
            }
            if isp_offset > data_offset {
                return Err(Error::DataOffsetIncompatible);
            }
            let head = (POINT_HEADER_SIZE + LINKPOINT_HEADER_SIZE) as u16;
            if isp_offset < head {
                return Err(Error::ISPOffsetIncompatible);
            }
            let link_size = isp_offset - head;
            if link_size % LINK_SIZE as u16 != 0 {
                return Err(Error::IndivisableLinkbytes);
            }
            match IPath::from(&b[isp_offset as usize..data_offset as usize]) {
                Err(e) => {
                    return Err(Error::SPath(e));
                },
                Ok(_) => {},
            }
        }
        let padding = self.padding();
        assert(spec_consistent(self@) == padding_check(self@));
        if padding.len() > 7 {
            return Err(Error::PaddingBitsNotU8Max);
        }
        let mut i: usize = 0;
        while i < padding.len()
            invariant
                i <= padding@.len(),
                padding@ == padding_of(self@),
                spec_consistent(self@) == padding_check(self@),
                forall|j: int| 0 <= j < i ==> padding@[j] == 255u8,
            decreases padding@.len() - i,
        {
            if padding[i] != 255u8 {
                return Err(Error::PaddingBitsNotU8Max);
            }
            i = i + 1;
        }
        Ok(())
    }
}

/// For the point types that pass the header check, the link bit marks link
/// and key points and the signature bit key points.
proof fn lemma_type_bits(f: PointTypeFlags)
    ensures
        f.spec_bits() == 1 || f.spec_bits() == 3 || f.spec_bits() == 7 || f.spec_bits() == 128 ==> {
            &&& (f.spec_bits() & 2u8 == 2u8) == (f.spec_bits() == 3 || f.spec_bits() == 7)
            &&& (f.spec_bits() & 4u8 == 4u8) == (f.spec_bits() == 7)
        },
{
    let t = f.spec_bits();
    assert(t == 1 || t == 3 || t == 7 || t == 128 ==> {
        &&& (t & 2u8 == 2u8) == (t == 3 || t == 7)
        &&& (t & 4u8 == 4u8) == (t == 7)
    }) by (bit_vector);
}

/// A point whose lengths are consistent is padded with at most 7 bytes of
/// 0xFF up to a multiple of 8 bytes, the padding lies right before the
/// signature of a key point (at the end otherwise), and a link or key point
/// holds a whole number of links before a valid indexed path that ends
/// where the data starts.
pub proof fn law_consistent_layout(b: Seq<u8>)
    requires
        well_sized(b),
        spec_consistent(b) is Ok,
    ensures
        b.len() % 8 == 0,
        padding_of(b).len() < 8,
        all_ff(padding_of(b)),
        fields_end(b) + padding_of(b).len() + (if header_of(b).point_type.spec_bits() == 7 {
            SIGNED_SIZE as int
        } else {
            0
        }) == b.len(),
        header_of(b).point_type.spec_bits() == 3 || header_of(b).point_type.spec_bits() == 7 ==> {
            let isp = be16(b, 4);
            let dof = be16(b, 6);
            &&& POINT_HEADER_SIZE + LINKPOINT_HEADER_SIZE <= isp <= dof <= fields_end(b)
            &&& (isp - (POINT_HEADER_SIZE + LINKPOINT_HEADER_SIZE)) % (LINK_SIZE as int) == 0
            &&& spec_icheck(b.subrange(isp, dof)) is Ok
        },
{
    let u = header_of(b).uset_bytes as int;
    assert(padded(u) % 8 == 0 && u <= padded(u) < u + 8) by (nonlinear_arith)
        requires
            padded(u) == ((u + 7) / 8) * 8,
            0 <= u,
    ;
}

/// Reading a consistent point into its enum form and writing that back
/// gives the point's bytes.
pub proof fn law_parts_bytes(b: Seq<u8>, p: PointParts)
    requires
        well_sized(b),
        spec_consistent(b) is Ok,
        parts_of(b, p),
    ensures
        parts_bytes(p) == b,
        blake3_digest(parts_bytes(p)) == blake3_digest(b),
{
    law_consistent_layout(b);
    let h = header_of(b);
    law_header_bytes(h, b.take(4));
    assert(header_of(b.take(4)) == h);
    assert(header_bytes(h) == b.take(4));
    let pad = pad_bytes(h.uset_bytes);
    assert(padding_of(b) =~= pad);
    let ps = fields_end(b);
    match p.fields {
        PointFields::LinkPoint(lp) => {
            assert(parts_bytes(p) =~= b);
        },
        PointFields::KeyPoint(lp, s) => {
            assert(parts_bytes(p) =~= b);
        },
        _ => {
            assert(parts_bytes(p) =~= b);
        },
    }
}

/// A point, held as its padded bytes; the sized view of [PointThinPtr].
pub struct PointPtr<'a> {
    thin: PointThinPtr<'a>,
}

impl<'a> View for PointPtr<'a> {
    type V = Seq<u8>;

    closed spec fn view(&self) -> Seq<u8> {
        self.thin@
    }
}

impl<'a> PointPtr<'a> {
    /// The point at the start of `b`, as [PointThinPtr::from_bytes_unchecked].
    pub fn from_bytes_unchecked(b: &'a [u8]) -> (r: PointPtr<'a>)
        requires
            b.len() >= 4,
            b.len() % 8 == 0,
            4 <= header_of(b@).uset_bytes <= 65528,
            padded(header_of(b@).uset_bytes as int) <= b.len(),
        ensures
            r@ == b@.take(padded(header_of(b@).uset_bytes as int)),
    {
        PointPtr { thin: PointThinPtr::from_bytes_unchecked(b) }
    }

    /// The point as a [PointThinPtr].
    pub fn thin_point(&self) -> (r: &PointThinPtr<'a>)
        ensures
            r@ == self@,
    {
        &self.thin
    }

    /// As [PointThinPtr::compute_hash].
    pub fn compute_hash(&self) -> (r: [u8; 32])
        ensures
            r@ == blake3_digest(self@),
    {
        self.thin.compute_hash()
    }

    /// As [PointThinPtr::internal_consitent_length].
    pub fn internal_consitent_length(&self) -> (r: Result<(), Error>)
        ensures
            r == spec_consistent(self@),
    {
        self.thin.internal_consitent_length()
    }
}

} // verus!
