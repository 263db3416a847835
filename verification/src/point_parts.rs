//! The enum form of a point: its header and its fields, which borrow the
//! variable length parts.
use crate::codec::{bytes_eq, extend_bytes};
use crate::consts::PRIVATE;
use crate::error::Error;
use crate::ipath::{ilen, ispath, IPath};
use crate::spath::SPath;
use crate::point::{header_bytes, lph_bytes, padded, LinkPointHeader, PointHeader};
use crate::point_ptr::{blake3_digest, blake3_hash};
use vstd::prelude::*;

verus! {

/// The public key and signature of a key point.
#[derive(Clone, Copy, Debug, PartialEq, Eq)]
pub struct Signed {
    /// The public key.
    pub pubkey: [u8; 32],
    /// The signature.
    pub signature: [u8; 64],
}

/// The bytes of a signature block.
pub open spec fn signed_bytes(s: Signed) -> Seq<u8> {
    s.pubkey@ + s.signature@
}

/// The variable parts of a link or key point.
#[derive(Clone, Copy, Debug, PartialEq, Eq)]
pub struct Tail<'a> {
    /// The links, 48 bytes each.
    pub links: &'a [u8],
    /// The data.
    pub data: &'a [u8],
    /// The indexed path.
    pub ipath: IPath<'a>,
}

/// The bytes of a tail: links, path and data.
pub open spec fn tail_bytes(t: Tail) -> Seq<u8> {
    t.links@ + t.ipath@ + t.data@
}

impl<'a> Tail<'a> {
    /// The links' bytes.
    pub fn links_as_bytes(&self) -> (r: &'a [u8])
        ensures
            r@ == self.links@,
    {
        self.links
    }

    /// The number of bytes of links, path and data.
    pub fn byte_len(&self) -> (r: usize)
        requires
            self.data@.len() + self.ipath@.len() + self.links@.len() <= usize::MAX,
        ensures
            r == tail_bytes(*self).len(),
    {
        self.data.len() + self.ipath.ipath_bytes().len() + self.links.len()
    }
}

/// The header and tail of a link point.
#[derive(Clone, Copy, Debug, PartialEq, Eq)]
pub struct LinkPoint<'a> {
    /// The link point header.
    pub head: LinkPointHeader,
    /// The links, path and data.
    pub tail: Tail<'a>,
}

/// The fields of a point, by kind.
#[derive(Clone, Copy, Debug, PartialEq, Eq)]
pub enum PointFields<'a> {
    /// A data point's data.
    DataPoint(&'a [u8]),
    /// A link point.
    LinkPoint(LinkPoint<'a>),
    /// A key point: a link point and its signature.
    KeyPoint(LinkPoint<'a>, Signed),
    /// An error point's message.
    Error(&'a [u8]),
    /// The content of a point of unknown kind.
    Unknown(&'a [u8]),
}

impl<'a> PointFields<'a> {
    /// The link point header, path and (for key points) public key.
    pub fn common_idx(&self) -> (r: Option<(LinkPointHeader, IPath<'a>, Option<[u8; 32]>)>)
        ensures
            r == match *self {
                PointFields::LinkPoint(sp) => Some((sp.head, sp.tail.ipath, None)),
                PointFields::KeyPoint(sp, signed) => Some(
                    (sp.head, sp.tail.ipath, Some(signed.pubkey)),
                ),
                _ => None,
            },
    {
        match self {
            PointFields::LinkPoint(sp) => Some((sp.head, sp.tail.ipath, None)),
            PointFields::KeyPoint(sp, signed) => Some((sp.head, sp.tail.ipath, Some(signed.pubkey))),
            _ => None,
        }
    }
}

/// The enum form of a point.
#[derive(Clone, Copy, Debug, PartialEq, Eq)]
pub struct PointParts<'a> {
    /// The point header.
    pub pkt_header: PointHeader,
    /// The fields.
    pub fields: PointFields<'a>,
}

/// The padding bytes of a point of size `u`.
pub open spec fn pad_bytes(u: u16) -> Seq<u8> {
    Seq::new((padded(u as int) - u) as nat, |i: int| 255u8)
}

/// The bytes of a point in enum form: header, fields, padding and, for a key
/// point, the signature block.
pub open spec fn parts_bytes(p: PointParts) -> Seq<u8> {
    let pad = pad_bytes(p.pkt_header.uset_bytes);
    header_bytes(p.pkt_header) + match p.fields {
        PointFields::DataPoint(d) => d@ + pad,
        PointFields::Error(d) => d@ + pad,
        PointFields::Unknown(d) => d@ + pad,
        PointFields::LinkPoint(lp) => lph_bytes(lp.head) + tail_bytes(lp.tail) + pad,
        PointFields::KeyPoint(lp, s) => lph_bytes(lp.head) + tail_bytes(lp.tail) + pad
            + signed_bytes(s),
    }
}

/// The data of a point in enum form.
pub open spec fn spec_data(p: PointParts) -> Seq<u8> {
    match p.fields {
        PointFields::DataPoint(b) => b@,
        PointFields::LinkPoint(lp) => lp.tail.data@,
        PointFields::KeyPoint(lp, _) => lp.tail.data@,
        PointFields::Error(b) => b@,
        PointFields::Unknown(b) => b@,
    }
}

/// The tail of a link or key point in enum form.
pub open spec fn spec_tail(p: PointParts) -> Option<Tail> {
    match p.fields {
        PointFields::LinkPoint(lp) => Some(lp.tail),
        PointFields::KeyPoint(lp, _) => Some(lp.tail),
        _ => None,
    }
}

/// The link point header of a link or key point in enum form.
pub open spec fn spec_lph(p: PointParts) -> Option<LinkPointHeader> {
    match p.fields {
        PointFields::LinkPoint(lp) => Some(lp.head),
        PointFields::KeyPoint(lp, _) => Some(lp.head),
        _ => None,
    }
}

/// The signature block of a key point in enum form.
pub open spec fn spec_signed(p: PointParts) -> Option<Signed> {
    match p.fields {
        PointFields::KeyPoint(_, s) => Some(s),
        _ => None,
    }
}

impl<'a> PointParts<'a> {
    /// The data of the point (the message of an error point, the content of
    /// an unknown one).
    pub fn data_ptr(&self) -> (r: &'a [u8])
        ensures
            r == match self.fields {
                PointFields::DataPoint(b) => b,
                PointFields::LinkPoint(lp) => lp.tail.data,
                PointFields::KeyPoint(lp, _) => lp.tail.data,
                PointFields::Error(b) => b,
                PointFields::Unknown(b) => b,
            },
    {
        match self.fields {
            PointFields::DataPoint(b) => b,
            PointFields::LinkPoint(lp) => lp.tail.data,
            PointFields::KeyPoint(lp, _) => lp.tail.data,
            PointFields::Error(b) => b,
            PointFields::Unknown(o) => o,
        }
    }

    /// As [Self::data_ptr].
    pub fn data(&self) -> (r: &'a [u8])
        ensures
            r == match self.fields {
                PointFields::DataPoint(b) => b,
                PointFields::LinkPoint(lp) => lp.tail.data,
                PointFields::KeyPoint(lp, _) => lp.tail.data,
                PointFields::Error(b) => b,
                PointFields::Unknown(b) => b,
            },
    {
        self.data_ptr()
    }

    /// The padding: 0xFF bytes up to a multiple of 8.
    pub fn padding(&self) -> (r: &'static [u8])
        requires
            self.pkt_header.uset_bytes <= 65528,
        ensures
            r@ == pad_bytes(self.pkt_header.uset_bytes),
    {
        let pad: &'static [u8] = &[255u8, 255, 255, 255, 255, 255, 255, 255];
        let n = self.pkt_header.padded_point_size() - self.pkt_header.upoint_size();
        let r = &pad[0..n as usize];
        assert(r@ =~= pad_bytes(self.pkt_header.uset_bytes));
        r
    }

    /// The tail of a link or key point.
    pub fn tail(&self) -> (r: Option<Tail<'a>>)
        ensures
            r == match self.fields {
                PointFields::LinkPoint(lp) => Some(lp.tail),
                PointFields::KeyPoint(lp, _) => Some(lp.tail),
                _ => None,
            },
    {
        match self.fields {
            PointFields::LinkPoint(lp) => Some(lp.tail),
            PointFields::KeyPoint(lp, _) => Some(lp.tail),
            _ => None,
        }
    }

    /// The header of a link or key point.
    pub fn linkpoint_header(&self) -> (r: Option<LinkPointHeader>)
        ensures
            r == match self.fields {
                PointFields::LinkPoint(lp) => Some(lp.head),
                PointFields::KeyPoint(lp, _) => Some(lp.head),
                _ => None,
            },
    {
        match self.fields {
            PointFields::LinkPoint(lp) => Some(lp.head),
            PointFields::KeyPoint(lp, _) => Some(lp.head),
            _ => None,
        }
    }

    /// The signature block of a key point.
    pub fn signed(&self) -> (r: Option<Signed>)
        ensures
            r == match self.fields {
                PointFields::KeyPoint(_, s) => Some(s),
                _ => None,
            },
    {
        match self.fields {
            PointFields::KeyPoint(_, s) => Some(s),
            _ => None,
        }
    }

    /// The bytes of the point: the header, the fields, the padding and, for a
    /// key point, the signature block, in order.
    pub fn pkt_segments(&self) -> (r: Vec<u8>)
        requires
            self.pkt_header.uset_bytes <= 65528,
        ensures
            r@ == parts_bytes(*self),
    {
        let mut v: Vec<u8> = Vec::new();
        let h = self.pkt_header.as_bytes();
        extend_bytes(&mut v, h.as_slice());
        match self.fields {
            PointFields::DataPoint(b) => extend_bytes(&mut v, b),
            PointFields::Error(b) => extend_bytes(&mut v, b),
            PointFields::Unknown(b) => extend_bytes(&mut v, b),
            PointFields::LinkPoint(lp) => {
                let head = lp.head.as_bytes();
                extend_bytes(&mut v, head.as_slice());
                extend_bytes(&mut v, lp.tail.links);
                extend_bytes(&mut v, lp.tail.ipath.ipath_bytes());
                extend_bytes(&mut v, lp.tail.data);
            },
            PointFields::KeyPoint(lp, _) => {
                let head = lp.head.as_bytes();
                extend_bytes(&mut v, head.as_slice());
                extend_bytes(&mut v, lp.tail.links);
                extend_bytes(&mut v, lp.tail.ipath.ipath_bytes());
                extend_bytes(&mut v, lp.tail.data);
            },
        }
        extend_bytes(&mut v, self.padding());
        match self.fields {
            PointFields::KeyPoint(_, s) => {
                extend_bytes(&mut v, s.pubkey.as_slice());
                extend_bytes(&mut v, s.signature.as_slice());
            },
            _ => {},
        }
        proof {
            let pad = pad_bytes(self.pkt_header.uset_bytes);
            match self.fields {
                PointFields::LinkPoint(lp) => {
                    assert(v@ =~= parts_bytes(*self));
                },
                PointFields::KeyPoint(lp, s) => {
                    assert(v@ =~= parts_bytes(*self));
                },
                _ => {
                    assert(v@ =~= parts_bytes(*self));
                },
            }
        }
        v
    }

    /// The hash of the point: the BLAKE3 hash of its bytes.
    pub fn compute_hash(&self) -> (r: [u8; 32])
        requires
            self.pkt_header.uset_bytes <= 65528,
        ensures
            r@ == blake3_digest(parts_bytes(*self)),
    {
        let bytes = self.pkt_segments();
        blake3_hash(bytes.as_slice())
    }
}

/// The group of private points: all zeros.
pub open spec fn private_group() -> Seq<u8> {
    Seq::new(32, |i: int| 0u8)
}

impl<'a> PointParts<'a> {
    /// The point is a data point.
    pub fn is_datapoint(&self) -> (r: bool)
        ensures
            r == self.fields is DataPoint,
    {
        self.as_datapoint().is_some()
    }

    /// The point is a link point.
    pub fn is_linkpoint(&self) -> (r: bool)
        ensures
            r == self.fields is LinkPoint,
    {
        self.as_linkpoint().is_some()
    }

    /// The point is a key point.
    pub fn is_keypoint(&self) -> (r: bool)
        ensures
            r == self.fields is KeyPoint,
    {
        self.as_keypoint().is_some()
    }

    /// The data of a data point.
    pub fn as_datapoint(&self) -> (r: Option<&'a [u8]>)
        ensures
            r == match self.fields {
                PointFields::DataPoint(d) => Some(d),
                _ => None,
            },
    {
        match self.fields {
            PointFields::DataPoint(d) => Some(d),
            _ => None,
        }
    }

    /// The fields of a link point.
    pub fn as_linkpoint(&self) -> (r: Option<LinkPoint<'a>>)
        ensures
            r == match self.fields {
                PointFields::LinkPoint(lp) => Some(lp),
                _ => None,
            },
    {
        match self.fields {
            PointFields::LinkPoint(lp) => Some(lp),
            _ => None,
        }
    }

    /// The fields and signature of a key point.
    pub fn as_keypoint(&self) -> (r: Option<(LinkPoint<'a>, Signed)>)
        ensures
            r == match self.fields {
                PointFields::KeyPoint(lp, s) => Some((lp, s)),
                _ => None,
            },
    {
        match self.fields {
            PointFields::KeyPoint(lp, s) => Some((lp, s)),
            _ => None,
        }
    }

    /// The group of a link or key point.
    pub fn group(&self) -> (r: Option<[u8; 32]>)
        ensures
            r == match spec_lph(*self) {
                Some(h) => Some(h.group),
                None => None,
            },
    {
        match self.linkpoint_header() {
            Some(h) => Some(h.group),
            None => None,
        }
    }

    /// The group; zeros for points without one.
    pub fn get_group(&self) -> (r: [u8; 32])
        ensures
            r@ == match spec_lph(*self) {
                Some(h) => h.group@,
                None => private_group(),
            },
    {
        match self.linkpoint_header() {
            Some(h) => h.group,
            None => {
                assert(PRIVATE@ =~= private_group());
                PRIVATE
            },
        }
    }

    /// The domain of a link or key point.
    pub fn domain(&self) -> (r: Option<[u8; 16]>)
        ensures
            r == match spec_lph(*self) {
                Some(h) => Some(h.domain),
                None => None,
            },
    {
        match self.linkpoint_header() {
            Some(h) => Some(h.domain),
            None => None,
        }
    }

    /// The domain; zeros for points without one.
    pub fn get_domain(&self) -> (r: [u8; 16])
        ensures
            r@ == match spec_lph(*self) {
                Some(h) => h.domain@,
                None => Seq::new(16, |i: int| 0u8),
            },
    {
        match self.linkpoint_header() {
            Some(h) => h.domain,
            None => {
                let z = [0u8; 16];
                assert(z@ =~= Seq::new(16, |i: int| 0u8));
                z
            },
        }
    }

    /// The create stamp of a link or key point.
    pub fn create_stamp(&self) -> (r: Option<[u8; 8]>)
        ensures
            r == match spec_lph(*self) {
                Some(h) => Some(h.create_stamp),
                None => None,
            },
    {
        match self.linkpoint_header() {
            Some(h) => Some(h.create_stamp),
            None => None,
        }
    }

    /// The create stamp; zero for points without one.
    pub fn get_create_stamp(&self) -> (r: [u8; 8])
        ensures
            r@ == match spec_lph(*self) {
                Some(h) => h.create_stamp@,
                None => Seq::new(8, |i: int| 0u8),
            },
    {
        match self.linkpoint_header() {
            Some(h) => h.create_stamp,
            None => {
                let z = [0u8; 8];
                assert(z@ =~= Seq::new(8, |i: int| 0u8));
                z
            },
        }
    }

    /// The signature of a key point.
    pub fn signature(&self) -> (r: Option<[u8; 64]>)
        ensures
            r == match spec_signed(*self) {
                Some(s) => Some(s.signature),
                None => None,
            },
    {
        match self.signed() {
            Some(s) => Some(s.signature),
            None => None,
        }
    }

    /// The signature; zeros for points without one.
    pub fn get_signature(&self) -> (r: [u8; 64])
        ensures
            r@ == match spec_signed(*self) {
                Some(s) => s.signature@,
                None => Seq::new(64, |i: int| 0u8),
            },
    {
        match self.signed() {
            Some(s) => s.signature,
            None => {
                let z = [0u8; 64];
                assert(z@ =~= Seq::new(64, |i: int| 0u8));
                z
            },
        }
    }

    /// The public key of a key point.
    pub fn pubkey(&self) -> (r: Option<[u8; 32]>)
        ensures
            r == match spec_signed(*self) {
                Some(s) => Some(s.pubkey),
                None => None,
            },
    {
        match self.signed() {
            Some(s) => Some(s.pubkey),
            None => None,
        }
    }

    /// The public key; zeros for points without one.
    pub fn get_pubkey(&self) -> (r: [u8; 32])
        ensures
            r@ == match spec_signed(*self) {
                Some(s) => s.pubkey@,
                None => Seq::new(32, |i: int| 0u8),
            },
    {
        match self.signed() {
            Some(s) => s.pubkey,
            None => {
                let z = [0u8; 32];
                assert(z@ =~= Seq::new(32, |i: int| 0u8));
                z
            },
        }
    }

    /// The indexed path of a link or key point.
    pub fn ipath(&self) -> (r: Option<IPath<'a>>)
        ensures
            r == match spec_tail(*self) {
                Some(t) => Some(t.ipath),
                None => None,
            },
    {
        match self.tail() {
            Some(t) => Some(t.ipath),
            None => None,
        }
    }

    /// The indexed path; the empty one for points without one.
    pub fn get_ipath(&self) -> (r: IPath<'a>)
        ensures
            r@ == match spec_tail(*self) {
                Some(t) => t.ipath@,
                None => Seq::empty(),
            },
    {
        match self.tail() {
            Some(t) => t.ipath,
            None => IPath::empty(),
        }
    }

    /// The links' bytes of a link or key point.
    pub fn links(&self) -> (r: Option<&'a [u8]>)
        ensures
            r == match spec_tail(*self) {
                Some(t) => Some(t.links),
                None => None,
            },
    {
        match self.tail() {
            Some(t) => Some(t.links),
            None => None,
        }
    }

    /// The links' bytes; none for points without links.
    pub fn get_links(&self) -> (r: &'a [u8])
        ensures
            r@ == match spec_tail(*self) {
                Some(t) => t.links@,
                None => Seq::empty(),
            },
    {
        match self.tail() {
            Some(t) => t.links,
            None => &[],
        }
    }

    /// The number of path components of a link or key point.
    pub fn path_len(&self) -> (r: Option<u8>)
        ensures
            r == match spec_tail(*self) {
                Some(t) => Some(ilen(t.ipath@) as u8),
                None => None,
            },
    {
        match self.tail() {
            Some(t) => Some(t.ipath.path_len()),
            None => None,
        }
    }

    /// The number of path components; zero for points without a path.
    pub fn get_path_len(&self) -> (r: u8)
        ensures
            r == match spec_tail(*self) {
                Some(t) => ilen(t.ipath@) as u8,
                None => 0,
            },
    {
        match self.tail() {
            Some(t) => t.ipath.path_len(),
            None => 0,
        }
    }

    /// The path (without its index) of a link or key point.
    pub fn path(&self) -> (r: Option<SPath<'a>>)
        requires
            match spec_tail(*self) {
                Some(t) => t.ipath@.len() == 0 || t.ipath@.len() >= 8,
                None => true,
            },
        ensures
            match spec_tail(*self) {
                Some(t) => r is Some && r.unwrap()@ == ispath(t.ipath@),
                None => r is None,
            },
    {
        match self.tail() {
            Some(t) => Some(t.ipath.spath()),
            None => None,
        }
    }

    /// The path (without its index); empty for points without one.
    pub fn get_path(&self) -> (r: SPath<'a>)
        requires
            match spec_tail(*self) {
                Some(t) => t.ipath@.len() == 0 || t.ipath@.len() >= 8,
                None => true,
            },
        ensures
            r@ == match spec_tail(*self) {
                Some(t) => ispath(t.ipath@),
                None => Seq::empty(),
            },
    {
        match self.tail() {
            Some(t) => t.ipath.spath(),
            None => SPath::empty(),
        }
    }

    /// Fails for points in the private group.
    pub fn check_private(&self) -> (r: Result<(), Error>)
        ensures
            r == match spec_lph(*self) {
                Some(h) => if h.group@ == private_group() {
                    Err(Error::PrivateGroup)
                } else {
                    Ok(())
                },
                None => Ok(()),
            },
    {
        match self.linkpoint_header() {
            Some(h) => {
                assert(PRIVATE@ =~= private_group());
                if bytes_eq(h.group.as_slice(), PRIVATE.as_slice()) {
                    Err(Error::PrivateGroup)
                } else {
                    Ok(())
                }
            },
            None => Ok(()),
        }
    }
}

} // verus!
