//! The point type flags and the 4 byte point header:
//! `[reserved, point type, size (big endian u16)]`.
use crate::consts::{LINKPOINT_HEADER_SIZE, MAX_CONTENT_SIZE, MAX_POINT_SIZE, SIGNED_SIZE};
use crate::error::Error;
use vstd::prelude::*;

verus! {

/// The flag bits that are defined.
pub open spec fn known_bits(b: u8) -> bool {
    b & 0x78u8 == 0
}

/// Flags that indicate a point's type. Only the `_POINT` combinations are
/// valid in a packet.
#[derive(Copy, Clone, Debug, PartialEq, Eq, Structural)]
pub struct PointTypeFlags {
    bits: u8,
}

impl PointTypeFlags {
    /// No flag set.
    #[allow(non_snake_case)]
    pub fn EMPTY() -> (r: PointTypeFlags)
        ensures
            r.spec_bits() == 0,
    {
        PointTypeFlags { bits: 0u8 }
    }

    /// The point has data.
    #[allow(non_snake_case)]
    pub fn DATA() -> (r: PointTypeFlags)
        ensures
            r.spec_bits() == 1,
    {
        PointTypeFlags { bits: 1u8 }
    }

    /// The point has a link header, links and a path.
    #[allow(non_snake_case)]
    pub fn LINK() -> (r: PointTypeFlags)
        ensures
            r.spec_bits() == 2,
    {
        PointTypeFlags { bits: 2u8 }
    }

    /// The point is signed.
    #[allow(non_snake_case)]
    pub fn SIGNATURE() -> (r: PointTypeFlags)
        ensures
            r.spec_bits() == 4,
    {
        PointTypeFlags { bits: 4u8 }
    }

    /// The point is an error message.
    #[allow(non_snake_case)]
    pub fn ERROR() -> (r: PointTypeFlags)
        ensures
            r.spec_bits() == 128,
    {
        PointTypeFlags { bits: 128u8 }
    }

    /// A data point.
    #[allow(non_snake_case)]
    pub fn DATA_POINT() -> (r: PointTypeFlags)
        ensures
            r.spec_bits() == 1,
    {
        PointTypeFlags { bits: 1u8 }
    }

    /// A link point: data and a link header.
    #[allow(non_snake_case)]
    pub fn LINK_POINT() -> (r: PointTypeFlags)
        ensures
            r.spec_bits() == 3,
    {
        PointTypeFlags { bits: 3u8 }
    }

    /// A key point: a signed link point.
    #[allow(non_snake_case)]
    pub fn KEY_POINT() -> (r: PointTypeFlags)
        ensures
            r.spec_bits() == 7,
    {
        PointTypeFlags { bits: 7u8 }
    }

    /// An error point.
    #[allow(non_snake_case)]
    pub fn ERROR_POINT() -> (r: PointTypeFlags)
        ensures
            r.spec_bits() == 128,
    {
        PointTypeFlags { bits: 128u8 }
    }

    /// The flag bits.
    pub closed spec fn spec_bits(self) -> u8 {
        self.bits
    }

    /// The flag bits.
    pub fn bits(self) -> (r: u8)
        ensures
            r == self.spec_bits(),
    {
        self.bits
    }

    /// The flags of the given bits, when no undefined bit is set.
    pub fn from_bits(b: u8) -> (r: Option<PointTypeFlags>)
        ensures
            known_bits(b) ==> r is Some && r.unwrap().spec_bits() == b,
            !known_bits(b) ==> r is None,
    {
        if b & 0x78u8 == 0 {
            Some(PointTypeFlags { bits: b })
        } else {
            None
        }
    }

    /// The flags of the given bits, undefined bits included.
    pub fn from_bits_retain(b: u8) -> (r: PointTypeFlags)
        ensures
            r == flags_of(b),
            r.spec_bits() == b,
    {
        PointTypeFlags { bits: b }
    }

    /// The flags of the given bits, which must all be defined.
    pub fn unchecked_from(b: u8) -> (r: PointTypeFlags)
        requires
            known_bits(b),
        ensures
            r.spec_bits() == b,
    {
        PointTypeFlags { bits: b }
    }

    /// All flags of `other` are set.
    pub fn contains(self, other: PointTypeFlags) -> (r: bool)
        ensures
            r == (self.spec_bits() & other.spec_bits() == other.spec_bits()),
    {
        self.bits & other.bits == other.bits
    }

    /// The name of the point type.
    pub fn as_str(self) -> (r: &'static str)
        ensures
            self.spec_bits() == 1 ==> r@ == "DataPoint"@,
            self.spec_bits() == 3 ==> r@ == "LinkPoint"@,
            self.spec_bits() == 7 ==> r@ == "KeyPoint"@,
            self.spec_bits() == 128 ==> r@ == "ErrorPoint"@,
            self.spec_bits() != 1 && self.spec_bits() != 3 && self.spec_bits() != 7
                && self.spec_bits() != 128 ==> r@
                == "UnknownPointType"@,
    {
        if self.bits == 1 {
            "DataPoint"
        } else if self.bits == 3 {
            "LinkPoint"
        } else if self.bits == 7 {
            "KeyPoint"
        } else if self.bits == 128 {
            "ErrorPoint"
        } else {
            "UnknownPointType"
        }
    }
}

/// The flags with the given bits.
pub closed spec fn flags_of(b: u8) -> PointTypeFlags {
    PointTypeFlags { bits: b }
}

/// Flags are their bits.
pub proof fn lemma_flags_of(b: u8, f: PointTypeFlags)
    ensures
        flags_of(b).spec_bits() == b,
        flags_of(f.spec_bits()) == f,
{
}

/// The header that the first 4 bytes hold.
pub open spec fn header_of(b: Seq<u8>) -> PointHeader {
    PointHeader {
        reserved: b[0],
        point_type: flags_of(b[1]),
        uset_bytes: (b[2] as int * 256 + b[3] as int) as u16,
    }
}

/// `u` rounded up to a multiple of 8.
pub open spec fn padded(u: int) -> int {
    ((u + 7) / 8) * 8
}

/// The size of the content: the point size without the header (at least 0).
pub open spec fn content_of(u: u16) -> int {
    if u >= 4 {
        u - 4
    } else {
        0
    }
}

/// The 4 byte header of a point.
#[derive(Copy, Clone, Debug, PartialEq, Eq, Structural)]
pub struct PointHeader {
    /// Always zero in a valid point.
    pub reserved: u8,
    /// The kind of point.
    pub point_type: PointTypeFlags,
    /// The size of the point without its padding: header, fields and signature.
    pub uset_bytes: u16,
}

/// The result of checking a point header.
pub open spec fn spec_check(h: PointHeader) -> Result<PointHeader, Error> {
    let len = content_of(h.uset_bytes);
    let t = h.point_type.spec_bits();
    if h.reserved != 0 {
        Err(Error::HeaderReservedSet(h.reserved))
    } else if len > MAX_CONTENT_SIZE {
        Err(Error::ContentLen)
    } else if t == 1 || t == 128 {
        Ok(h)
    } else if t == 3 {
        if len >= LINKPOINT_HEADER_SIZE {
            Ok(h)
        } else {
            Err(Error::ContentLen)
        }
    } else if t == 7 {
        if len >= LINKPOINT_HEADER_SIZE + SIGNED_SIZE {
            Ok(h)
        } else {
            Err(Error::ContentLen)
        }
    } else {
        Err(Error::UnknownPktType(t))
    }
}

/// The result of making a header for a point of `point_size` bytes.
pub open spec fn spec_new_point_size(kind: PointTypeFlags, point_size: int) -> Result<
    PointHeader,
    Error,
> {
    if point_size > MAX_POINT_SIZE {
        Err(Error::ContentLen)
    } else {
        spec_check(PointHeader { reserved: 0, point_type: kind, uset_bytes: point_size as u16 })
    }
}

/// The header bytes: reserved, type, then the size in big endian.
pub open spec fn header_bytes(h: PointHeader) -> Seq<u8> {
    seq![h.reserved, h.point_type.spec_bits(), (h.uset_bytes / 256) as u8, (h.uset_bytes % 256) as u8]
}

impl PointHeader {
    /// The header of an empty error point.
    pub fn error() -> (r: PointHeader)
        ensures
            r.reserved == 0,
            r.point_type.spec_bits() == 128,
            r.uset_bytes == 4,
            spec_check(r) == Ok::<PointHeader, Error>(r),
    {
        PointHeader { reserved: 0, point_type: PointTypeFlags::ERROR_POINT(), uset_bytes: 4 }
    }

    /// A header for a point with `content_len` bytes of content.
    pub fn new_content_len(kind: PointTypeFlags, content_len: usize) -> (r: Result<Self, Error>)
        ensures
            r == spec_new_point_size(
                kind,
                if content_len + 4 > usize::MAX {
                    usize::MAX as int
                } else {
                    content_len + 4
                },
            ),
    {
        let point_size = content_len.saturating_add(4);
        Self::new_point_size(kind, point_size)
    }

    /// A header for a point of `point_size` bytes (header and content).
    pub fn new_point_size(kind: PointTypeFlags, point_size: usize) -> (r: Result<Self, Error>)
        ensures
            r == spec_new_point_size(kind, point_size as int),
    {
        if point_size > MAX_POINT_SIZE {
            return Err(Error::ContentLen);
        }
        PointHeader { point_type: kind, reserved: 0, uset_bytes: point_size as u16 }.check()
    }

    /// Checks the reserved byte, the size and the type.
    pub fn check(self) -> (r: Result<Self, Error>)
        ensures
            r == spec_check(self),
    {
        if self.reserved != 0 {
            return Err(Error::HeaderReservedSet(self.reserved));
        }
        let len = self.ucontent_size() as usize;
        if len > MAX_CONTENT_SIZE {
            return Err(Error::ContentLen);
        }
        let t = self.point_type.bits();
        let ok = if t == 1 || t == 128 {
            true
        } else if t == 3 {
            len >= LINKPOINT_HEADER_SIZE
        } else if t == 7 {
            len >= LINKPOINT_HEADER_SIZE + SIGNED_SIZE
        } else {
            return Err(Error::UnknownPktType(t));
        };
        if ok {
            Ok(self)
        } else {
            Err(Error::ContentLen)
        }
    }

    /// The header bytes.
    pub fn as_bytes(&self) -> (r: [u8; 4])
        ensures
            r@ == header_bytes(*self),
    {
        let r = [
            self.reserved,
            self.point_type.bits(),
            (self.uset_bytes / 256) as u8,
            (self.uset_bytes % 256) as u8,
        ];
        assert(r@ =~= header_bytes(*self));
        r
    }

    /// The header that the bytes hold.
    pub fn from_bytes(b: [u8; 4]) -> (r: PointHeader)
        ensures
            r == header_of(b@),
            header_bytes(r) == b@,
            r.reserved == b[0],
            r.point_type.spec_bits() == b[1],
            r.uset_bytes == b[2] as int * 256 + b[3] as int,
    {
        let r = PointHeader {
            reserved: b[0],
            point_type: PointTypeFlags::from_bits_retain(b[1]),
            uset_bytes: b[2] as u16 * 256 + b[3] as u16,
        };
        assert(header_bytes(r) =~= b@);
        r
    }

    /// Size of a point (header, content, signature), without hash or padding.
    pub fn upoint_size(&self) -> (r: u16)
        ensures
            r == self.uset_bytes,
    {
        self.uset_bytes
    }

    /// The number of padding bytes after the fields.
    pub fn padding(&self) -> (r: u16)
        requires
            self.uset_bytes <= 65528,
        ensures
            r == padded(self.uset_bytes as int) - self.uset_bytes,
            r < 8,
    {
        self.padded_point_size() - self.upoint_size()
    }

    /// The point size rounded up to a multiple of 8.
    pub fn padded_point_size(&self) -> (r: u16)
        requires
            self.uset_bytes <= 65528,
        ensures
            r == padded(self.uset_bytes as int),
            self.uset_bytes <= r < self.uset_bytes + 8,
            r % 8 == 0,
    {
        let u = self.uset_bytes;
        let q = u / 8 + if u % 8 == 0 {
            0
        } else {
            1
        };
        assert(q == (u + 7) / 8);
        q * 8
    }

    /// The content size: the point size without the header.
    pub fn ucontent_size(&self) -> (r: u16)
        ensures
            r == content_of(self.uset_bytes),
    {
        self.uset_bytes.saturating_sub(4)
    }

    /// The padded point size without the header.
    pub fn padded_content_size(&self) -> (r: u16)
        requires
            self.uset_bytes <= 65528,
        ensures
            r == if padded(self.uset_bytes as int) >= 4 {
                padded(self.uset_bytes as int) - 4
            } else {
                0
            },
    {
        self.padded_point_size().saturating_sub(4)
    }

    /// The size of a net packet holding this point: the padded point, its
    /// hash and the net header.
    pub fn size(&self) -> (r: u16)
        requires
            self.uset_bytes <= 65464,
        ensures
            r == padded(self.uset_bytes as int) + 64,
    {
        self.padded_point_size() + 32 + 32
    }
}

/// The offsets of the path and the data in a link point, from the start of
/// the point.
#[derive(Copy, Clone, Debug, PartialEq, Eq, Structural)]
pub struct LinkPointInfo {
    /// Where the indexed path starts.
    pub offset_ipath: u16,
    /// Where the data starts.
    pub offset_data: u16,
}

/// The big endian bytes of a u16.
pub open spec fn be16_bytes(v: u16) -> Seq<u8> {
    seq![(v / 256) as u8, (v % 256) as u8]
}

/// The 60 byte header of a link or key point, after the point header.
#[derive(Copy, Clone, Debug, PartialEq, Eq)]
pub struct LinkPointHeader {
    /// The path and data offsets.
    pub info: LinkPointInfo,
    /// The create stamp, big endian.
    pub create_stamp: [u8; 8],
    /// The group.
    pub group: [u8; 32],
    /// The domain.
    pub domain: [u8; 16],
}

/// The bytes of a link point header.
pub open spec fn lph_bytes(h: LinkPointHeader) -> Seq<u8> {
    be16_bytes(h.info.offset_ipath) + be16_bytes(h.info.offset_data) + h.create_stamp@ + h.group@
        + h.domain@
}

impl LinkPointHeader {
    /// The header that 60 bytes hold.
    pub fn from_bytes(b: &[u8]) -> (r: LinkPointHeader)
        requires
            b.len() == 60,
        ensures
            lph_bytes(r) == b@,
    {
        let info = LinkPointInfo {
            offset_ipath: b[0] as u16 * 256 + b[1] as u16,
            offset_data: b[2] as u16 * 256 + b[3] as u16,
        };
        let mut create_stamp = [0u8; 8];
        let mut group = [0u8; 32];
        let mut domain = [0u8; 16];
        let mut i: usize = 0;
        while i < 32
            invariant
                i <= 32,
                b@.len() == 60,
                forall|j: int| 0 <= j < i && j < 8 ==> create_stamp@[j] == b@[4 + j],
                forall|j: int| 0 <= j < i ==> group@[j] == b@[12 + j],
                forall|j: int| 0 <= j < i && j < 16 ==> domain@[j] == b@[44 + j],
            decreases 32 - i,
        {
            if i < 8 {
                create_stamp[i] = b[4 + i];
            }
            group[i] = b[12 + i];
            if i < 16 {
                domain[i] = b[44 + i];
            }
            i = i + 1;
        }
        let r = LinkPointHeader { info, create_stamp, group, domain };
        proof {
            let v0 = info.offset_ipath;
            let v1 = info.offset_data;
            assert((v0 / 256) as u8 == b@[0] && (v0 % 256) as u8 == b@[1]);
            assert((v1 / 256) as u8 == b@[2] && (v1 % 256) as u8 == b@[3]);
            assert(lph_bytes(r) =~= b@);
        }
        r
    }

    /// The header's bytes.
    pub fn as_bytes(&self) -> (r: [u8; 60])
        ensures
            r@ == lph_bytes(*self),
    {
        let mut r = [0u8; 60];
        r[0] = (self.info.offset_ipath / 256) as u8;
        r[1] = (self.info.offset_ipath % 256) as u8;
        r[2] = (self.info.offset_data / 256) as u8;
        r[3] = (self.info.offset_data % 256) as u8;
        let mut i: usize = 0;
        while i < 32
            invariant
                i <= 32,
                r@.len() == 60,
                r@[0] == (self.info.offset_ipath / 256) as u8,
                r@[1] == (self.info.offset_ipath % 256) as u8,
                r@[2] == (self.info.offset_data / 256) as u8,
                r@[3] == (self.info.offset_data % 256) as u8,
                forall|j: int| 0 <= j < i && j < 8 ==> r@[4 + j] == self.create_stamp@[j],
                forall|j: int| 0 <= j < i ==> r@[12 + j] == self.group@[j],
                forall|j: int| 0 <= j < i && j < 16 ==> r@[44 + j] == self.domain@[j],
            decreases 32 - i,
        {
            if i < 8 {
                r[4 + i] = self.create_stamp[i];
            }
            r[12 + i] = self.group[i];
            if i < 16 {
                r[44 + i] = self.domain[i];
            }
            i = i + 1;
        }
        assert(r@ =~= lph_bytes(*self));
        r
    }
}

/// Writing a header's bytes and reading them back gives the header; reading
/// 4 bytes and writing the header gives the bytes.
pub proof fn law_header_bytes(h: PointHeader, b: Seq<u8>)
    requires
        b.len() == 4,
    ensures
        header_of(header_bytes(h)) == h,
        header_bytes(header_of(b)) == b,
{
    lemma_flags_of(h.point_type.spec_bits(), h.point_type);
    lemma_flags_of(b[1], h.point_type);
    let u = h.uset_bytes;
    assert((u / 256) as u8 as int * 256 + (u % 256) as u8 as int == u);
    let v = b[2] as int * 256 + b[3] as int;
    assert((v as u16 / 256) as u8 == b[2]);
    assert((v as u16 % 256) as u8 == b[3]);
    assert(header_bytes(header_of(b)) =~= b);
}

/// A header made for a size passes the check: making one succeeds exactly
/// when the size fits and the header checks.
pub proof fn law_new_point_size_checks(kind: PointTypeFlags, point_size: int)
    requires
        0 <= point_size,
        spec_new_point_size(kind, point_size) is Ok,
    ensures
        spec_check(spec_new_point_size(kind, point_size).unwrap()) == spec_new_point_size(kind, point_size),
        spec_new_point_size(kind, point_size).unwrap().uset_bytes == point_size,
{
}

} // verus!
