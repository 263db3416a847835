//! Sizes that building a point must respect.
use crate::consts::{
    LINK_SIZE, MAX_CONTENT_SIZE, MAX_DATA_SIZE, MAX_KEYPOINT_DATA_SIZE, MAX_LINKPOINT_DATA_SIZE,
    MAX_POINT_SIZE, SIGNED_SIZE,
};
use crate::error::Error;
use crate::ipath::{law_indexed_spath, spec_icheck, spec_ipath, IPath};
use crate::link::Link;
use crate::header::NetPktHeader;
use crate::netpkt_parts::NetPktParts;
use crate::point::{flags_of, LinkPointHeader, LinkPointInfo, PointHeader, PointTypeFlags};
use crate::codec::extend_bytes;
use crate::point_parts::{parts_bytes, signed_bytes, tail_bytes, LinkPoint, PointFields, PointParts, Signed, Tail};
use crate::point::{header_bytes, header_of, law_header_bytes, lemma_flags_of, lph_bytes, padded};
use crate::point_parts::pad_bytes;
use crate::point_ptr::{
    all_ff, be16, blake3_digest, blake3_hash, padding_of, parts_of, sign_message, spec_consistent,
    well_sized,
};
use crate::spath::{comps, valid_spath, SPath};
use vstd::prelude::*;

verus! {

/// `v`, but at least the smallest `isize`.
pub open spec fn floor_isize(v: int) -> int {
    if v < isize::MIN {
        isize::MIN as int
    } else {
        v
    }
}

/// The bytes a path takes in a link point: its bytes and its 8 byte index,
/// or nothing for the empty path.
pub open spec fn path_cost(path_len: int) -> int {
    if path_len == 0 {
        0
    } else {
        path_len + 8
    }
}

/// `x - y`, saturating at the smallest `isize`.
fn saturating_sub_unsigned(x: isize, y: usize) -> (r: isize)
    ensures
        r == floor_isize(x - y),
{
    let d: i128 = x as i128 - y as i128;
    if d < isize::MIN as i128 {
        isize::MIN
    } else {
        d as isize
    }
}

/// The space left for data in a point with the given path, links and data.
/// A negative value means that it will not fit.
pub fn calc_free_space(path: SPath<'_>, links: &[Link], data: &[u8], signed: bool) -> (r: isize)
    requires
        links.len() * LINK_SIZE <= usize::MAX,
        path@.len() + 8 <= usize::MAX,
    ensures
        r == floor_isize(
            (if signed {
                MAX_KEYPOINT_DATA_SIZE
            } else {
                MAX_LINKPOINT_DATA_SIZE
            }) - links.len() * LINK_SIZE - path_cost(path@.len() as int) - data.len(),
        ),
{
    let mut size: isize = if signed {
        MAX_KEYPOINT_DATA_SIZE
    } else {
        MAX_LINKPOINT_DATA_SIZE
    } as isize;
    size = saturating_sub_unsigned(size, links.len() * LINK_SIZE);
    let p = path.spath_bytes();
    if p.len() != 0 {
        size = saturating_sub_unsigned(size, p.len() + 8);
    }
    size = saturating_sub_unsigned(size, data.len());
    size
}

/// The data point holding `data`.
pub open spec fn data_parts<'a>(data: &'a [u8]) -> PointParts<'a> {
    PointParts {
        pkt_header: PointHeader {
            reserved: 0,
            point_type: flags_of(1),
            uset_bytes: (data@.len() + 4) as u16,
        },
        fields: PointFields::DataPoint(data),
    }
}

/// The error point holding `error`.
pub open spec fn error_parts<'a>(error: &'a [u8]) -> PointParts<'a> {
    PointParts {
        pkt_header: PointHeader {
            reserved: 0,
            point_type: flags_of(128),
            uset_bytes: (error@.len() + 4) as u16,
        },
        fields: PointFields::Error(error),
    }
}

/// The size of a link point with links, a path and data of the given sizes.
pub open spec fn link_point_size(links: int, ipath: int, data: int) -> int {
    64 + links + ipath + data
}

/// The link point fields of the given values.
pub open spec fn link_fields<'a>(
    group: [u8; 32],
    domain: [u8; 16],
    ipath: IPath<'a>,
    links: &'a [u8],
    data: &'a [u8],
    stamp: [u8; 8],
) -> LinkPoint<'a> {
    LinkPoint {
        head: LinkPointHeader {
            info: LinkPointInfo {
                offset_ipath: (64 + links@.len()) as u16,
                offset_data: (64 + links@.len() + ipath@.len()) as u16,
            },
            create_stamp: stamp,
            group,
            domain,
        },
        tail: Tail { links, data, ipath },
    }
}

/// The link point holding the given fields.
pub open spec fn link_parts<'a>(
    group: [u8; 32],
    domain: [u8; 16],
    ipath: IPath<'a>,
    links: &'a [u8],
    data: &'a [u8],
    stamp: [u8; 8],
) -> PointParts<'a> {
    PointParts {
        pkt_header: PointHeader {
            reserved: 0,
            point_type: flags_of(3),
            uset_bytes: link_point_size(links@.len() as int, ipath@.len() as int, data@.len() as int) as u16,
        },
        fields: PointFields::LinkPoint(link_fields(group, domain, ipath, links, data, stamp)),
    }
}

/// The size of a key point: a link point and a signature block.
pub open spec fn key_point_size(links: int, ipath: int, data: int) -> int {
    link_point_size(links, ipath, data) + SIGNED_SIZE
}

/// The header of the key point of links, a path and data of the given sizes.
pub open spec fn key_header(links: int, ipath: int, data: int) -> PointHeader {
    PointHeader {
        reserved: 0,
        point_type: flags_of(7),
        uset_bytes: key_point_size(links, ipath, data) as u16,
    }
}

/// The key point holding the given fields and signature block.
pub open spec fn key_parts<'a>(
    group: [u8; 32],
    domain: [u8; 16],
    ipath: IPath<'a>,
    links: &'a [u8],
    data: &'a [u8],
    stamp: [u8; 8],
    signed: Signed,
) -> PointParts<'a> {
    PointParts {
        pkt_header: key_header(links@.len() as int, ipath@.len() as int, data@.len() as int),
        fields: PointFields::KeyPoint(link_fields(group, domain, ipath, links, data, stamp), signed),
    }
}

/// The bytes that the signature of the key point of the given fields signs:
/// its bytes up to the signature block.
pub open spec fn key_message<'a>(
    group: [u8; 32],
    domain: [u8; 16],
    ipath: IPath<'a>,
    links: &'a [u8],
    data: &'a [u8],
    stamp: [u8; 8],
) -> Seq<u8> {
    let h = key_header(links@.len() as int, ipath@.len() as int, data@.len() as int);
    let lp = link_fields(group, domain, ipath, links, data, stamp);
    header_bytes(h) + lph_bytes(lp.head) + tail_bytes(lp.tail) + pad_bytes(h.uset_bytes)
}

/// A data point packet; fails when the data does not fit.
pub fn try_datapoint_ref<'a>(data: &'a [u8], net_header: NetPktHeader) -> (r: Result<
    NetPktParts<'a>,
    Error,
>)
    ensures
        data@.len() > MAX_DATA_SIZE <==> r is Err,
        r is Err ==> r == Err::<NetPktParts<'a>, Error>(Error::ContentLen),
        r is Ok ==> {
            let p = r.unwrap();
            &&& p.spec_parts() == data_parts(data)
            &&& p.spec_net_header() == net_header
            &&& p.spec_hash() == blake3_digest(parts_bytes(data_parts(data)))
        },
{
    let pkt_header = match PointHeader::new_content_len(PointTypeFlags::DATA_POINT(), data.len()) {
        Ok(h) => h,
        Err(e) => {
            return Err(e);
        },
    };
    proof {
        crate::point::lemma_flags_of(1, pkt_header.point_type);
    }
    let pkt_parts = PointParts { pkt_header, fields: PointFields::DataPoint(data) };
    let hash = pkt_parts.compute_hash();
    Ok(NetPktParts::from_unchecked(net_header, hash, pkt_parts))
}

/// A data point packet, for data that fits.
pub fn datapoint<'a>(data: &'a [u8], net_header: NetPktHeader) -> (r: NetPktParts<'a>)
    requires
        data@.len() <= MAX_DATA_SIZE,
    ensures
        r.spec_parts() == data_parts(data),
        r.spec_net_header() == net_header,
        r.spec_hash() == blake3_digest(parts_bytes(data_parts(data))),
{
    try_datapoint_ref(data, net_header).unwrap()
}

/// An error point packet, for a message that fits.
pub fn errorpoint<'a>(error: &'a [u8], net_header: NetPktHeader) -> (r: NetPktParts<'a>)
    requires
        error@.len() <= MAX_CONTENT_SIZE,
    ensures
        r.spec_parts() == error_parts(error),
        r.spec_net_header() == net_header,
        r.spec_hash() == blake3_digest(parts_bytes(error_parts(error))),
{
    let pkt_header = match PointHeader::new_content_len(PointTypeFlags::ERROR_POINT(), error.len()) {
        Ok(h) => h,
        Err(_) => {
            assert(false);
            PointHeader::error()
        },
    };
    proof {
        crate::point::lemma_flags_of(128, pkt_header.point_type);
    }
    let pkt_parts = PointParts { pkt_header, fields: PointFields::Error(error) };
    let hash = pkt_parts.compute_hash();
    NetPktParts::from_unchecked(net_header, hash, pkt_parts)
}

/// The header and fields of a link point; fails when they do not fit.
fn linkp<'t>(
    group: [u8; 32],
    domain: [u8; 16],
    ipath: IPath<'t>,
    links: &'t [u8],
    data: &'t [u8],
    stamp: [u8; 8],
) -> (r: Result<(PointHeader, LinkPoint<'t>), Error>)
    requires
        spec_icheck(ipath@) is Ok,
        links@.len() % (LINK_SIZE as nat) == 0,
        links@.len() + ipath@.len() + data@.len() + 64 <= usize::MAX,
    ensures
        link_point_size(links@.len() as int, ipath@.len() as int, data@.len() as int)
            > MAX_POINT_SIZE <==> r is Err,
        r is Err ==> r == Err::<(PointHeader, LinkPoint<'t>), Error>(Error::ContentLen),
        r is Ok ==> {
            let p = link_parts(group, domain, ipath, links, data, stamp);
            &&& r.unwrap().0 == p.pkt_header
            &&& p.fields == PointFields::LinkPoint(r.unwrap().1)
        },
{
    let ipath_size = ipath.ipath_bytes().len();
    let offset_ipathu = 64usize.saturating_add(links.len());
    if offset_ipathu > 65535 {
        return Err(Error::ContentLen);
    }
    let offset_ipath = offset_ipathu as u16;
    if offset_ipathu + ipath_size > 65535 {
        return Err(Error::ContentLen);
    }
    let offset_data = (offset_ipathu + ipath_size) as u16;
    let tail = Tail { links, data, ipath };
    let pkt_header = match PointHeader::new_content_len(PointTypeFlags::LINK_POINT(), 60 + tail.byte_len()) {
        Ok(h) => h,
        Err(e) => {
            return Err(e);
        },
    };
    proof {
        crate::point::lemma_flags_of(3, pkt_header.point_type);
    }
    let sp = LinkPoint {
        head: LinkPointHeader {
            info: LinkPointInfo { offset_ipath, offset_data },
            group,
            domain,
            create_stamp: stamp,
        },
        tail,
    };
    Ok((pkt_header, sp))
}

/// A link point packet; fails when the fields do not fit.
pub fn try_linkpoint_ref<'t>(
    group: [u8; 32],
    domain: [u8; 16],
    ipath: IPath<'t>,
    links: &'t [u8],
    data: &'t [u8],
    stamp: [u8; 8],
    net_header: NetPktHeader,
) -> (r: Result<NetPktParts<'t>, Error>)
    requires
        spec_icheck(ipath@) is Ok,
        links@.len() % (LINK_SIZE as nat) == 0,
        links@.len() + ipath@.len() + data@.len() + 64 <= usize::MAX,
    ensures
        link_point_size(links@.len() as int, ipath@.len() as int, data@.len() as int)
            > MAX_POINT_SIZE <==> r is Err,
        r is Err ==> r == Err::<NetPktParts<'t>, Error>(Error::ContentLen),
        r is Ok ==> {
            let p = link_parts(group, domain, ipath, links, data, stamp);
            &&& r.unwrap().spec_parts() == p
            &&& r.unwrap().spec_net_header() == net_header
            &&& r.unwrap().spec_hash() == blake3_digest(parts_bytes(p))
        },
{
    let (pkt_header, linkpoint) = match linkp(group, domain, ipath, links, data, stamp) {
        Ok(v) => v,
        Err(e) => {
            return Err(e);
        },
    };
    let pkt_parts = PointParts { pkt_header, fields: PointFields::LinkPoint(linkpoint) };
    let hash = pkt_parts.compute_hash();
    Ok(NetPktParts::from_unchecked(net_header, hash, pkt_parts))
}

/// A link point packet, for fields that fit.
pub fn linkpoint<'t>(
    group: [u8; 32],
    domain: [u8; 16],
    ipath: IPath<'t>,
    links: &'t [u8],
    data: &'t [u8],
    stamp: [u8; 8],
    net_header: NetPktHeader,
) -> (r: NetPktParts<'t>)
    requires
        spec_icheck(ipath@) is Ok,
        links@.len() % (LINK_SIZE as nat) == 0,
        link_point_size(links@.len() as int, ipath@.len() as int, data@.len() as int)
            <= MAX_POINT_SIZE,
    ensures
        r.spec_parts() == link_parts(group, domain, ipath, links, data, stamp),
        r.spec_net_header() == net_header,
        r.spec_hash() == blake3_digest(
            parts_bytes(link_parts(group, domain, ipath, links, data, stamp)),
        ),
{
    try_linkpoint_ref(group, domain, ipath, links, data, stamp, net_header).unwrap()
}

/// The header and fields of a key point with the given signature block;
/// fails when they do not fit.
fn keyp<'t>(
    group: [u8; 32],
    domain: [u8; 16],
    ipath: IPath<'t>,
    links: &'t [u8],
    data: &'t [u8],
    stamp: [u8; 8],
    signed: Signed,
) -> (r: Result<PointParts<'t>, Error>)
    requires
        spec_icheck(ipath@) is Ok,
        links@.len() % (LINK_SIZE as nat) == 0,
        links@.len() + ipath@.len() + data@.len() + 64 <= usize::MAX,
    ensures
        key_point_size(links@.len() as int, ipath@.len() as int, data@.len() as int)
            > MAX_POINT_SIZE <==> r is Err,
        r is Err ==> r == Err::<PointParts<'t>, Error>(Error::ContentLen),
        r is Ok ==> r.unwrap() == key_parts(group, domain, ipath, links, data, stamp, signed),
{
    let (lh, lp) = match linkp(group, domain, ipath, links, data, stamp) {
        Ok(v) => v,
        Err(e) => {
            return Err(e);
        },
    };
    let n = lp.tail.byte_len();
    if n > MAX_POINT_SIZE {
        return Err(Error::ContentLen);
    }
    let pkt_header = match PointHeader::new_content_len(
        PointTypeFlags::KEY_POINT(),
        60 + n + SIGNED_SIZE,
    ) {
        Ok(h) => h,
        Err(e) => {
            return Err(e);
        },
    };
    proof {
        lemma_flags_of(7, pkt_header.point_type);
    }
    Ok(PointParts { pkt_header, fields: PointFields::KeyPoint(lp, signed) })
}

/// The bytes of a key point are the bytes that its signature signs, then
/// its signature block.
proof fn lemma_key_bytes(
    group: [u8; 32],
    domain: [u8; 16],
    ipath: IPath,
    links: &[u8],
    data: &[u8],
    stamp: [u8; 8],
    signed: Signed,
)
    ensures
        parts_bytes(key_parts(group, domain, ipath, links, data, stamp, signed)) == key_message(
            group,
            domain,
            ipath,
            links,
            data,
            stamp,
        ) + signed_bytes(signed),
        signed_bytes(signed).len() == SIGNED_SIZE,
{
    assert(parts_bytes(key_parts(group, domain, ipath, links, data, stamp, signed)) =~= key_message(
        group,
        domain,
        ipath,
        links,
        data,
        stamp,
    ) + signed_bytes(signed));
}

/// The hash that the signature of the key point of the given fields signs;
/// fails when the fields do not fit in a key point.
pub fn keypoint_signing_hash<'t>(
    group: [u8; 32],
    domain: [u8; 16],
    ipath: IPath<'t>,
    links: &'t [u8],
    data: &'t [u8],
    stamp: [u8; 8],
) -> (r: Result<[u8; 32], Error>)
    requires
        spec_icheck(ipath@) is Ok,
        links@.len() % (LINK_SIZE as nat) == 0,
        links@.len() + ipath@.len() + data@.len() + 64 <= usize::MAX,
    ensures
        key_point_size(links@.len() as int, ipath@.len() as int, data@.len() as int)
            > MAX_POINT_SIZE <==> r is Err,
        r is Err ==> r == Err::<[u8; 32], Error>(Error::ContentLen),
        r is Ok ==> r.unwrap()@ == blake3_digest(
            key_message(group, domain, ipath, links, data, stamp),
        ),
{
    let unsigned = Signed { pubkey: [0u8; 32], signature: [0u8; 64] };
    let p = match keyp(group, domain, ipath, links, data, stamp, unsigned) {
        Ok(p) => p,
        Err(e) => {
            return Err(e);
        },
    };
    let bytes = p.pkt_segments();
    proof {
        lemma_key_bytes(group, domain, ipath, links, data, stamp, unsigned);
    }
    let n = bytes.len() - SIGNED_SIZE;
    let msg = &bytes.as_slice()[0..n];
    proof {
        assert(msg@ =~= key_message(group, domain, ipath, links, data, stamp));
    }
    Ok(blake3_hash(msg))
}

/// A key point packet of the given fields, public key and signature; fails
/// when the fields do not fit. The signature is expected to sign the hash
/// that [keypoint_signing_hash] gives for the same fields.
pub fn try_keypoint_ref<'t>(
    group: [u8; 32],
    domain: [u8; 16],
    ipath: IPath<'t>,
    links: &'t [u8],
    data: &'t [u8],
    stamp: [u8; 8],
    pubkey: [u8; 32],
    signature: [u8; 64],
    net_header: NetPktHeader,
) -> (r: Result<NetPktParts<'t>, Error>)
    requires
        spec_icheck(ipath@) is Ok,
        links@.len() % (LINK_SIZE as nat) == 0,
        links@.len() + ipath@.len() + data@.len() + 64 <= usize::MAX,
    ensures
        key_point_size(links@.len() as int, ipath@.len() as int, data@.len() as int)
            > MAX_POINT_SIZE <==> r is Err,
        r is Err ==> r == Err::<NetPktParts<'t>, Error>(Error::ContentLen),
        r is Ok ==> {
            let p = key_parts(
                group,
                domain,
                ipath,
                links,
                data,
                stamp,
                Signed { pubkey, signature },
            );
            &&& r.unwrap().spec_parts() == p
            &&& r.unwrap().spec_net_header() == net_header
            &&& r.unwrap().spec_hash() == blake3_digest(parts_bytes(p))
        },
{
    let signed = Signed { pubkey, signature };
    let pkt_parts = match keyp(group, domain, ipath, links, data, stamp, signed) {
        Ok(p) => p,
        Err(e) => {
            return Err(e);
        },
    };
    let hash = pkt_parts.compute_hash();
    Ok(NetPktParts::from_unchecked(net_header, hash, pkt_parts))
}

/// A key point packet, for fields that fit.
pub fn keypoint<'t>(
    group: [u8; 32],
    domain: [u8; 16],
    ipath: IPath<'t>,
    links: &'t [u8],
    data: &'t [u8],
    stamp: [u8; 8],
    pubkey: [u8; 32],
    signature: [u8; 64],
    net_header: NetPktHeader,
) -> (r: NetPktParts<'t>)
    requires
        spec_icheck(ipath@) is Ok,
        links@.len() % (LINK_SIZE as nat) == 0,
        key_point_size(links@.len() as int, ipath@.len() as int, data@.len() as int)
            <= MAX_POINT_SIZE,
    ensures
        r.spec_parts() == key_parts(
            group,
            domain,
            ipath,
            links,
            data,
            stamp,
            Signed { pubkey, signature },
        ),
        r.spec_net_header() == net_header,
        r.spec_hash() == blake3_digest(
            parts_bytes(
                key_parts(group, domain, ipath, links, data, stamp, Signed { pubkey, signature }),
            ),
        ),
{
    try_keypoint_ref(group, domain, ipath, links, data, stamp, pubkey, signature, net_header).unwrap()
}

/// The link point of the given fields, or the key point when a signature
/// block is given.
pub open spec fn any_parts<'a>(
    group: [u8; 32],
    domain: [u8; 16],
    ipath: IPath<'a>,
    links: &'a [u8],
    data: &'a [u8],
    stamp: [u8; 8],
    signed: Option<Signed>,
) -> PointParts<'a> {
    match signed {
        Some(s) => key_parts(group, domain, ipath, links, data, stamp, s),
        None => link_parts(group, domain, ipath, links, data, stamp),
    }
}

/// The size of the point of the given fields, signed or not.
pub open spec fn any_point_size(links: int, ipath: int, data: int, signed: bool) -> int {
    if signed {
        key_point_size(links, ipath, data)
    } else {
        link_point_size(links, ipath, data)
    }
}

/// A key point packet when a signature block is given, a link point packet
/// otherwise; fails when the fields do not fit.
pub fn try_point<'t>(
    group: [u8; 32],
    domain: [u8; 16],
    ipath: IPath<'t>,
    links: &'t [u8],
    data: &'t [u8],
    stamp: [u8; 8],
    signed: Option<Signed>,
    net_header: NetPktHeader,
) -> (r: Result<NetPktParts<'t>, Error>)
    requires
        spec_icheck(ipath@) is Ok,
        links@.len() % (LINK_SIZE as nat) == 0,
        links@.len() + ipath@.len() + data@.len() + 64 <= usize::MAX,
    ensures
        any_point_size(links@.len() as int, ipath@.len() as int, data@.len() as int, signed is Some)
            > MAX_POINT_SIZE <==> r is Err,
        r is Err ==> r == Err::<NetPktParts<'t>, Error>(Error::ContentLen),
        r is Ok ==> {
            let p = any_parts(group, domain, ipath, links, data, stamp, signed);
            &&& r.unwrap().spec_parts() == p
            &&& r.unwrap().spec_net_header() == net_header
            &&& r.unwrap().spec_hash() == blake3_digest(parts_bytes(p))
        },
{
    match signed {
        Some(s) => try_keypoint_ref(group, domain, ipath, links, data, stamp, s.pubkey, s.signature, net_header),
        None => try_linkpoint_ref(group, domain, ipath, links, data, stamp, net_header),
    }
}

/// A key point packet when a signature block is given, a link point packet
/// otherwise, for fields that fit.
pub fn point<'t>(
    group: [u8; 32],
    domain: [u8; 16],
    ipath: IPath<'t>,
    links: &'t [u8],
    data: &'t [u8],
    stamp: [u8; 8],
    signed: Option<Signed>,
    net_header: NetPktHeader,
) -> (r: NetPktParts<'t>)
    requires
        spec_icheck(ipath@) is Ok,
        links@.len() % (LINK_SIZE as nat) == 0,
        any_point_size(links@.len() as int, ipath@.len() as int, data@.len() as int, signed is Some)
            <= MAX_POINT_SIZE,
    ensures
        r.spec_parts() == any_parts(group, domain, ipath, links, data, stamp, signed),
        r.spec_net_header() == net_header,
        r.spec_hash() == blake3_digest(
            parts_bytes(any_parts(group, domain, ipath, links, data, stamp, signed)),
        ),
{
    try_point(group, domain, ipath, links, data, stamp, signed, net_header).unwrap()
}

/// The bytes of the links, one after the other.
pub fn links_as_bytes(links: &[Link]) -> (r: Vec<u8>)
    ensures
        r@.len() == links@.len() * LINK_SIZE,
        forall|i: int|
            0 <= i < links@.len() ==> r@.subrange(i * 48, i * 48 + 48) == links@[i].tag@
                + links@[i].ptr@,
{
    let mut v: Vec<u8> = Vec::new();
    let mut k: usize = 0;
    while k < links.len()
        invariant
            k <= links@.len(),
            v@.len() == k * 48,
            forall|i: int|
                0 <= i < k ==> v@.subrange(i * 48, i * 48 + 48) == links@[i].tag@ + links@[i].ptr@,
        decreases links@.len() - k,
    {
        let ghost before = v@;
        let l = links[k];
        extend_bytes(&mut v, l.tag.as_slice());
        extend_bytes(&mut v, l.ptr.as_slice());
        proof {
            assert forall|i: int| 0 <= i < k + 1 implies v@.subrange(i * 48, i * 48 + 48)
                == links@[i].tag@ + links@[i].ptr@ by {
                if i < k {
                    assert(v@.subrange(i * 48, i * 48 + 48) =~= before.subrange(i * 48, i * 48 + 48));
                } else {
                    assert(v@.subrange(i * 48, i * 48 + 48) =~= l.tag@ + l.ptr@);
                }
            }
        }
        k = k + 1;
    }
    v
}

/// The header bytes of a built point read back as its header.
proof fn lemma_built_header(h: PointHeader, b: Seq<u8>)
    requires
        b.len() >= 4,
        b.take(4) == header_bytes(h),
    ensures
        header_of(b) == h,
{
    law_header_bytes(h, b.take(4));
    assert(header_of(b) == header_of(b.take(4)));
}

/// What the data point builder writes, the reader accepts and reads back: the
/// bytes are a consistent point whose enum form is the one built.
pub proof fn law_data_point_reads_back(data: &[u8])
    requires
        data@.len() <= MAX_DATA_SIZE,
    ensures
        well_sized(parts_bytes(data_parts(data))),
        spec_consistent(parts_bytes(data_parts(data))) == Ok::<(), Error>(()),
        parts_of(parts_bytes(data_parts(data)), data_parts(data)),
{
    let p = data_parts(data);
    let h = p.pkt_header;
    let b = parts_bytes(p);
    let u = h.uset_bytes as int;
    lemma_flags_of(1, h.point_type);
    assert(b.take(4) =~= header_bytes(h));
    lemma_built_header(h, b);
    assert(padded(u) % 8 == 0 && u <= padded(u) < u + 8) by (nonlinear_arith)
        requires
            padded(u) == ((u + 7) / 8) * 8,
            0 <= u,
    ;
    assert(padding_of(b) =~= pad_bytes(h.uset_bytes));
    assert(all_ff(padding_of(b)));
    assert(b.subrange(4, u) =~= data@);
}

/// What the error point builder writes, the reader accepts and reads back.
pub proof fn law_error_point_reads_back(error: &[u8])
    requires
        error@.len() <= MAX_CONTENT_SIZE,
    ensures
        well_sized(parts_bytes(error_parts(error))),
        spec_consistent(parts_bytes(error_parts(error))) == Ok::<(), Error>(()),
        parts_of(parts_bytes(error_parts(error)), error_parts(error)),
{
    let p = error_parts(error);
    let h = p.pkt_header;
    let b = parts_bytes(p);
    let u = h.uset_bytes as int;
    lemma_flags_of(128, h.point_type);
    assert(b.take(4) =~= header_bytes(h));
    lemma_built_header(h, b);
    assert(padded(u) % 8 == 0 && u <= padded(u) < u + 8) by (nonlinear_arith)
        requires
            padded(u) == ((u + 7) / 8) * 8,
            0 <= u,
    ;
    assert(padding_of(b) =~= pad_bytes(h.uset_bytes));
    assert(all_ff(padding_of(b)));
    assert(b.subrange(4, u) =~= error@);
}

/// What the link point builder writes, the reader accepts and reads back: the
/// bytes are a consistent point whose enum form is the one built.
pub proof fn law_link_point_reads_back(
    group: [u8; 32],
    domain: [u8; 16],
    ipath: IPath,
    links: &[u8],
    data: &[u8],
    stamp: [u8; 8],
)
    requires
        spec_icheck(ipath@) is Ok,
        links@.len() % (LINK_SIZE as nat) == 0,
        link_point_size(links@.len() as int, ipath@.len() as int, data@.len() as int)
            <= MAX_POINT_SIZE,
    ensures
        well_sized(parts_bytes(link_parts(group, domain, ipath, links, data, stamp))),
        spec_consistent(parts_bytes(link_parts(group, domain, ipath, links, data, stamp)))
            == Ok::<(), Error>(()),
        parts_of(
            parts_bytes(link_parts(group, domain, ipath, links, data, stamp)),
            link_parts(group, domain, ipath, links, data, stamp),
        ),
{
    let p = link_parts(group, domain, ipath, links, data, stamp);
    let h = p.pkt_header;
    let b = parts_bytes(p);
    let u = h.uset_bytes as int;
    lemma_flags_of(3, h.point_type);
    assert(b.take(4) =~= header_bytes(h));
    lemma_built_header(h, b);
    assert(padded(u) % 8 == 0 && u <= padded(u) < u + 8) by (nonlinear_arith)
        requires
            padded(u) == ((u + 7) / 8) * 8,
            0 <= u,
    ;
    let isp = 64 + links@.len() as int;
    let dof = isp + ipath@.len() as int;
    match p.fields {
        PointFields::LinkPoint(lp) => {
            assert(b.subrange(4, 64) =~= lph_bytes(lp.head));
            let oi = lp.head.info.offset_ipath;
            let od = lp.head.info.offset_data;
            assert(b[4] == (oi / 256) as u8 && b[5] == (oi % 256) as u8);
            assert(b[6] == (od / 256) as u8 && b[7] == (od % 256) as u8);
            assert(be16(b, 4) == isp);
            assert(be16(b, 6) == dof);
            assert(b.subrange(64, isp) =~= links@);
            assert(b.subrange(isp, dof) =~= ipath@);
            assert(b.subrange(dof, u) =~= data@);
        },
        _ => {},
    }
    assert(padding_of(b) =~= pad_bytes(h.uset_bytes));
    assert(all_ff(padding_of(b)));
}

/// What the key point builder writes, the reader accepts and reads back: the
/// bytes are a consistent point whose enum form is the one built.
pub proof fn law_key_point_reads_back(
    group: [u8; 32],
    domain: [u8; 16],
    ipath: IPath,
    links: &[u8],
    data: &[u8],
    stamp: [u8; 8],
    signed: Signed,
)
    requires
        spec_icheck(ipath@) is Ok,
        links@.len() % (LINK_SIZE as nat) == 0,
        key_point_size(links@.len() as int, ipath@.len() as int, data@.len() as int)
            <= MAX_POINT_SIZE,
    ensures
        well_sized(parts_bytes(key_parts(group, domain, ipath, links, data, stamp, signed))),
        spec_consistent(parts_bytes(key_parts(group, domain, ipath, links, data, stamp, signed)))
            == Ok::<(), Error>(()),
        parts_of(
            parts_bytes(key_parts(group, domain, ipath, links, data, stamp, signed)),
            key_parts(group, domain, ipath, links, data, stamp, signed),
        ),
{
    let p = key_parts(group, domain, ipath, links, data, stamp, signed);
    let h = p.pkt_header;
    let b = parts_bytes(p);
    let u = h.uset_bytes as int;
    lemma_flags_of(7, h.point_type);
    assert(b.take(4) =~= header_bytes(h));
    lemma_built_header(h, b);
    assert(padded(u) % 8 == 0 && u <= padded(u) < u + 8) by (nonlinear_arith)
        requires
            padded(u) == ((u + 7) / 8) * 8,
            0 <= u,
    ;
    let isp = 64 + links@.len() as int;
    let dof = isp + ipath@.len() as int;
    let end = u - 96;
    match p.fields {
        PointFields::KeyPoint(lp, s) => {
            assert(b.subrange(4, 64) =~= lph_bytes(lp.head));
            let oi = lp.head.info.offset_ipath;
            let od = lp.head.info.offset_data;
            assert(b[4] == (oi / 256) as u8 && b[5] == (oi % 256) as u8);
            assert(b[6] == (od / 256) as u8 && b[7] == (od % 256) as u8);
            assert(be16(b, 4) == isp);
            assert(be16(b, 6) == dof);
            assert(b.subrange(64, isp) =~= links@);
            assert(b.subrange(isp, dof) =~= ipath@);
            assert(b.subrange(dof, end) =~= data@);
            assert(b.subrange(b.len() - SIGNED_SIZE, b.len() as int) =~= signed_bytes(s));
        },
        _ => {},
    }
    assert(padding_of(b) =~= pad_bytes(h.uset_bytes));
    assert(all_ff(padding_of(b)));
}

/// What a key point's signature signs does not depend on the signature
/// block: the reader's signing bytes of a built key point are the builder's.
pub proof fn law_key_point_signs(
    group: [u8; 32],
    domain: [u8; 16],
    ipath: IPath,
    links: &[u8],
    data: &[u8],
    stamp: [u8; 8],
    signed: Signed,
)
    ensures
        sign_message(parts_bytes(key_parts(group, domain, ipath, links, data, stamp, signed)))
            == key_message(group, domain, ipath, links, data, stamp),
{
    lemma_key_bytes(group, domain, ipath, links, data, stamp, signed);
    let m = key_message(group, domain, ipath, links, data, stamp);
    assert(sign_message(m + signed_bytes(signed)) =~= m);
}

/// The free space of an unsigned point is not negative exactly when the link
/// point fits: for a valid path, the link point of its indexed bytes, links of
/// `links_len` links and `data_len` bytes of data is within the size limit
/// exactly when `calc_free_space` gives at least 0 for them.
pub proof fn law_free_space_fits(path: Seq<u8>, links_len: nat, data_len: nat)
    requires
        valid_spath(path),
    ensures
        spec_ipath(path) is Ok,
        spec_ipath(path).unwrap().len() == path_cost(path.len() as int),
        floor_isize(
            MAX_LINKPOINT_DATA_SIZE - links_len * LINK_SIZE - path_cost(path.len() as int)
                - data_len,
        ) >= 0 <==> link_point_size(
            links_len * LINK_SIZE,
            spec_ipath(path).unwrap().len() as int,
            data_len as int,
        ) <= MAX_POINT_SIZE,
{
    law_indexed_spath(path);
    let ip = spec_ipath(path).unwrap();
    if path.len() > 0 {
        assert(ip.len() > 0);
        assert(ip.skip(8).len() == path.len());
    }
}

} // verus!
