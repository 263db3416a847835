use linkspace_pkt::builder::{
    datapoint, errorpoint, links_as_bytes, linkpoint, try_datapoint_ref, try_linkpoint_ref,
};
use linkspace_pkt::consts::{PRIVATE, PUBLIC};
use linkspace_pkt::error::Error;
use linkspace_pkt::link::Link;
use linkspace_pkt::point_parts::PointFields;
use linkspace_pkt::ipath::ipath_buf;
use linkspace_pkt::header::NetPktHeader;
use linkspace_pkt::partial::PartialNetHeader;
use linkspace_pkt::point::{PointHeader, PointTypeFlags};
use linkspace_pkt::point_ptr::{PointPtr, PointThinPtr};
use linkspace_pkt::spath::PathError;


fn data_point(data: &[u8]) -> Vec<u8> {
    let h = PointHeader::new_content_len(PointTypeFlags::DATA_POINT(), data.len()).unwrap();
    let mut v = h.as_bytes().to_vec();
    v.extend_from_slice(data);
    while v.len() % 8 != 0 {
        v.push(255);
    }
    v
}

/// A link point without links, with the given path and data.
fn link_point(path: &[u8], data: &[u8]) -> Vec<u8> {
    let size = 4 + 60 + path.len() + data.len();
    let h = PointHeader::new_point_size(PointTypeFlags::LINK_POINT(), size).unwrap();
    let mut v = h.as_bytes().to_vec();
    let isp = 64u16;
    let dof = 64 + path.len() as u16;
    v.extend_from_slice(&isp.to_be_bytes());
    v.extend_from_slice(&dof.to_be_bytes());
    v.extend_from_slice(&[0u8; 56]);
    v.extend_from_slice(path);
    v.extend_from_slice(data);
    while v.len() % 8 != 0 {
        v.push(255);
    }
    v
}

#[test]
fn correct_public_ids() {
    let net_header = NetPktHeader::EMPTY();
    let pkt = datapoint(b"Hello, Sol!\n", net_header);
    let bytes = pkt.as_point().pkt_segments();
    assert_eq!(&bytes, &[0, 1, 0, 16, 72, 101, 108, 108, 111, 44, 32, 83, 111, 108, 33, 10]);
    assert_eq!(*pkt.hash_ref(), PUBLIC);
    assert_eq!(pkt.as_point().compute_hash(), PUBLIC);
    let p = PointThinPtr::from_bytes(&bytes).unwrap();
    assert_eq!(p.compute_hash(), PUBLIC);
    assert_eq!(p.parts().compute_hash(), PUBLIC);
    match p.parts().fields {
        PointFields::DataPoint(d) => assert_eq!(d.len(), b"Hello, Sol!\n".len()),
        _ => panic!(),
    }
    let all = pkt.byte_segments();
    assert_eq!(all.len(), 32 + 32 + 16);
    assert_eq!(&all[0..32], &net_header.as_bytes());
    assert_eq!(&all[32..64], &PUBLIC);
    assert_eq!(&all[64..80], &bytes[..]);
}

#[test]
fn public_hash_of_bytes() {
    let bytes = data_point(b"Hello, Sol!\n");
    assert_eq!(bytes, vec![0, 1, 0, 16, 72, 101, 108, 108, 111, 44, 32, 83, 111, 108, 33, 10]);
    let p = PointThinPtr::from_bytes(&bytes).unwrap();
    assert_eq!(p.internal_consitent_length(), Ok(()));
    assert_eq!(p.compute_hash(), PUBLIC);
    let sized = PointPtr::from_bytes_unchecked(&bytes);
    assert_eq!(sized.compute_hash(), PUBLIC);
    assert_eq!(sized.internal_consitent_length(), Ok(()));
}

#[test]
fn point_header_sizes() {
    let h = PointHeader::new_content_len(PointTypeFlags::DATA_POINT(), 3).unwrap();
    assert_eq!(h.upoint_size(), 7);
    assert_eq!(h.padded_point_size(), 8);
    assert_eq!(h.padding(), 1);
    assert_eq!(h.ucontent_size(), 3);
    assert_eq!(h.padded_content_size(), 4);
    assert_eq!(h.size(), 72);
    assert_eq!(h.as_bytes(), [0, 1, 0, 7]);
    assert_eq!(PointHeader::from_bytes([0, 1, 0, 7]), h);
    assert_eq!(PointHeader::error().as_bytes(), [0, 128, 0, 4]);
    assert_eq!(PointHeader::error().check(), Ok(PointHeader::error()));
}

#[test]
fn point_header_errors() {
    assert_eq!(
        PointHeader::new_content_len(PointTypeFlags::DATA_POINT(), 65021),
        Err(Error::ContentLen)
    );
    assert!(PointHeader::new_content_len(PointTypeFlags::DATA_POINT(), 65020).is_ok());
    assert_eq!(
        PointHeader::new_content_len(PointTypeFlags::LINK_POINT(), 59),
        Err(Error::ContentLen)
    );
    assert!(PointHeader::new_content_len(PointTypeFlags::LINK_POINT(), 60).is_ok());
    assert_eq!(
        PointHeader::new_content_len(PointTypeFlags::KEY_POINT(), 155),
        Err(Error::ContentLen)
    );
    assert!(PointHeader::new_content_len(PointTypeFlags::KEY_POINT(), 156).is_ok());
    assert_eq!(
        PointHeader::new_content_len(PointTypeFlags::from_bits_retain(5), 10),
        Err(Error::UnknownPktType(5))
    );
    assert_eq!(
        PointHeader::from_bytes([3, 1, 0, 7]).check(),
        Err(Error::HeaderReservedSet(3))
    );
    assert_eq!(
        PointHeader::new_content_len(PointTypeFlags::DATA_POINT(), usize::MAX),
        Err(Error::ContentLen)
    );
}

#[test]
fn point_type_flags() {
    assert_eq!(PointTypeFlags::DATA_POINT().as_str(), "DataPoint");
    assert_eq!(PointTypeFlags::LINK_POINT().as_str(), "LinkPoint");
    assert_eq!(PointTypeFlags::KEY_POINT().as_str(), "KeyPoint");
    assert_eq!(PointTypeFlags::ERROR_POINT().as_str(), "ErrorPoint");
    assert_eq!(PointTypeFlags::EMPTY().as_str(), "UnknownPointType");
    assert!(PointTypeFlags::KEY_POINT().contains(PointTypeFlags::LINK()));
    assert!(PointTypeFlags::KEY_POINT().contains(PointTypeFlags::SIGNATURE()));
    assert!(!PointTypeFlags::LINK_POINT().contains(PointTypeFlags::SIGNATURE()));
    assert_eq!(PointTypeFlags::from_bits(8), None);
    assert_eq!(PointTypeFlags::from_bits(3), Some(PointTypeFlags::LINK_POINT()));
    assert_eq!(PointTypeFlags::unchecked_from(128).bits(), 128);
}

#[test]
fn point_padding_checks() {
    let good = data_point(b"abc");
    assert_eq!(good, vec![0, 1, 0, 7, 97, 98, 99, 255]);
    let p = PointThinPtr::from_bytes(&good).unwrap();
    assert_eq!(p.padding(), &[255]);
    assert_eq!(p.internal_consitent_length(), Ok(()));
    assert_eq!(p.point_header().upoint_size(), 7);
    assert_eq!(p.pkt_bytes(), &good[..]);

    let mut bad = good.clone();
    bad[7] = 0;
    let p = PointThinPtr::from_bytes(&bad).unwrap();
    assert_eq!(p.internal_consitent_length(), Err(Error::PaddingBitsNotU8Max));

    let mut reserved = good.clone();
    reserved[0] = 1;
    let p = PointThinPtr::from_bytes(&reserved).unwrap();
    assert_eq!(p.internal_consitent_length(), Err(Error::HeaderReservedSet(1)));

    let mut unknown = good.clone();
    unknown[1] = 5;
    let p = PointThinPtr::from_bytes(&unknown).unwrap();
    assert_eq!(p.internal_consitent_length(), Err(Error::UnknownPktType(5)));

    assert!(PointThinPtr::from_bytes(&good[0..4]).is_none());
    assert!(PointThinPtr::from_bytes(&[0, 1, 0, 2, 0, 0, 0, 0]).is_none());
    let mut longer = good.clone();
    longer.extend_from_slice(&[0u8; 8]);
    assert_eq!(PointThinPtr::from_bytes(&longer).unwrap().pkt_bytes(), &good[..]);
}

#[test]
fn link_point_checks() {
    let path = ipath_buf(&[b"hello" as &[u8], b"world"]);
    let good = link_point(path.as_ipath().ipath_bytes(), b"data");
    let p = PointThinPtr::from_bytes(&good).unwrap();
    assert_eq!(p.internal_consitent_length(), Ok(()));
    assert!(p.padding().iter().all(|b| *b == 255));

    let empty = link_point(&[], b"");
    assert_eq!(empty.len(), 64);
    let p = PointThinPtr::from_bytes(&empty).unwrap();
    assert_eq!(p.internal_consitent_length(), Ok(()));

    let mut isp_after_data = empty.clone();
    isp_after_data[5] = 65;
    let p = PointThinPtr::from_bytes(&isp_after_data).unwrap();
    assert_eq!(p.internal_consitent_length(), Err(Error::DataOffsetIncompatible));

    let mut data_past_end = empty.clone();
    data_past_end[7] = 65;
    let p = PointThinPtr::from_bytes(&data_past_end).unwrap();
    assert_eq!(p.internal_consitent_length(), Err(Error::DataOffsetIncompatible));

    let mut in_header = empty.clone();
    in_header[5] = 63;
    in_header[7] = 63;
    let p = PointThinPtr::from_bytes(&in_header).unwrap();
    assert_eq!(p.internal_consitent_length(), Err(Error::ISPOffsetIncompatible));

    let odd_links = link_point(&[], &[0u8; 16]);
    let mut odd_links = odd_links.clone();
    odd_links[5] = 74;
    odd_links[7] = 74;
    let p = PointThinPtr::from_bytes(&odd_links).unwrap();
    assert_eq!(p.internal_consitent_length(), Err(Error::IndivisableLinkbytes));

    let short_path = link_point(&[1, 2, 3], b"");
    let p = PointThinPtr::from_bytes(&short_path).unwrap();
    assert_eq!(
        p.internal_consitent_length(),
        Err(Error::SPath(PathError::MissingIdx))
    );
}

#[test]
fn partial_net_header() {
    let e = PartialNetHeader::empty();
    assert_eq!(&e.net_header.as_bytes()[0..3], b"LK1");
    assert_eq!(&e.net_header.as_bytes()[8..16], &[255u8; 8]);
    assert_eq!(e.net_header, NetPktHeader::EMPTY());
    assert_eq!(e.hash, [0u8; 32]);
    assert_eq!(e.point_header, PointHeader::error());
    let mut bytes = [0u8; 68];
    bytes[0] = 7;
    bytes[32] = 9;
    bytes[64..68].copy_from_slice(&[0, 1, 0, 16]);
    let p = PartialNetHeader::from(&bytes);
    assert_eq!(p.net_header.as_bytes()[0], 7);
    assert_eq!(p.hash[0], 9);
    assert_eq!(p.point_header.upoint_size(), 16);
}

#[test]
fn error_requires_more() {
    assert_eq!(Error::MissingHeader.requires_more(), Some(68));
    assert_eq!(Error::MissingBytes { netpkt_size: 300 }.requires_more(), Some(300));
    assert_eq!(Error::ContentLen.requires_more(), None);
    let e: Error = PathError::ZeroComponent.into();
    assert_eq!(e, Error::SPath(PathError::ZeroComponent));
}

#[test]
fn built_points_read_back() {
    let net_header = NetPktHeader::EMPTY();
    assert_eq!(
        try_datapoint_ref(&vec![0u8; 65021], net_header).unwrap_err(),
        Error::ContentLen
    );
    let d = try_datapoint_ref(b"abc", net_header).unwrap();
    let bytes = d.as_point().pkt_segments();
    assert_eq!(bytes, vec![0, 1, 0, 7, 97, 98, 99, 255]);

    let e = errorpoint(b"oops", net_header);
    let bytes = e.as_point().pkt_segments();
    assert_eq!(bytes, vec![0, 128, 0, 8, 111, 111, 112, 115]);
    let p = PointThinPtr::from_bytes(&bytes).unwrap();
    assert_eq!(p.internal_consitent_length(), Ok(()));
    assert_eq!(p.data(), b"oops");

    let path = ipath_buf(&[b"hello" as &[u8], b"world"]);
    let links = links_as_bytes(&[Link { tag: [7; 16], ptr: [8; 32] }]);
    let lp = linkpoint([1; 32], [2; 16], path.as_ipath(), &links, b"data", [0, 0, 0, 0, 0, 0, 0, 9], net_header);
    let bytes = lp.as_point().pkt_segments();
    assert_eq!(bytes.len() % 8, 0);
    let p = PointThinPtr::from_bytes(&bytes).unwrap();
    assert_eq!(p.internal_consitent_length(), Ok(()));
    assert_eq!(p.parts(), lp.as_point());
    assert_eq!(p.data(), b"data");
    let head = p.linkpoint_header().unwrap();
    assert_eq!(head.group, [1; 32]);
    assert_eq!(head.domain, [2; 16]);
    assert_eq!(head.create_stamp, [0, 0, 0, 0, 0, 0, 0, 9]);
    assert_eq!(head.info.offset_ipath, 64 + 48);
    let tail = p.tail().unwrap();
    assert_eq!(tail.links, &links[..]);
    assert_eq!(tail.ipath.path0(), b"hello");
    assert!(p.signed().is_none());
    assert_eq!(p.compute_hash(), *lp.hash_ref());

    let big = vec![0u8; 65000];
    assert_eq!(
        try_linkpoint_ref([1; 32], [2; 16], path.as_ipath(), &links, &big, [0; 8], net_header).unwrap_err(),
        Error::ContentLen
    );
}

#[test]
fn point_accessors() {
    let net_header = NetPktHeader::EMPTY();
    let d = datapoint(b"q", net_header).as_point();
    assert!(d.is_datapoint());
    assert!(!d.is_linkpoint());
    assert!(!d.is_keypoint());
    assert_eq!(d.as_datapoint(), Some(&b"q"[..]));
    assert_eq!(d.group(), None);
    assert_eq!(d.get_group(), PRIVATE);
    assert_eq!(d.get_domain(), [0; 16]);
    assert_eq!(d.get_create_stamp(), [0; 8]);
    assert_eq!(d.get_pubkey(), [0; 32]);
    assert_eq!(d.get_signature(), [0; 64]);
    assert_eq!(d.get_path_len(), 0);
    assert!(d.get_path().is_empty());
    assert_eq!(d.get_links(), &[] as &[u8]);
    assert!(d.ipath().is_none());
    assert_eq!(d.check_private(), Ok(()));

    let path = ipath_buf(&[b"x" as &[u8]]);
    let lp = linkpoint(PRIVATE, [3; 16], path.as_ipath(), &[], b"", [0; 8], net_header).as_point();
    assert!(lp.is_linkpoint());
    assert_eq!(lp.group(), Some(PRIVATE));
    assert_eq!(lp.domain(), Some([3; 16]));
    assert_eq!(lp.path_len(), Some(1));
    assert_eq!(lp.get_path().spath_bytes(), &[1, b'x']);
    assert_eq!(lp.check_private(), Err(Error::PrivateGroup));
    let public = linkpoint(PUBLIC, [3; 16], path.as_ipath(), &[], b"", [0; 8], net_header).as_point();
    assert_eq!(public.check_private(), Ok(()));
}
