use linkspace_pkt::builder::{calc_free_space, links_as_bytes, try_linkpoint_ref};
use linkspace_pkt::link::Link;
use linkspace_pkt::builder::{keypoint, keypoint_signing_hash, linkpoint, point, try_keypoint_ref, try_point};
use linkspace_pkt::error::Error;
use linkspace_pkt::header::NetPktHeader;
use linkspace_pkt::ipath::ipath_buf;
use linkspace_pkt::netpkt_ptr::NetPktPtr;
use linkspace_pkt::point_parts::{PointFields, Signed};
use linkspace_pkt::point_ptr::PointThinPtr;

#[test]
fn keypoint_reads_back() {
    let path = ipath_buf(&[b"a" as &[u8], b"bc"]);
    let links = vec![9u8; 48];
    let pubkey = [3u8; 32];
    let signature = [4u8; 64];
    let to_sign = keypoint_signing_hash([1; 32], [2; 16], path.as_ipath(), &links, b"data", [0, 0, 0, 0, 0, 0, 0, 7]).unwrap();
    let kp = keypoint(
        [1; 32],
        [2; 16],
        path.as_ipath(),
        &links,
        b"data",
        [0, 0, 0, 0, 0, 0, 0, 7],
        pubkey,
        signature,
        NetPktHeader::EMPTY(),
    );
    let point = kp.as_point().pkt_segments();
    assert_eq!(point.len() % 8, 0);
    assert_eq!(point[1], 7);
    assert_eq!(&point[point.len() - 96..point.len() - 64], &pubkey);
    assert_eq!(&point[point.len() - 64..], &signature);
    let p = PointThinPtr::from_bytes(&point).unwrap();
    assert_eq!(p.internal_consitent_length(), Ok(()));
    assert_eq!(p.signed(), Some(Signed { pubkey, signature }));
    assert_eq!(p.signing_hash(), Some(to_sign));
    assert_eq!(p.check_signature(true), Ok(()));
    assert_eq!(p.check_signature(false), Err(Error::InvalidSignature));
    assert_eq!(p.parts(), kp.as_point());
    match p.parts().fields {
        PointFields::KeyPoint(lp, s) => {
            assert_eq!(lp.tail.data, b"data");
            assert_eq!(s.pubkey, pubkey);
        }
        _ => panic!(),
    }
    let bytes = kp.byte_segments();
    let pkt = NetPktPtr::from_bytes(&bytes).unwrap();
    assert_eq!(pkt.check(false, true), Ok(()));
    assert_eq!(pkt.check(false, false), Err(Error::InvalidSignature));
    assert_eq!(pkt.hash(), *kp.hash_ref());
}

#[test]
fn signing_hash_ignores_the_signature() {
    let path = ipath_buf(&[b"x" as &[u8]]);
    let a = keypoint([0; 32], [0; 16], path.as_ipath(), &[], b"", [0; 8], [1; 32], [1; 64], NetPktHeader::EMPTY());
    let b = keypoint([0; 32], [0; 16], path.as_ipath(), &[], b"", [0; 8], [2; 32], [2; 64], NetPktHeader::EMPTY());
    let pa = a.as_point().pkt_segments();
    let pb = b.as_point().pkt_segments();
    assert_ne!(pa, pb);
    assert_eq!(&pa[..pa.len() - 96], &pb[..pb.len() - 96]);
    let ha = PointThinPtr::from_bytes(&pa).unwrap().signing_hash();
    let hb = PointThinPtr::from_bytes(&pb).unwrap().signing_hash();
    assert_eq!(ha, hb);
    assert_ne!(a.hash(), b.hash());
    // a link point has nothing to sign
    let lp = linkpoint([0; 32], [0; 16], path.as_ipath(), &[], b"", [0; 8], NetPktHeader::EMPTY());
    let lb = lp.as_point().pkt_segments();
    assert_eq!(PointThinPtr::from_bytes(&lb).unwrap().signing_hash(), None);
}

#[test]
fn keypoint_size_limit() {
    let empty: &[&[u8]] = &[];
    let path = ipath_buf(empty);
    let fits = vec![0u8; 65024 - 64 - 96];
    assert!(try_keypoint_ref([0; 32], [0; 16], path.as_ipath(), &[], &fits, [0; 8], [0; 32], [0; 64], NetPktHeader::EMPTY()).is_ok());
    let too_big = vec![0u8; 65024 - 64 - 96 + 1];
    assert_eq!(
        try_keypoint_ref([0; 32], [0; 16], path.as_ipath(), &[], &too_big, [0; 8], [0; 32], [0; 64], NetPktHeader::EMPTY()).unwrap_err(),
        Error::ContentLen
    );
    assert_eq!(
        keypoint_signing_hash([0; 32], [0; 16], path.as_ipath(), &[], &too_big, [0; 8]).unwrap_err(),
        Error::ContentLen
    );
    // the same data still fits in a link point
    let _ = linkpoint([0; 32], [0; 16], path.as_ipath(), &[], &too_big, [0; 8], NetPktHeader::EMPTY());
}

#[test]
fn point_signed_or_not() {
    let path = ipath_buf(&[b"p" as &[u8]]);
    let s = Signed { pubkey: [5; 32], signature: [6; 64] };
    let k = point([0; 32], [0; 16], path.as_ipath(), &[], b"d", [0; 8], Some(s), NetPktHeader::EMPTY());
    let k2 = keypoint([0; 32], [0; 16], path.as_ipath(), &[], b"d", [0; 8], [5; 32], [6; 64], NetPktHeader::EMPTY());
    assert_eq!(k.as_point(), k2.as_point());
    assert_eq!(k.hash(), k2.hash());
    let l = point([0; 32], [0; 16], path.as_ipath(), &[], b"d", [0; 8], None, NetPktHeader::EMPTY());
    let l2 = linkpoint([0; 32], [0; 16], path.as_ipath(), &[], b"d", [0; 8], NetPktHeader::EMPTY());
    assert_eq!(l.as_point(), l2.as_point());
    let empty: &[&[u8]] = &[];
    let root = ipath_buf(empty);
    let big = vec![0u8; 65024 - 64 - 95];
    assert!(try_point([0; 32], [0; 16], root.as_ipath(), &[], &big, [0; 8], None, NetPktHeader::EMPTY()).is_ok());
    assert_eq!(
        try_point([0; 32], [0; 16], root.as_ipath(), &[], &big, [0; 8], Some(s), NetPktHeader::EMPTY()).unwrap_err(),
        Error::ContentLen
    );
}

#[test]
fn free_space_matches_link_point_fit() {
    let path = ipath_buf(&[b"a" as &[u8], b"b"]);
    let sp = path.as_ipath().spath();
    let links = [Link { tag: [1; 16], ptr: [2; 32] }];
    let lb = links_as_bytes(&links);
    let fits = vec![0u8; 64960 - 48 - 12];
    assert_eq!(calc_free_space(sp, &links, &fits, false), 0);
    assert!(try_linkpoint_ref([0; 32], [0; 16], path.as_ipath(), &lb, &fits, [0; 8], NetPktHeader::EMPTY()).is_ok());
    let over = vec![0u8; 64960 - 48 - 12 + 1];
    assert_eq!(calc_free_space(sp, &links, &over, false), -1);
    assert!(try_linkpoint_ref([0; 32], [0; 16], path.as_ipath(), &lb, &over, [0; 8], NetPktHeader::EMPTY()).is_err());
}
