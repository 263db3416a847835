use linkspace_pkt::builder::{datapoint, links_as_bytes, linkpoint};
use linkspace_pkt::error::Error;
use linkspace_pkt::field_ids::FieldEnum;
use linkspace_pkt::ipath::ipath_buf;
use linkspace_pkt::link::Link;
use linkspace_pkt::netpkt_ptr::{read_pkt, NetPktPtr};
use linkspace_pkt::netpkt_parts::NetPktParts;
use linkspace_pkt::builder::keypoint;
use linkspace_pkt::header::NetPktHeader;
use linkspace_pkt::partial::PartialNetHeader;

fn field(f: FieldEnum, pkt: &linkspace_pkt::netpkt_parts::NetPktParts<'_>) -> Vec<u8> {
    let mut out = vec![];
    f.bytes(pkt, &mut out);
    out
}

#[test]
fn netpkt_check_and_fields() {
    let net_header = NetPktHeader::EMPTY();
    let path = ipath_buf(&[b"hello" as &[u8], b"world"]);
    let links = links_as_bytes(&[Link { tag: [7; 16], ptr: [8; 32] }, Link { tag: [1; 16], ptr: [2; 32] }]);
    let lp = linkpoint([1; 32], [2; 16], path.as_ipath(), &links, b"dat", [0, 0, 0, 0, 0, 0, 1, 2], net_header);
    let bytes = lp.byte_segments();
    let pkt = NetPktPtr::from_bytes(&bytes).unwrap();
    assert_eq!(pkt.size(), bytes.len());
    assert_eq!(pkt.check(false, true), Ok(()));
    assert_eq!(pkt.check(true, false), Ok(()));
    assert_eq!(pkt.hash(), *lp.hash_ref());
    assert_eq!(pkt.net_header(), net_header);
    let parts = pkt.checked_netparts().unwrap();
    assert_eq!(parts.as_point(), lp.as_point());

    assert_eq!(field(FieldEnum::GroupIDF, &parts), vec![1; 32]);
    assert_eq!(field(FieldEnum::DomainF, &parts), vec![2; 16]);
    assert_eq!(field(FieldEnum::CreateF, &parts), vec![0, 0, 0, 0, 0, 0, 1, 2]);
    assert_eq!(field(FieldEnum::LinksLenF, &parts), vec![0, 2]);
    assert_eq!(field(FieldEnum::DataSizeF, &parts), vec![0, 3]);
    assert_eq!(field(FieldEnum::DataF, &parts), b"dat".to_vec());
    assert_eq!(field(FieldEnum::PathLenF, &parts), vec![2]);
    assert_eq!(field(FieldEnum::PathComp0F, &parts), b"hello".to_vec());
    assert_eq!(field(FieldEnum::PathComp1F, &parts), b"world".to_vec());
    assert_eq!(field(FieldEnum::PathComp2F, &parts), Vec::<u8>::new());
    assert_eq!(field(FieldEnum::PathF, &parts), vec![5, 104, 101, 108, 108, 111, 5, 119, 111, 114, 108, 100]);
    assert_eq!(field(FieldEnum::PktTypeF, &parts), vec![3]);
    assert_eq!(field(FieldEnum::PktHashF, &parts), lp.hash_ref().to_vec());
    assert_eq!(field(FieldEnum::PubKeyF, &parts), vec![0; 32]);
    assert_eq!(field(FieldEnum::SignatureF, &parts), vec![0; 64]);
    assert_eq!(field(FieldEnum::VarNetFlagsF, &parts), vec![0]);
    assert_eq!(field(FieldEnum::VarStampF, &parts), vec![255; 8]);
    assert_eq!(field(FieldEnum::VarHopF, &parts), vec![0; 4]);
    let size = 64 + 96 + 20 + 3;
    assert_eq!(field(FieldEnum::PointSizeF, &parts), vec![0, size as u8]);

    let mut bad_hash = bytes.clone();
    bad_hash[40] ^= 1;
    let pkt = NetPktPtr::from_bytes(&bad_hash).unwrap();
    assert_eq!(pkt.check(false, true), Err(Error::HashMismatch));
    assert_eq!(pkt.check(true, true), Ok(()));

    let mut bad_pad = bytes.clone();
    let n = bad_pad.len();
    bad_pad[n - 1] = 0;
    let pkt = NetPktPtr::from_bytes(&bad_pad).unwrap();
    assert_eq!(pkt.check(true, true), Err(Error::PaddingBitsNotU8Max));

    assert!(NetPktPtr::from_bytes(&bytes[0..67]).is_none());
    assert!(NetPktPtr::from_bytes(&bytes[0..bytes.len() - 8]).is_none());
}

#[test]
fn data_packet_fields() {
    let net_header = NetPktHeader::EMPTY();
    let d = datapoint(b"Hello, Sol!\n", net_header);
    assert_eq!(field(FieldEnum::DataF, &d), b"Hello, Sol!\n".to_vec());
    assert_eq!(field(FieldEnum::GroupIDF, &d), vec![0; 32]);
    assert_eq!(field(FieldEnum::PathF, &d), Vec::<u8>::new());
    assert_eq!(field(FieldEnum::PathLenF, &d), vec![0]);
    assert_eq!(field(FieldEnum::PathComp0F, &d), Vec::<u8>::new());
    assert_eq!(field(FieldEnum::LinksLenF, &d), vec![0, 0]);
    assert_eq!(field(FieldEnum::PointSizeF, &d), vec![0, 16]);
    assert_eq!(field(FieldEnum::PktTypeF, &d), vec![1]);
    let bytes = d.byte_segments();
    let pkt = NetPktPtr::from_bytes(&bytes).unwrap();
    assert_eq!(pkt.check(false, false), Ok(()));
}

#[test]
fn asm_tests_build() {
    let net_header = NetPktHeader::EMPTY();
    let pkt = datapoint(&[], net_header).byte_segments();
    let ok = NetPktPtr::from_bytes(&pkt).unwrap().check(true, false);
    assert!(ok.is_ok(), "{:?}", ok);
    let path = ipath_buf(&[b"a" as &[u8]]);
    let pkt = linkpoint([0; 32], [0; 16], path.as_ipath(), &[], b"ok", [0; 8], net_header).byte_segments();
    let ok = NetPktPtr::from_bytes(&pkt).unwrap().check(true, false);
    assert!(ok.is_ok(), "{:?}", ok);
}

#[test]
fn basic() {
    let net_header = NetPktHeader::EMPTY();
    let _pkt = datapoint(&[], net_header).byte_segments();
}

#[test]
fn calc_len() {
    let net_header = NetPktHeader::EMPTY();
    let spath = ipath_buf(&[b"hello" as &[u8], b"world"]);
    let mut tag = [0u8; 16];
    tag[12..16].copy_from_slice(b"test");
    let links = links_as_bytes(&[Link { tag, ptr: [2u8; 32] }]);
    let sp = linkpoint([0; 32], [0; 16], spath.as_ipath(), &links, b"ok", [0; 8], net_header).byte_segments();
    let upto_header_bytes: &[u8; 68] = sp[0..68].try_into().unwrap();
    let calculated = PartialNetHeader::from(upto_header_bytes).point_header.size();
    assert_eq!(NetPktPtr::from_bytes(&sp).unwrap().size(), calculated as usize)
}

#[test]
fn netpkt_ptr_build() {
    let net_header = NetPktHeader::EMPTY();
    let path = ipath_buf(&[b"yo" as &[u8]]);
    let sp = linkpoint([0; 32], [0; 16], path.as_ipath(), &[], b"ok", [0, 0, 0, 0, 0, 0, 0, 1], net_header);
    let sp_bytes = sp.byte_segments();
    let b = NetPktPtr::from_bytes_unchecked(&sp_bytes);
    assert_eq!(sp.as_point().tail(), b.as_point().tail());
    assert_eq!(*sp.hash_ref(), b.hash());
}

#[test]
fn link_from_tag_and_ptr() {
    let l = Link::from(([1; 16], [2; 32]));
    assert_eq!(l, Link { tag: [1; 16], ptr: [2; 32] });
    assert_eq!(links_as_bytes(&[l]).len(), 48);
}

#[test]
fn netparts_size_hash_and_header() {
    let h = NetPktHeader::EMPTY().hop();
    let d = datapoint(b"Hello, Sol!\n", h);
    assert_eq!(d.size() as usize, d.byte_segments().len());
    assert_eq!(d.size(), 80);
    assert_eq!(d.hash(), *d.hash_ref());
    assert_eq!(d.net_header(), h);
    assert_eq!(d.recv(), None);
}

#[test]
fn parsing() {
    fn test(parts: NetPktParts<'_>) {
        let data: Vec<u8> = parts.byte_segments();
        let read = read_pkt(&data, true, false).unwrap();
        assert_eq!(read.as_netpkt_bytes(), &data[..]);
        let parts_parse = read.checked_netparts().unwrap();
        assert_eq!(parts_parse.byte_segments(), data);
        let mut d2 = data.clone();
        d2.insert(0, 0);
        let read2 = read_pkt(&d2[1..], true, false).unwrap();
        assert_eq!(read2.as_netpkt_bytes(), &data[..]);
        assert_eq!(read2.checked_netparts().unwrap().byte_segments(), data);
    }
    let space = ipath_buf(&[b"hello" as &[u8], b"world"]);
    test(datapoint(b"hello", NetPktHeader::EMPTY()));
    let lp = linkpoint([4; 32], [1; 16], space.as_ipath(), &[], b"datatest", [0, 0, 0, 0, 0, 0, 0, 2], NetPktHeader::EMPTY());
    test(lp);
    let kp = keypoint([4; 32], [1; 16], space.as_ipath(), &[], b"datatest", [0, 0, 0, 0, 0, 0, 0, 2], [9; 32], [8; 64], NetPktHeader::EMPTY());
    test(kp);
}

#[test]
fn read_pkt_needs_bytes() {
    let data = datapoint(b"Hello, Sol!\n", NetPktHeader::EMPTY()).byte_segments();
    assert_eq!(data.len(), 80);
    let e = read_pkt(&data[..67], false, true).err().unwrap();
    assert_eq!(e, Error::MissingHeader);
    assert_eq!(e.requires_more(), Some(68));
    let e = read_pkt(&data[..79], false, true).err().unwrap();
    assert_eq!(e, Error::MissingBytes { netpkt_size: 80 });
    assert_eq!(e.requires_more(), Some(80));
    let mut longer = data.clone();
    longer.extend_from_slice(&[1, 2, 3]);
    assert_eq!(read_pkt(&longer, false, true).unwrap().as_netpkt_bytes(), &data[..]);
    let mut bad_hash = data.clone();
    bad_hash[40] ^= 1;
    assert_eq!(read_pkt(&bad_hash, false, true).err().unwrap(), Error::HashMismatch);
    assert!(read_pkt(&bad_hash, true, true).is_ok());
    let mut bad_header = data.clone();
    bad_header[64] = 1;
    assert_eq!(read_pkt(&bad_header, true, true).err().unwrap(), Error::HeaderReservedSet(1));
}
