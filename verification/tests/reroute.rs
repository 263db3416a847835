use linkspace_pkt::builder::datapoint;
use linkspace_pkt::header::{NetFlags, NetPktHeader};
use linkspace_pkt::reroute::{RecvPkt, ReroutePkt};

#[test]
fn reroute_replaces_only_the_net_header() {
    let d = datapoint(b"Hello, Sol!\n", NetPktHeader::EMPTY());
    let mut r = ReroutePkt::new(d);
    assert_eq!(*r.net_header_ref(), NetPktHeader::EMPTY());
    assert_eq!(r.byte_segments(), d.byte_segments());
    r.net_header = NetPktHeader::EMPTY().hop().with_flags(NetFlags::DONT_FORWARD());
    let before = d.byte_segments();
    let after = r.byte_segments();
    assert_eq!(after.len(), before.len());
    assert_eq!(&after[0..32], &r.net_header.as_bytes());
    assert_ne!(&after[0..32], &before[0..32]);
    assert_eq!(&after[32..], &before[32..]);
    assert_eq!(r.hash_ref(), d.hash_ref());
    assert_eq!(r.as_point(), d.as_point());
    assert_eq!(r.recv(), None);
}

#[test]
fn recv_pkt_has_its_stamp() {
    let d = datapoint(b"abc", NetPktHeader::EMPTY());
    let r = RecvPkt { recv: [0, 0, 0, 0, 0, 0, 1, 0], pkt: d };
    assert_eq!(r.recv(), Some([0, 0, 0, 0, 0, 0, 1, 0]));
    assert_eq!(r.byte_segments(), d.byte_segments());
    assert_eq!(r.hash_ref(), d.hash_ref());
    assert_eq!(*r.net_header_ref(), NetPktHeader::EMPTY());
    assert_eq!(r.as_point(), d.as_point());
}
