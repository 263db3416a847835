use linkspace_pkt::builder::{datapoint, linkpoint};
use linkspace_pkt::header::NetPktHeader;
use linkspace_pkt::ipath::ipath_buf;
use linkspace_pkt::pkt_order::{order_bytes, PktCmp};
use std::cmp::Ordering;

#[test]
fn bytes_order_lexicographically() {
    assert_eq!(order_bytes(b"abc", b"abd"), Ordering::Less);
    assert_eq!(order_bytes(b"abd", b"abc"), Ordering::Greater);
    assert_eq!(order_bytes(b"ab", b"abc"), Ordering::Less);
    assert_eq!(order_bytes(b"abc", b"ab"), Ordering::Greater);
    assert_eq!(order_bytes(b"", b""), Ordering::Equal);
    assert_eq!(order_bytes(b"xyz", b"xyz"), Ordering::Equal);
}

#[test]
fn pkt_cmp_equality_by_hash() {
    let h = NetPktHeader::EMPTY();
    let a = PktCmp(datapoint(b"one", h));
    let b = PktCmp(datapoint(b"one", h.hop()));
    let c = PktCmp(datapoint(b"two", h));
    assert!(a == b);
    assert!(a != c);
    assert_eq!(a.cmp(&b), Ordering::Equal);
}

#[test]
fn pkt_cmp_orders_tree_entries_first() {
    let h = NetPktHeader::EMPTY();
    let path = ipath_buf(&[b"a" as &[u8]]);
    let lp1 = PktCmp(linkpoint([1; 32], [2; 16], path.as_ipath(), &[], b"x", [0; 8], h));
    let lp2 = PktCmp(linkpoint([3; 32], [2; 16], path.as_ipath(), &[], b"x", [0; 8], h));
    let lp3 = PktCmp(linkpoint([1; 32], [2; 16], path.as_ipath(), &[], b"x", [0, 0, 0, 0, 0, 0, 0, 1], h));
    let dp = PktCmp(datapoint(b"x", h));
    assert_eq!(lp1.cmp(&dp), Ordering::Less);
    assert_eq!(dp.cmp(&lp1), Ordering::Greater);
    assert_eq!(lp1.cmp(&lp2), Ordering::Less);
    assert_eq!(lp2.cmp(&lp1), Ordering::Greater);
    // same key, the value (create stamp first) decides
    assert_eq!(lp1.cmp(&lp3), Ordering::Less);
    assert_eq!(lp1.cmp(&lp1), Ordering::Equal);
    let d1 = datapoint(b"x", h);
    let d2 = datapoint(b"y", h);
    let expect = order_bytes(d1.hash_ref(), d2.hash_ref());
    assert_eq!(PktCmp(d1).cmp(&PktCmp(d2)), expect);
    assert_ne!(expect, Ordering::Equal);
}
