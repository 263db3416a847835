use linkspace_pkt::header::{be32_bytes, be32_get, NetFlags, NetOpts, NetPktHeader};

#[test]
fn empty_header_bytes() {
    let h = NetPktHeader::EMPTY();
    let b = h.as_bytes();
    assert_eq!(&b[0..3], b"LK1");
    assert_eq!(b[3], 0);
    assert_eq!(&b[4..8], &[0u8; 4]);
    assert_eq!(&b[8..16], &[255u8; 8]);
    assert_eq!(&b[16..32], &[0u8; 16]);
    assert_eq!(h.cinto(), b);
}

#[test]
fn header_bytes_roundtrip() {
    let mut b = [0u8; 32];
    for (i, x) in b.iter_mut().enumerate() {
        *x = i as u8 * 3 + 1;
    }
    let h = NetPktHeader::cfrom(b);
    assert_eq!(h.as_bytes(), b);
    assert_eq!(h.prefix, [1, 4, 7]);
    assert_eq!(h.flags.bits(), 10);
    assert_eq!(h.hop, [13, 16, 19, 22]);
    assert_eq!(h.ubits[3], [85, 88, 91, 94]);
    assert_eq!(NetPktHeader::cfrom(h.cinto()), h);
}

#[test]
fn big_endian_u32() {
    assert_eq!(be32_get([0, 0, 1, 2]), 258);
    assert_eq!(be32_get([1, 0, 0, 0]), 16777216);
    assert_eq!(be32_bytes(0x0102_0304), [1, 2, 3, 4]);
    assert_eq!(be32_bytes(u32::MAX), [255; 4]);
}

#[test]
fn hop_counts_and_clears_always_zero() {
    let h = NetPktHeader::EMPTY().with_flags(NetFlags::from_bits_retain(0b1000_0101));
    let h1 = h.hop();
    assert_eq!(h1.hop, [0, 0, 0, 1]);
    assert_eq!(h1.flags.bits(), 0b0000_0101);
    assert_eq!(h1.stamp, h.stamp);
    let mut h2 = h;
    h2.hop = [0, 0, 0, 255];
    assert_eq!(h2.hop().hop, [0, 0, 1, 0]);
    assert_eq!(be32_get(h2.hop().hop().hop), 257);
}

#[test]
fn flags() {
    let h = NetPktHeader::EMPTY();
    let h = h.with_flags(NetFlags::SILENT());
    assert_eq!(*h.flags_u8(), 1);
    let h = h.and_flags(NetFlags::SILENT(), NetFlags::DONT_FORWARD());
    assert_eq!(h.flags.bits(), 8);
    assert!(h.flags.contains(NetFlags::DONT_FORWARD()));
    assert!(!h.flags.contains(NetFlags::SILENT()));
    assert_eq!(NetFlags::from_bits(0b1000_1111).map(|f| f.bits()), Some(0b1000_1111));
    assert_eq!(NetFlags::from_bits(0b0001_0000), None);
    let mut f = NetFlags::empty();
    f.insert(NetFlags::LINKED_IN_FUTURE_PKT());
    f.insert(NetFlags::LINKED_IN_PREVIOUS_PKT());
    assert_eq!(f.bits(), 6);
    f.remove(NetFlags::LINKED_IN_FUTURE_PKT());
    assert_eq!(f.bits(), 4);
    assert_eq!(NetFlags::ALWAYS_ZERO().bits(), 128);
}

#[test]
fn net_opts() {
    let mut default = NetPktHeader::EMPTY();
    default.ubits[0] = [0, 0, 0, 9];
    assert_eq!(NetOpts::Default.header(default), default);
    assert_eq!(NetOpts::from(()).header(default), default);
    let f = NetOpts::from(NetFlags::SILENT()).header(default);
    assert_eq!(f.flags.bits(), 1);
    assert_eq!(f.ubits, default.ubits);
    let s = NetOpts::Stamp([0, 0, 0, 0, 0, 0, 0, 5]).header(default);
    assert_eq!(s.stamp, [0, 0, 0, 0, 0, 0, 0, 5]);
    assert_eq!(s.ubits, [[0u8; 4]; 4]);
    assert_eq!(&s.as_bytes()[0..3], b"LK1");
    let adv = NetPktHeader::EMPTY().hop();
    assert_eq!(NetOpts::from(adv).header(default), adv);
}
