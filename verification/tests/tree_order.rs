use linkspace_pkt::space::{space_buf, Space};
use linkspace_pkt::builder::{datapoint, links_as_bytes, linkpoint};
use linkspace_pkt::ipath::ipath_buf;
use linkspace_pkt::link::Link;
use linkspace_pkt::header::NetPktHeader;
use linkspace_pkt::tree_order::{TreeEntry, TreeKey, TreeValue};

#[test]
fn tree_key_fields() {
    let sp = space_buf(&[b"a" as &[u8], b"bc"]);
    let group = [1u8; 32];
    let domain = [2u8; 16];
    let key = [3u8; 32];
    let k = TreeKey::from_fields(group, domain, 2, sp.as_space(), Some(&key));
    assert_eq!(k.as_bytes().len(), 32 + 16 + 1 + 5 + 32);
    let (g, d, n, s, p) = k.fields();
    assert_eq!(g, group);
    assert_eq!(d, domain);
    assert_eq!(n, 2);
    assert_eq!(s, sp.as_space());
    assert_eq!(p, key);
    assert_eq!(k.space(), sp.as_space());
    assert_eq!(k.space_segments(), 2);
    assert_eq!(k.pubkey(), key);
    assert_eq!(k.group(), group);
    assert_eq!(k.domain(), domain);
    let (pre, pk) = k.pop_key();
    assert_eq!(pre.len(), 54);
    assert_eq!(pk, key);
    let (s2, pk2) = k.space_and_key();
    assert_eq!(s2, sp.as_space());
    assert_eq!(pk2, key);
    let head = k.fixed_head();
    assert_eq!(head.sp_len, 2);

    let borrowed = k.as_ref();
    assert_eq!(borrowed.as_bytes(), k.as_bytes());
    let again = TreeKey::new(k.as_bytes().to_vec());
    assert_eq!(again, k);
    assert_eq!(again.take(), k.as_bytes().to_vec());
}

#[test]
fn tree_key_private() {
    let k = TreeKey::from_fields([0u8; 32], [0u8; 16], 0, Space::empty(), None);
    assert_eq!(k.as_bytes().len(), 81);
    assert_eq!(k.pubkey(), [0u8; 32]);
    assert!(k.space().is_empty());
}

#[test]
fn tree_key_from_bytes() {
    assert!(TreeKey::from(&[0u8; 49]).is_none());
    let k = TreeKey::from(&[5u8; 50]).unwrap();
    assert_eq!(k.as_bytes(), &[5u8; 50][..]);
}

#[test]
fn tree_key_order() {
    let a = TreeKey::from_fields([0u8; 32], [0u8; 16], 0, Space::empty(), None);
    let b = TreeKey::from_fields([1u8; 32], [0u8; 16], 0, Space::empty(), None);
    assert!(a < b);
}

#[test]
fn tree_entry_of_packet() {
    let net_header = NetPktHeader::EMPTY();
    let path = ipath_buf(&[b"a" as &[u8], b"bc"]);
    let links = links_as_bytes(&[Link { tag: [7; 16], ptr: [8; 32] }]);
    let lp = linkpoint([1; 32], [2; 16], path.as_ipath(), &links, b"xyz", [0, 0, 0, 0, 0, 0, 0, 5], net_header);
    let e = TreeEntry::from_pkt([0, 0, 0, 0, 0, 0, 0, 9], &lp).unwrap();
    let (g, d, n, s, k) = e.btree_key.fields();
    assert_eq!(g, [1; 32]);
    assert_eq!(d, [2; 16]);
    assert_eq!(n, 2);
    assert_eq!(s.space_bytes(), &[1, b'a', 2, b'b', b'c']);
    assert_eq!(k, [0; 32]);
    assert_eq!(e.hash(), *lp.hash_ref());
    assert_eq!(e.create(), [0, 0, 0, 0, 0, 0, 0, 5]);
    assert_eq!(e.local_log_ptr(), [0, 0, 0, 0, 0, 0, 0, 9]);
    assert_eq!(e.links_len(), 1);
    assert_eq!(e.data_size(), 3);
    assert_eq!(e.btree_key().as_bytes(), e.btree_key.as_bytes());

    let v = TreeValue::from_pkt([0; 8], &lp);
    assert_eq!(TreeValue::from_bytes(&v.into_bytes()), v);

    let db = TreeEntry::from_db((e.btree_key.as_bytes(), &e.val[..]));
    let owned = db.to_owned();
    assert_eq!(owned, e);

    let dp = datapoint(b"q", net_header);
    assert!(TreeEntry::from_pkt([0; 8], &dp).is_none());
}
