use linkspace_pkt::byte_segments::ByteSegments;

#[test]
fn it() {
    let mut byes = ByteSegments::from_array([b"hello" as &[u8], b"world"]);
    let len = byes.len();
    let mut b: Vec<u8> = Vec::new();
    while let Some(x) = byes.next() {
        b.push(x);
    }
    assert_eq!(b.len(), len);
    assert_eq!(b, b"helloworld")
}

#[test]
fn byte_segments_concat() {
    let segs = ByteSegments::from_array([b"ab" as &[u8], b"", b"c"]);
    assert_eq!(segs.len(), 3);
    assert!(!segs.is_empty());
    assert_eq!(&*segs.clone().to_bytes(), b"abc");
    let mut v = vec![9u8];
    segs.clone().write_into(&mut v);
    assert_eq!(v, vec![9, b'a', b'b', b'c']);
    let front = segs.push_front(b"xy");
    assert_eq!(&*front.to_bytes(), b"xyabc");
    assert_eq!(ByteSegments::from_array::<0>([]).len(), 0);
    assert!(ByteSegments::from_array::<0>([]).is_empty());
    assert_eq!(ByteSegments::from_array([b"q" as &[u8]]).as_slice().len(), 8);
}

#[test]
fn byte_segments_next_skips_empty() {
    let mut segs = ByteSegments::from_array([b"" as &[u8], b"", b"z"]);
    assert_eq!(segs.next(), Some(b'z'));
    assert_eq!(segs.next(), None);
    assert_eq!(segs.next(), None);
    assert!(segs.is_empty());
}

#[test]
fn next_runs_through_all_bytes() {
    let mut s = ByteSegments::from_array([b"ab" as &[u8], b"", b"cde", b"f"]);
    let all = b"abcdef";
    for (i, expected) in all.iter().enumerate() {
        assert_eq!(s.len(), all.len() - i);
        assert_eq!(s.size_hint(), (all.len() - i, Some(all.len() - i)));
        assert_eq!(s.next(), Some(*expected));
    }
    assert_eq!(s.size_hint(), (0, Some(0)));
    assert_eq!(s.next(), None);
    assert_eq!(s.next(), None);
    assert_eq!(s.len(), 0);
}
