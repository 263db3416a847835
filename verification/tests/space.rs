use linkspace_pkt::space::{
    concat_components, prefix_len, space_buf, CheckedSpaceIter, Space, SpaceBuf, SpaceError,
    StaticSpace,
};

#[test]
fn space_try_pop() {
    let common_bytes: [u8; 7] =
        concat_components::<4, 3, 7>(concat_components::<2, 2, 4>(prefix_len::<1, 2>(*b"a"), prefix_len::<1, 2>(*b"b")), prefix_len::<2, 3>(*b"aa"));
    let common_const = StaticSpace::from_raw(common_bytes);
    let v = vec![1u8, 97, 1, 98, 2, 97, 97];
    let common = SpaceBuf::from_vec_unchecked(v.clone());
    common.as_space().check_components().unwrap();
    assert_eq!(common.as_space(), common_const.as_space());
    let (a, b) = common.as_space().split_last();
    assert_eq!(a.space_bytes(), &[1, 97, 1, 98]);
    assert_eq!(b.unwrap().space_bytes(), &[2, 97, 97]);

    let mut w = v.clone();
    w.push(2);
    let common = SpaceBuf::from_vec_unchecked(w);
    assert_eq!(common.as_space().check_components(), Err(SpaceError::TailLength));

    let mut w = v.clone();
    w.push(0);
    let common = SpaceBuf::from_vec_unchecked(w);
    assert_eq!(common.as_space().check_components(), Err(SpaceError::ZeroComponent));

    let mut w = v.clone();
    w[2] = 7;
    let common = SpaceBuf::from_vec_unchecked(w);
    assert_eq!(common.as_space().check_components(), Err(SpaceError::TailLength));

    let mut w = v.clone();
    w[2] = 251;
    let common = SpaceBuf::from_vec_unchecked(w);
    assert_eq!(common.as_space().check_components(), Err(SpaceError::ComponentSize));
}

#[test]
fn space_concat() {
    assert_eq!(
        [1, 0, 2, 0, 0],
        concat_components::<2, 3, 5>(prefix_len::<1, 2>([0]), prefix_len::<2, 3>([0, 0]))
    );
}

#[test]
fn space_pop_slice() {
    let mut v = space_buf(&[b"hello" as &[u8], b"world"]);
    let x = space_buf(&[b"hello" as &[u8]]);
    let world = space_buf(&[b"world" as &[u8]]);
    assert_eq!(v.as_space().drop_prefix(x.as_space()), world.as_space());
    v.truncate_last();
    assert_eq!(v, x)
}

#[test]
fn space_check() {
    let mut empty = CheckedSpaceIter::empty_iter();
    assert!(empty.next().is_none(), "bad empty iter?");
    assert!(CheckedSpaceIter::empty_iter().space().is_empty(), "bad empty iter?");

    let space = SpaceBuf::try_from_iter(&[b"hello" as &[u8], b"world"]).unwrap();
    let mut it = space.as_space().checked_iter().unwrap();
    assert_eq!(it.next().unwrap().unwrap(), b"hello" as &[u8]);
    assert_eq!(it.next().unwrap().unwrap(), b"world" as &[u8]);
    assert!(it.next().is_none());
    let v = space_buf(&[b"a" as &[u8], b"b", b"c"]);
    assert_eq!(v.as_space().check_components().unwrap(), 3);
}

#[test]
fn space_track() {
    let v = space_buf(&[b"a" as &[u8], b"b", b"c"]);
    let mut track = v.as_space().track();
    assert_eq!(track.upto().space_bytes(), &[] as &[u8]);
    track = track.next().unwrap();
    assert_eq!(track.upto().space_bytes(), &[1, b'a']);
    track = track.next().unwrap();
    assert_eq!(track.upto().space_bytes(), &[1, b'a', 1, b'b']);
    track = track.next().unwrap();
    assert_eq!(track.upto().space_bytes(), &[1, b'a', 1, b'b', 1, b'c']);
}

#[test]
fn space_build_and_split() {
    let sp = space_buf(&[b"hello" as &[u8], b"world"]);
    assert_eq!(sp.as_bytes(), &[5, 104, 101, 108, 108, 111, 5, 119, 111, 114, 108, 100]);
    assert_eq!(sp.as_space().first(), b"hello");
    assert_eq!(sp.as_space().size(), 12);
    let (head, rest) = sp.as_space().split_first().unwrap();
    assert_eq!(head, b"hello");
    assert_eq!(rest.space_bytes(), &[5, 119, 111, 114, 108, 100]);
    assert_eq!(sp.as_space().parent().unwrap().space_bytes(), &[5, 104, 101, 108, 108, 111]);
    let (pre, last) = sp.as_space().pop();
    assert_eq!(pre.space_bytes(), &[5, 104, 101, 108, 108, 111]);
    assert_eq!(last.unwrap(), b"world");
    assert!(Space::empty().is_empty());
    assert_eq!(Space::empty().head(), None);
}

#[test]
fn space_errors() {
    assert_eq!(SpaceBuf::new().try_push(&[]), Err(SpaceError::ZeroComponent));
    assert_eq!(SpaceBuf::new().try_push(&[0u8; 201]), Err(SpaceError::ComponentSize));
    let nine: Vec<&[u8]> = vec![b"a"; 9];
    assert_eq!(SpaceBuf::try_from_iter(&nine), Err(SpaceError::MaxDepth));
    let eight: Vec<&[u8]> = vec![b"a"; 8];
    assert_eq!(SpaceBuf::try_from_iter(&eight).unwrap().as_space().check_components(), Ok(8));
    assert_eq!(Space::from_slice(&[3, 1, 2]), Err(SpaceError::TailLength));
    let big = [1u8; 243];
    assert_eq!(Space::from_slice(&big), Err(SpaceError::CapacityError));
    let nine_bytes = [1u8, 97, 1, 97, 1, 97, 1, 97, 1, 97, 1, 97, 1, 97, 1, 97, 1, 97];
    assert_eq!(Space::from_slice(&nine_bytes), Err(SpaceError::MaxDepth));
    assert_eq!(Space::from_unchecked(&nine_bytes).check_components(), Err(SpaceError::MaxDepth));
    assert_eq!(Space::from_unchecked(&nine_bytes[..16]).check_components(), Ok(8));
}

#[test]
fn space_prefixes() {
    let sp = space_buf(&[b"a" as &[u8], b"b"]);
    let scan = sp.as_space().scan_space();
    assert_eq!(scan.len(), 3);
    assert_eq!(scan[0].space_bytes(), &[] as &[u8]);
    assert_eq!(scan[1].space_bytes(), &[1, b'a']);
    assert_eq!(scan[2].space_bytes(), &[1, b'a', 1, b'b']);
    let a = space_buf(&[b"a" as &[u8]]);
    assert!(sp.as_space().starts_with(a.as_space()));
    assert_eq!(sp.as_space().strip_prefix(a.as_space()).unwrap().space_bytes(), &[1, b'b']);
    let c = space_buf(&[b"c" as &[u8]]);
    assert_eq!(sp.as_space().strip_prefix(c.as_space()), None);
    let arr = sp.as_space().to_array();
    assert_eq!(arr.len(), 2);
    assert_eq!(arr[0], b"a");
    assert_eq!(arr[1], b"b");
}

#[test]
fn space_join_and_push() {
    let a = space_buf(&[b"a" as &[u8], b"bb"]);
    let b = space_buf(&[b"ccc" as &[u8]]);
    let joined = a.join(b.as_space());
    assert_eq!(joined, space_buf(&[b"a" as &[u8], b"bb", b"ccc"]));
    let pushed = a.clone().push(b"ccc");
    assert_eq!(pushed, joined);
    let (pre, last) = pushed.as_space().split_last();
    assert_eq!(pre, a.as_space());
    assert_eq!(last.unwrap().space_bytes(), &[3, b'c', b'c', b'c']);
    let front = b.clone().push_front(b"z");
    assert_eq!(front, space_buf(&[b"z" as &[u8], b"ccc"]));
    assert_eq!(a.try_join(b.as_space()).unwrap(), joined);
    let comps = joined.as_space().components_slices();
    assert_eq!(comps, vec![b"a" as &[u8], b"bb", b"ccc"]);
    assert_eq!(joined.calc_depth(), 3);
}

#[test]
fn space_into_spacebuf() {
    let b = [1u8, 97, 2, 98, 99];
    let sp = Space::from_slice(&b).unwrap();
    let owned: SpaceBuf = sp.into_spacebuf();
    assert_eq!(owned.as_space().space_bytes(), &b[..]);
    assert_eq!(owned.as_space().check_components(), Ok(2));
}

#[test]
fn space_strip_prefix_rest_is_space() {
    let s = space_buf(&[b"a" as &[u8], b"bc", b"d"]);
    let p = space_buf(&[b"a" as &[u8]]);
    let rest = s.as_space().strip_prefix(p.as_space()).unwrap();
    assert_eq!(rest.check_components(), Ok(2));
    let q = space_buf(&[b"b" as &[u8]]);
    assert!(s.as_space().strip_prefix(q.as_space()).is_none());
}

#[test]
fn space_track_steps() {
    let s = space_buf(&[b"a" as &[u8], b"bc", b"d"]);
    let mut t = s.as_space().track();
    for k in 0..3usize {
        let (a, b) = s.as_space().split_at(k);
        assert_eq!(t.upto().space_bytes(), a.space_bytes());
        assert_eq!(t.rest().space_bytes(), b.space_bytes());
        assert_eq!(t.full().space_bytes(), s.as_space().space_bytes());
        t = t.next().unwrap();
    }
    assert_eq!(t.upto().space_bytes(), s.as_space().space_bytes());
    assert!(t.rest().space_bytes().is_empty());
    assert!(t.next().is_none());
}
