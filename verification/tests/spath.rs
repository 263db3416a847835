use linkspace_pkt::spath::{
    concat_components, prefix_len, CheckedSPathIter, ConstSPath, PathError, SPath, SPathBuf,
};

#[test]
fn spath_try_pop() {
    let common_bytes: [u8; 7] =
        concat_components::<4, 3, 7>(concat_components::<2, 2, 4>(prefix_len::<1, 2>(*b"a"), prefix_len::<1, 2>(*b"b")), prefix_len::<2, 3>(*b"aa"));
    let common_const = ConstSPath::from_raw(common_bytes);
    let v = vec![1u8, 97, 1, 98, 2, 97, 97];
    let common = SPathBuf::from_vec_unchecked(v.clone());
    common.as_spath().check_components().unwrap();
    assert_eq!(common.as_spath(), common_const.as_spath());
    let (a, b) = common.as_spath().split_last();
    assert_eq!(a.spath_bytes(), &[1, 97, 1, 98]);
    assert_eq!(b.unwrap().spath_bytes(), &[2, 97, 97]);

    let mut w = v.clone();
    w.push(2);
    let common = SPathBuf::from_vec_unchecked(w);
    assert_eq!(common.as_spath().check_components(), Err(PathError::TailLength));

    let mut w = v.clone();
    w.push(0);
    let common = SPathBuf::from_vec_unchecked(w);
    assert_eq!(common.as_spath().check_components(), Err(PathError::ZeroComponent));

    let mut w = v.clone();
    w[2] = 7;
    let common = SPathBuf::from_vec_unchecked(w);
    assert_eq!(common.as_spath().check_components(), Err(PathError::TailLength));

    let mut w = v.clone();
    w[2] = 251;
    let common = SPathBuf::from_vec_unchecked(w);
    assert_eq!(common.as_spath().check_components(), Err(PathError::ComponentSize));
}

#[test]
fn spath_concat() {
    assert_eq!(
        [1, 0, 2, 0, 0],
        concat_components::<2, 3, 5>(prefix_len::<1, 2>([0]), prefix_len::<2, 3>([0, 0]))
    );
}

#[test]
fn spath_pop_slice() {
    let mut v = SPathBuf::from(&[b"hello" as &[u8], b"world"]);
    let x = SPathBuf::from(&[b"hello" as &[u8]]);
    let world = SPathBuf::from(&[b"world" as &[u8]]);
    assert_eq!(v.as_spath().drop_prefix(x.as_spath()), world.as_spath());
    v.truncate_last();
    assert_eq!(v, x)
}

#[test]
fn spath_check() {
    let spath = SPathBuf::try_from_iter(&[b"hello" as &[u8], b"world"]).unwrap();
    let mut it = spath.as_spath().checked_iter().unwrap();
    assert_eq!(it.next().unwrap().unwrap(), b"hello" as &[u8]);
    assert_eq!(it.next().unwrap().unwrap(), b"world" as &[u8]);
    assert!(it.next().is_none());
    let v = SPathBuf::from(&[b"a" as &[u8], b"b", b"c"]);
    assert_eq!(v.as_spath().check_components().unwrap(), 3);
}

#[test]
fn spath_track() {
    let v = SPathBuf::from(&[b"a" as &[u8], b"b", b"c"]);
    let mut track = v.as_spath().track();
    assert_eq!(track.upto().spath_bytes(), &[] as &[u8]);
    track = track.next().unwrap();
    assert_eq!(track.upto().spath_bytes(), &[1, b'a']);
    track = track.next().unwrap();
    assert_eq!(track.upto().spath_bytes(), &[1, b'a', 1, b'b']);
    track = track.next().unwrap();
    assert_eq!(track.upto().spath_bytes(), &[1, b'a', 1, b'b', 1, b'c']);
}


#[test]
fn spath_into_spathbuf() {
    let b = [1u8, 97, 2, 98, 99];
    let sp = SPath::from_slice(&b).unwrap();
    let owned: SPathBuf = sp.into_spathbuf();
    assert_eq!(owned.as_spath().spath_bytes(), &b[..]);
    let nine = [1u8, 97, 1, 97, 1, 97, 1, 97, 1, 97, 1, 97, 1, 97, 1, 97, 1, 97];
    assert_eq!(SPath::from_slice(&nine), Err(PathError::MaxLen));
    assert_eq!(SPath::from_slice(&[1u8; 243]), Err(PathError::CapacityError));
}
