use linkspace_pkt::ipath::{ipath_buf, IPath, IPathBuf};
use linkspace_pkt::spath::{spath_buf, PathError};

#[test]
fn ipathrange() {
    let comp = &[b"zero" as &[u8], b"one", b"two", b"three", b"four"];
    let p = ipath_buf(comp);
    let r = p.as_ipath();
    assert_eq!(r.range(0..8), spath_buf(comp).as_spath());
    assert_eq!(r.range(0..2), spath_buf(&comp[0..2]).as_spath());
    assert_eq!(r.range(2..4), spath_buf(&comp[2..4]).as_spath());
    assert_eq!(r.range(4..4), spath_buf(&comp[4..4]).as_spath());
    assert_eq!(r.range(2..8), spath_buf(&comp[2..5]).as_spath());
}

#[test]
fn spath_idx() {
    let space = ipath_buf(&[b"hello" as &[u8], b"world"]);
    space.as_ipath().check_components().unwrap();

    let v = spath_buf(&[b"he" as &[u8], b"llo"]);
    let i: IPathBuf = v.clone().as_spath().try_ipath().unwrap();
    assert_eq!(
        i.as_ipath().ipath_bytes(),
        vec![2, 3, 7, 7, 7, 7, 7, 7, 2, 104, 101, 3, 108, 108, 111]
    );
    let (count, ends, sp) = i.as_ipath().fields();
    assert_eq!(sp.spath_bytes(), &[2, 104, 101, 3, 108, 108, 111]);
    assert_eq!(count, 2);
    assert_eq!(ends, [0, 3, 7, 7, 7, 7, 7, 7, 7]);
    let mut it = sp.checked_iter().unwrap();
    assert_eq!(it.next().unwrap().unwrap(), b"he");
    assert_eq!(it.next().unwrap().unwrap(), b"llo");
    assert_eq!(it.next(), None);
    sp.check_components().unwrap();
    i.as_ipath().check_components().unwrap();
}

#[test]
fn ip_iter() {}

#[test]
fn ipath_components() {
    let p = ipath_buf(&[b"a" as &[u8], b"bc", b"def"]);
    let r = p.as_ipath();
    assert_eq!(r.len(), 3);
    assert_eq!(r.path_len(), 3);
    assert_eq!(r.path0(), b"a");
    assert_eq!(r.path1(), b"bc");
    assert_eq!(r.path2(), b"def");
    assert_eq!(r.path3(), b"");
    assert_eq!(r.last(), b"def");
    assert_eq!(r.comp(1), b"bc");
    assert_eq!(r.iter(), vec![b"a" as &[u8], b"bc", b"def"]);
    assert!(!r.is_empty());
    assert!(IPath::empty().is_empty());
    assert_eq!(IPath::empty().len(), 0);
}

#[test]
fn ipath_errors() {
    assert_eq!(IPath::from(&[1, 2, 3]), Err(PathError::MissingIdx));
    assert_eq!(IPath::from(&[1, 2, 3, 3, 3, 3, 3, 3, 2, 104, 101]), Err(PathError::BadOffset));
    assert_eq!(IPath::from(&[2, 3, 3, 3, 3, 3, 3, 3, 2, 104, 101]), Err(PathError::EmptyComponentIdx));
    let mut b = IPathBuf::new();
    assert_eq!(b.try_append_component(b""), Err(PathError::ZeroComponent));
    for _ in 0..8 {
        b.try_append_component(b"x").unwrap();
    }
    let before = b.clone();
    assert_eq!(b.try_append_component(b"x"), Err(PathError::MaxLen));
    assert_eq!(b, before);
    assert_eq!(b.as_ipath().len(), 8);
    let mut wrong = b.as_ipath().ipath_bytes().to_vec();
    wrong[0] = 0;
    assert_eq!(IPath::from(&wrong), Err(PathError::EmptyComponentIdx));
    let mut c = IPathBuf::new();
    c.try_append_component(&[7u8; 200]).unwrap();
    assert_eq!(c.try_append_component(&[7u8; 42]), Err(PathError::CapacityError));
}
