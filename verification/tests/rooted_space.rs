use linkspace_pkt::rooted_space::{rspace_buf, RootedSpace, RootedSpaceBuf};
use linkspace_pkt::space::{space_buf, SpaceError};

#[test]
fn rspace_range() {
    let comp = &[b"zero" as &[u8], b"one", b"two", b"three", b"four"];
    let p = rspace_buf(comp);
    let r = p.as_rooted();
    assert_eq!(r.range(0..8), space_buf(comp).as_space());
    assert_eq!(r.range(0..2), space_buf(&comp[0..2]).as_space());
    assert_eq!(r.range(2..4), space_buf(&comp[2..4]).as_space());
    assert_eq!(r.range(4..4), space_buf(&comp[4..4]).as_space());
    assert_eq!(r.range(2..8), space_buf(&comp[2..5]).as_space());
}

#[test]
fn space_roots() {
    let space = rspace_buf(&[b"hello" as &[u8], b"world"]);
    space.as_rooted().check_components().unwrap();

    let v = space_buf(&[b"he" as &[u8], b"llo"]);
    let i: RootedSpaceBuf = v.clone().as_space().try_into_rooted().unwrap();
    assert_eq!(
        i.as_rooted().rooted_bytes(),
        vec![2, 3, 7, 7, 7, 7, 7, 7, 2, 104, 101, 3, 108, 108, 111]
    );
    let (count, ends, sp) = i.as_rooted().fields();
    assert_eq!(sp.space_bytes(), &[2, 104, 101, 3, 108, 108, 111]);
    assert_eq!(count, 2);
    assert_eq!(ends, [0, 3, 7, 7, 7, 7, 7, 7, 7]);
    let mut it = sp.checked_iter().unwrap();
    assert_eq!(it.next().unwrap().unwrap(), b"he");
    assert_eq!(it.next().unwrap().unwrap(), b"llo");
    assert_eq!(it.next(), None);
    sp.check_components().unwrap();
}

#[test]
fn rspace_components() {
    let p = rspace_buf(&[b"a" as &[u8], b"bc", b"def"]);
    let r = p.as_rooted();
    assert_eq!(r.depth(), 3);
    assert_eq!(r.space_depth(), 3);
    assert_eq!(r.comp0(), b"a");
    assert_eq!(r.comp1(), b"bc");
    assert_eq!(r.comp2(), b"def");
    assert_eq!(r.comp3(), b"");
    assert_eq!(r.last(), b"def");
    assert_eq!(r.comp(1), b"bc");
    assert_eq!(r.iter(), vec![b"a" as &[u8], b"bc", b"def"]);
    assert!(!r.is_empty());
    assert!(RootedSpace::empty().is_empty());
    assert_eq!(RootedSpace::empty().depth(), 0);
}

#[test]
fn rspace_errors() {
    assert_eq!(RootedSpace::from(&[1, 2, 3]), Err(SpaceError::MissingIdx));
    assert_eq!(RootedSpace::from(&[1, 2, 3, 3, 3, 3, 3, 3, 2, 104, 101]), Err(SpaceError::BadOffset));
    assert_eq!(RootedSpace::from(&[2, 3, 3, 3, 3, 3, 3, 3, 2, 104, 101]), Err(SpaceError::EmptyComponentIdx));
    let mut b = RootedSpaceBuf::new();
    assert_eq!(b.try_append_component(b""), Err(SpaceError::ZeroComponent));
    for _ in 0..8 {
        b.try_append_component(b"x").unwrap();
    }
    let before = b.clone();
    assert_eq!(b.try_append_component(b"x"), Err(SpaceError::MaxDepth));
    assert_eq!(b, before);
    assert_eq!(b.as_rooted().depth(), 8);
    assert_eq!(b.as_rooted().check_components(), Ok(()));
    // the depth byte must equal the component count
    let mut wrong = b.as_rooted().rooted_bytes().to_vec();
    wrong[0] = 0;
    assert_eq!(RootedSpace::from(&wrong), Err(SpaceError::EmptyComponentIdx));
    // a component that does not fit in the byte size
    let mut c = RootedSpaceBuf::new();
    c.try_append_component(&[7u8; 200]).unwrap();
    assert_eq!(c.try_append_component(&[7u8; 42]), Err(SpaceError::CapacityError));
}

#[test]
fn rspace_appends_equal_rooting() {
    let comps = [b"he" as &[u8], b"llo", b"w"];
    let mut appended = RootedSpaceBuf::new();
    for c in comps.iter() {
        appended.try_append_component(c).unwrap();
    }
    let rooted = space_buf(&comps).as_space().try_into_rooted().unwrap();
    assert_eq!(appended, rooted);
    assert_eq!(rspace_buf(&comps), rooted);
    let r = rooted.as_rooted();
    assert_eq!(r.space().space_bytes(), space_buf(&comps).as_bytes());
    for (i, c) in comps.iter().enumerate() {
        assert_eq!(r.comp(i), *c);
    }
}
