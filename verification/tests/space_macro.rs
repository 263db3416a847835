use linkspace_pkt::space::{space_buf, Space, SpaceIter};

/// The next component equals `want`.
fn lit(it: &mut SpaceIter<'_>, want: &[u8]) -> Option<()> {
    let v = it.next()?;
    if v == want {
        Some(())
    } else {
        None
    }
}

/// The next component as an array of `N` bytes.
fn arr<const N: usize>(it: &mut SpaceIter<'_>) -> Option<[u8; N]> {
    let v = it.next()?;
    <[u8; N]>::try_from(v).ok()
}

/// No component is left.
fn end(it: &mut SpaceIter<'_>) -> Option<()> {
    if it.next().is_none() {
        Some(())
    } else {
        None
    }
}

fn two_lits(sp: Space<'_>, a: &[u8], b: &[u8]) -> Option<()> {
    let mut it = sp.iter();
    lit(&mut it, a)?;
    lit(&mut it, b)?;
    end(&mut it)
}

#[test]
fn test() {
    let buf = space_buf(&[b"hello" as &[u8], b"world"]);
    let sp = buf.as_space();

    let v: Option<()> = two_lits(sp, b"hello", b"world");
    assert!(v.is_some());

    let v: Option<()> = two_lits(sp, b"hell2o", b"world");
    assert!(v.is_none());

    let v: Option<([u8; 5], ())> = (|| {
        let mut it = sp.iter();
        let a = arr::<5>(&mut it)?;
        lit(&mut it, b"world")?;
        Some((a, end(&mut it)?))
    })();
    assert_eq!(v, Some((*b"hello", ())));

    let v: Option<[u8; 5]> = (|| {
        let mut it = sp.iter();
        let a = arr::<5>(&mut it)?;
        end(&mut it)?;
        Some(a)
    })();
    assert!(v.is_none());

    let v: Option<([u8; 5], ())> = (|| {
        let mut it = sp.iter();
        let a = arr::<5>(&mut it)?;
        lit(&mut it, b"world")?;
        lit(&mut it, b"test")?;
        Some((a, end(&mut it)?))
    })();
    assert!(v.is_none());

    let v: Option<([u8; 5], Space<'_>)> = (|| {
        let mut it = sp.iter();
        let a = arr::<5>(&mut it)?;
        Some((a, it.space()))
    })();
    let rest = v.unwrap().1;
    assert!((|| {
        let mut it = rest.iter();
        lit(&mut it, b"world")?;
        end(&mut it)
    })()
    .is_some());

    let v: Option<([u8; 5], [u8; 4])> = (|| {
        let mut it = sp.iter();
        let a = arr::<5>(&mut it)?;
        let b = arr::<4>(&mut it)?;
        end(&mut it)?;
        Some((a, b))
    })();
    assert!(v.is_none());

    let v: Option<([u8; 5], [u8; 5])> = (|| {
        let mut it = sp.iter();
        let a = arr::<5>(&mut it)?;
        let b = arr::<5>(&mut it)?;
        end(&mut it)?;
        Some((a, b))
    })();
    assert!(v.is_some());
}
