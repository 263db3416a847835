use linkspace_pkt::builder::calc_free_space;
use linkspace_pkt::link::Link;
use linkspace_pkt::spath::{spath_buf, SPath};
use linkspace_pkt::stamp::{
    checked_stamp_add, checked_stamp_sub, stamp_add, stamp_age_at, stamp_sub, stamp_sub_stamp,
};

#[test]
fn stamp_arithmetic() {
    assert_eq!(stamp_sub_stamp(10, 3), Ok(7));
    assert_eq!(stamp_sub_stamp(3, 10), Err(7));
    assert_eq!(stamp_sub_stamp(5, 5), Err(0));
    assert_eq!(stamp_age_at(5, 5), Ok(0));
    assert_eq!(stamp_age_at(3, 10), Err(7));
    assert_eq!(stamp_age_at(10, 3), Ok(7));
    assert_eq!(stamp_add(u64::MAX - 1, 5), u64::MAX);
    assert_eq!(stamp_add(1, 5), 6);
    assert_eq!(stamp_add(1, u128::MAX), u64::MAX);
    assert_eq!(checked_stamp_add(u64::MAX - 1, 5), None);
    assert_eq!(checked_stamp_add(1, 5), Some(6));
    assert_eq!(stamp_sub(3, 5), 0);
    assert_eq!(stamp_sub(8, 5), 3);
    assert_eq!(checked_stamp_sub(3, 5), None);
    assert_eq!(checked_stamp_sub(8, 5), Some(3));
    assert_eq!(stamp_sub(stamp_add(100, 42), 42), 100);
}

#[test]
fn free_space() {
    let empty = SPath::empty();
    assert_eq!(calc_free_space(empty, &[], &[], false), 64960);
    assert_eq!(calc_free_space(empty, &[], &[], true), 64924);
    let links = [Link { tag: [0; 16], ptr: [0; 32] }; 2];
    let path = spath_buf(&[b"abc" as &[u8]]);
    assert_eq!(calc_free_space(path.as_spath(), &links, b"data", false), 64960 - 96 - 12 - 4);
    let big = vec![0u8; 70000];
    assert_eq!(calc_free_space(empty, &[], &big, false), 64960 - 70000);
}
