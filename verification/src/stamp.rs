//! Stamps: microseconds since the Unix epoch, and arithmetic on them.
//! Durations are given in whole microseconds.
use vstd::prelude::*;

verus! {

/// A duration in microseconds, capped at the largest stamp.
pub open spec fn capped(micros: u128) -> int {
    if micros > u64::MAX {
        u64::MAX as int
    } else {
        micros as int
    }
}

/// The stamp plus the duration, saturating at the largest stamp.
pub open spec fn spec_stamp_add(stamp: u64, micros: u128) -> int {
    if stamp + capped(micros) > u64::MAX {
        u64::MAX as int
    } else {
        stamp + capped(micros)
    }
}

/// The stamp minus the duration, saturating at zero.
pub open spec fn spec_stamp_sub(stamp: u64, micros: u128) -> int {
    if stamp < capped(micros) {
        0
    } else {
        stamp - capped(micros)
    }
}

/// The duration in microseconds, capped at the largest stamp.
fn cap(micros: u128) -> (r: u64)
    ensures
        r == capped(micros),
{
    if micros > u64::MAX as u128 {
        u64::MAX
    } else {
        micros as u64
    }
}

/// The distance between two stamps: `Ok` when `a` is later than `b`, else
/// `Err`.
pub fn stamp_sub_stamp(a: u64, b: u64) -> (r: Result<u64, u64>)
    ensures
        a > b ==> r == Ok::<u64, u64>((a - b) as u64),
        a <= b ==> r == Err::<u64, u64>((b - a) as u64),
{
    if a > b {
        Ok(a - b)
    } else {
        Err(b - a)
    }
}

/// The distance of a stamp from time `now`: an error, with the distance,
/// when the stamp is older than `now`.
pub fn stamp_age_at(stamp: u64, now: u64) -> (r: Result<u64, u64>)
    ensures
        stamp < now ==> r == Err::<u64, u64>((now - stamp) as u64),
        stamp >= now ==> r == Ok::<u64, u64>((stamp - now) as u64),
{
    if stamp < now {
        return Err(now - stamp);
    }
    Ok(stamp - now)
}

/// The stamp plus the duration, saturating at the largest stamp.
pub fn stamp_add(stamp: u64, micros: u128) -> (r: u64)
    ensures
        r == spec_stamp_add(stamp, micros),
{
    stamp.saturating_add(cap(micros))
}

/// The stamp plus the duration, when it fits.
pub fn checked_stamp_add(stamp: u64, micros: u128) -> (r: Option<u64>)
    ensures
        stamp + capped(micros) > u64::MAX ==> r is None,
        stamp + capped(micros) <= u64::MAX ==> r == Some((stamp + capped(micros)) as u64),
        stamp + micros <= u64::MAX ==> r == Some((stamp + micros) as u64),
        micros <= u64::MAX && stamp + micros > u64::MAX ==> r is None,
{
    stamp.checked_add(cap(micros))
}

/// The stamp minus the duration, saturating at zero.
pub fn stamp_sub(stamp: u64, micros: u128) -> (r: u64)
    ensures
        r == spec_stamp_sub(stamp, micros),
{
    stamp.saturating_sub(cap(micros))
}

/// The stamp minus the duration, when it is not before the epoch.
pub fn checked_stamp_sub(stamp: u64, micros: u128) -> (r: Option<u64>)
    ensures
        stamp < capped(micros) ==> r is None,
        stamp >= capped(micros) ==> r == Some((stamp - capped(micros)) as u64),
        micros <= stamp ==> r == Some((stamp - micros) as u64),
        stamp < micros <= u64::MAX ==> r is None,
{
    stamp.checked_sub(cap(micros))
}

/// Subtracting a duration undoes adding it, when the sum did not saturate;
/// the checked forms agree with the saturating ones where they succeed.
pub proof fn law_stamp_add_sub(stamp: u64, micros: u128)
    ensures
        stamp + capped(micros) <= u64::MAX ==> spec_stamp_sub(spec_stamp_add(stamp, micros) as u64, micros) == stamp,
        stamp >= capped(micros) ==> spec_stamp_add(spec_stamp_sub(stamp, micros) as u64, micros) == stamp,
        stamp + capped(micros) <= u64::MAX ==> spec_stamp_add(stamp, micros) == stamp + capped(micros),
        stamp >= capped(micros) ==> spec_stamp_sub(stamp, micros) == stamp - capped(micros),
{
}

/// A duration that fits in a stamp is added and subtracted whole: adding
/// gives the exact sum when it fits and the largest stamp otherwise, and
/// subtracting gives the exact difference when the duration is not longer
/// than the stamp and zero otherwise. Only durations beyond the largest stamp
/// are cut down, to the largest stamp.
pub proof fn law_stamp_exact(stamp: u64, micros: u128)
    ensures
        stamp + micros <= u64::MAX ==> spec_stamp_add(stamp, micros) == stamp + micros,
        stamp + micros > u64::MAX ==> spec_stamp_add(stamp, micros) == u64::MAX,
        micros <= stamp ==> spec_stamp_sub(stamp, micros) == stamp - micros,
        stamp < micros <= u64::MAX ==> spec_stamp_sub(stamp, micros) == 0,
        micros > u64::MAX ==> spec_stamp_sub(stamp, micros) == 0,
        spec_stamp_add(stamp, micros) >= stamp,
        spec_stamp_sub(stamp, micros) <= stamp,
{
}

} // verus!
