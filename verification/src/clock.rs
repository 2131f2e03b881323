use vstd::prelude::*;

verus! {

/// Whole hours between `started_at` and `now`, both in seconds: the quotient
/// of the difference by 3600, rounded toward zero.
pub open spec fn hours_between(started_at: int, now: int) -> int {
    let seconds = now - started_at;
    if seconds >= 0 {
        seconds / 3600
    } else {
        -((-seconds) / 3600)
    }
}

/// Whether the window of an election that started at `started_at` and lasts
/// `duration` hours is over at `now`. The hour in which the duration runs out
/// still belongs to the window.
pub open spec fn expired(started_at: int, duration: nat, now: int) -> bool {
    hours_between(started_at, now) > duration
}

/// Whole hours elapsed at `now` since `started_at`, rounded toward zero. The
/// difference is taken without overflow, whatever the two instants are.
pub fn elapsed_hours(started_at: i64, now: i64) -> (hours: i64)
    ensures
        hours == hours_between(started_at as int, now as int),
{
    let seconds: i128 = now as i128 - started_at as i128;
    if seconds >= 0 {
        (seconds / 3600) as i64
    } else {
        let back: i128 = (0 - seconds) / 3600;
        (0 - back) as i64
    }
}

/// Whether an election that started at `started_at` and lasts `duration`
/// hours is over at `now`.
pub fn has_expired(started_at: i64, duration: u8, now: i64) -> (over: bool)
    ensures
        over == expired(started_at as int, duration as nat, now as int),
{
    elapsed_hours(started_at, now) > duration as i64
}

} // verus!
