//! The clocks of the machine.
//!
//! What a clock tells rests on the machine, so that nothing is promised of it. A function that
//! works with the present time says that it is one that a clock told.

use vstd::prelude::*;

verus! {

/// A reading of the wall clock in whole milliseconds since the Unix epoch, less than zero where it
/// is before that. The reading is the time since the epoch in milliseconds, or the time to it in
/// nanoseconds.
pub open spec fn reading_millis(reading: Result<i64, u128>) -> i64 {
    match reading {
        Ok(ms) => ms,
        Err(nanos) => if nanos as int > i64::MAX as int * 1_000_000 {
            i64::MIN
        } else {
            (-((nanos as int + 999_999) / 1_000_000)) as i64
        },
    }
}

/// Whether the wall clock told this time, in milliseconds since the Unix epoch, less than zero
/// where it is before that.
pub closed spec fn wall_told(now: i64) -> bool {
    exists|reading: Result<i64, u128>| #[trigger]
        call_ensures(wall_reading, (), reading) && now == reading_millis(reading)
}

/// Whether the wall clock told this time, in milliseconds since the Unix epoch; the epoch where it
/// is before that.
pub open spec fn clock_told(now: i64) -> bool {
    exists|ms: i64| #[trigger]
        wall_told(ms) && now == (if ms < 0 {
            0
        } else {
            ms
        })
}

/// A time in whole seconds since the Unix epoch; the epoch where it is before that.
pub open spec fn whole_secs(ms: i64) -> u64 {
    if ms < 0 {
        0
    } else {
        (ms as int / 1000) as u64
    }
}

/// Whether the wall clock told this time, in whole seconds since the Unix epoch.
pub open spec fn clock_told_secs(now: u64) -> bool {
    exists|ms: i64| #[trigger] clock_told(ms) && now == whole_secs(ms)
}

/// Whether a moment is one that the clock called the present.
pub closed spec fn was_present(t: std::time::Instant) -> bool {
    call_ensures(moment_now, (), t)
}

/// Whether the clock told that so many milliseconds had passed since a moment.
pub closed spec fn passed_millis(then: std::time::Instant, ms: u64) -> bool {
    call_ensures(millis_since, (&then,), ms)
}

/// Whether the clock told that so many whole seconds had passed since a moment.
pub closed spec fn passed_secs(then: std::time::Instant, secs: u64) -> bool {
    call_ensures(secs_since, (&then,), secs)
}

/// The current time: in milliseconds since the Unix epoch, or, where the clock is set before the
/// epoch, in nanoseconds to it.
///
/// Calls `std::time::SystemTime::now`. Nothing is promised of the result, which rests on the
/// machine's clock.
#[verifier::external_body]
fn wall_reading() -> Result<i64, u128> {
    match std::time::SystemTime::now().duration_since(std::time::UNIX_EPOCH) {
        Ok(d) => Ok(d.as_millis() as i64),
        Err(e) => Err(e.duration().as_nanos()),
    }
}

/// The present moment. Calls `std::time::Instant::now`, of whose result nothing is promised.
#[verifier::external_body]
fn moment_now() -> std::time::Instant {
    std::time::Instant::now()
}

/// How many whole milliseconds have passed since a moment. Calls `std::time::Instant::elapsed`, of
/// whose result nothing is promised.
#[verifier::external_body]
fn millis_since(then: &std::time::Instant) -> u64 {
    then.elapsed().as_millis() as u64
}

/// How many whole seconds have passed since a moment. Calls `std::time::Instant::elapsed`, of
/// whose result nothing is promised.
#[verifier::external_body]
fn secs_since(then: &std::time::Instant) -> u64 {
    then.elapsed().as_secs()
}

#[verifier::external_type_specification]
#[verifier::external_body]
pub struct ExInstant(std::time::Instant);

/// The current time in milliseconds since the Unix epoch, less than zero where it is before that.
pub(crate) fn wall_millis() -> (r: i64)
    ensures
        wall_told(r),
{
    let reading = wall_reading();
    assert(call_ensures(wall_reading, (), reading));
    match reading {
        Ok(ms) => ms,
        Err(nanos) => {
            if nanos > 9_223_372_036_854_775_807_000_000 {
                i64::MIN
            } else {
                let whole: i64 = ((nanos + 999_999) / 1_000_000) as i64;
                -whole
            }
        },
    }
}

/// The current time in milliseconds since the Unix epoch; the epoch where it is before that.
pub(crate) fn now_millis() -> (r: i64)
    ensures
        clock_told(r),
{
    let ms: i64 = wall_millis();
    assert(wall_told(ms));
    if ms < 0 {
        0
    } else {
        ms
    }
}

/// The current time in whole seconds since the Unix epoch.
pub(crate) fn now_secs() -> (r: u64)
    ensures
        clock_told_secs(r),
{
    let ms: i64 = now_millis();
    assert(clock_told(ms));
    if ms < 0 {
        0
    } else {
        (ms / 1000) as u64
    }
}

/// The present moment.
pub(crate) fn present() -> (r: std::time::Instant)
    ensures
        was_present(r),
{
    moment_now()
}

/// How many whole milliseconds have passed since a moment.
pub(crate) fn elapsed_millis(then: &std::time::Instant) -> (r: u64)
    ensures
        passed_millis(*then, r),
{
    millis_since(then)
}

/// How many whole seconds have passed since a moment.
pub(crate) fn elapsed_secs(then: &std::time::Instant) -> (r: u64)
    ensures
        passed_secs(*then, r),
{
    secs_since(then)
}

/// A reading of the clock is told in whole milliseconds: as it is from the epoch on, and before the epoch
/// rounded away from it, so that it stays before.
pub proof fn law_readings_are_told_in_milliseconds(since: i64, before: u128)
    requires
        before <= 9_223_372_036_854_775_807_000_000,
    ensures
        reading_millis(Ok(since)) == since,
        before > 0 ==> reading_millis(Err(before)) < 0,
        -(reading_millis(Err(before)) as int) * 1_000_000 >= before,
        (-(reading_millis(Err(before)) as int) - 1) * 1_000_000 < before,
{
}

/// A time in whole seconds is the part of its milliseconds that makes whole seconds; the epoch before that.
pub proof fn law_seconds_are_whole(ms: i64)
    ensures
        ms >= 0 ==> whole_secs(ms) * 1000 <= ms < (whole_secs(ms) + 1) * 1000,
        ms < 0 ==> whole_secs(ms) == 0,
{
}

/// The time since the epoch that the clock told is the one that it told, or the epoch where that is before
/// it.
pub proof fn law_clock_is_not_before_the_epoch(now: i64)
    requires
        clock_told(now),
    ensures
        now >= 0,
        wall_told(now) || (now == 0 && exists|ms: i64| #[trigger] wall_told(ms) && ms < 0),
{
}

} // verus!
