//! Time: durations by their nanoseconds, and readings of the two clocks.

use vstd::prelude::*;

verus! {

/// A reading of the monotonic clock. Nothing inside it is visible but when it
/// was taken.
#[verifier::external_type_specification]
#[verifier::external_body]
pub struct ExInstant(std::time::Instant);

/// When a reading of the monotonic clock was taken, in nanoseconds on that
/// clock.
pub uninterp spec fn clock_nanos(reading: std::time::Instant) -> int;

/// The whole nanoseconds of a duration, as `Duration::as_nanos` counts them.
pub uninterp spec fn duration_nanos(duration: std::time::Duration) -> nat;

/// `Duration::as_nanos`: the duration's whole nanoseconds.
pub assume_specification[ std::time::Duration::as_nanos ](duration: &std::time::Duration) -> (nanos: u128)
    ensures
        nanos == duration_nanos(*duration),
;

/// `Duration::from_secs`: the duration of this many whole seconds.
pub assume_specification[ std::time::Duration::from_secs ](secs: u64) -> (duration: std::time::Duration)
    ensures
        duration_nanos(duration) == secs * 1_000_000_000,
;

/// `Duration::as_millis`: the duration's whole milliseconds.
pub assume_specification[ std::time::Duration::as_millis ](duration: &std::time::Duration) -> (millis: u128)
    ensures
        millis == duration_nanos(*duration) / 1_000_000,
;

/// `Duration::saturating_sub`: the difference of the two durations, or zero
/// where it would be negative.
pub assume_specification[ std::time::Duration::saturating_sub ](duration: std::time::Duration, rhs: std::time::Duration) -> (rest:
    std::time::Duration)
    ensures
        duration_nanos(rest) == nanos_beyond(duration_nanos(duration), duration_nanos(rhs)),
;

/// What elapsed from `earlier` to `later`, as
/// `Instant::saturating_duration_since` computes it.
pub uninterp spec fn elapsed_between(later: std::time::Instant, earlier: std::time::Instant) -> std::time::Duration;

/// `Instant::saturating_duration_since`: the time from the earlier reading to the
/// later one, or none where the earlier one was taken later. A function of the
/// two readings alone.
pub assume_specification[ std::time::Instant::saturating_duration_since ](
    later: &std::time::Instant,
    earlier: std::time::Instant,
) -> (elapsed: std::time::Duration)
    ensures
        elapsed == elapsed_between(*later, earlier),
        duration_nanos(elapsed) == nanos_between(*later, earlier),
;

/// What remains at `now` until `later`, as `Instant::checked_duration_since`
/// computes it: nothing where `later` has passed.
pub uninterp spec fn remaining_until(later: std::time::Instant, now: std::time::Instant) -> Option<std::time::Duration>;

/// `Instant::checked_duration_since`: the time from one reading to a later one,
/// and nothing where the later one has passed. A function of the two readings
/// alone.
pub assume_specification[ std::time::Instant::checked_duration_since ](
    later: &std::time::Instant,
    now: std::time::Instant,
) -> (remaining: Option<std::time::Duration>)
    ensures
        remaining == remaining_until(*later, now),
        match remaining {
            Some(remaining) => duration_nanos(remaining) == nanos_between(*later, now),
            None => clock_nanos(now) > clock_nanos(*later),
        },
;

/// `Instant::now`: the monotonic clock's reading at the call. Nothing is said
/// of it: it depends on when the call is made.
pub assume_specification[ std::time::Instant::now ]() -> (now: std::time::Instant);

/// A reading of the system's wall clock. Nothing inside it is visible.
#[verifier::external_type_specification]
#[verifier::external_body]
pub struct ExSystemTime(std::time::SystemTime);

/// `SystemTime::now`: the wall clock's reading at the call. Nothing is said of
/// it: it depends on when the call is made.
pub assume_specification[ std::time::SystemTime::now ]() -> (now: std::time::SystemTime);

/// What has elapsed from the epoch to a reading of the wall clock; nothing where
/// the reading is earlier.
pub uninterp spec fn elapsed_since_epoch(reading: std::time::SystemTime) -> Option<std::time::Duration>;

/// `SystemTime::duration_since` with the epoch: a function of the reading alone.
/// Beyond that nothing is said of it, because a reading is opaque.
#[verifier::external_body]
pub(crate) fn since_epoch(reading: std::time::SystemTime) -> (elapsed: Option<std::time::Duration>)
    ensures
        elapsed == elapsed_since_epoch(reading),
{
    reading.duration_since(std::time::UNIX_EPOCH).ok()
}

/// The nanoseconds from the earlier reading to the later one; none where the
/// earlier one was taken later.
pub open spec fn nanos_between(later: std::time::Instant, earlier: std::time::Instant) -> nat {
    if clock_nanos(later) >= clock_nanos(earlier) {
        (clock_nanos(later) - clock_nanos(earlier)) as nat
    } else {
        0
    }
}

/// What of `whole` lies beyond `part`: nothing when `part` covers it.
pub open spec fn nanos_beyond(whole: nat, part: nat) -> nat {
    if whole >= part {
        (whole - part) as nat
    } else {
        0
    }
}

/// What lies beyond a part of a whole is the difference, and nothing where the part
/// is larger; and time elapses only forwards.
pub proof fn what_lies_beyond_is_never_negative(
    whole: nat,
    part: nat,
    later: std::time::Instant,
    earlier: std::time::Instant,
)
    ensures
        part <= whole ==> nanos_beyond(whole, part) == whole - part,
        part > whole ==> nanos_beyond(whole, part) == 0,
        clock_nanos(earlier) <= clock_nanos(later) ==> nanos_between(later, earlier) == clock_nanos(
            later,
        ) - clock_nanos(earlier),
        clock_nanos(later) < clock_nanos(earlier) ==> nanos_between(later, earlier) == 0,
{
}

}
