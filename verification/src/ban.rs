use vstd::prelude::*;
use chrono::{DateTime, OutOfRangeError, TimeDelta, Utc};

verus! {

/// A moment in UTC: whole seconds since the Unix epoch, and the
/// nanoseconds past them (at or above one billion within a leap second).
#[derive(Clone, Copy, PartialEq, Eq, Structural, Debug)]
pub struct Moment {
    pub secs: i64,
    pub nanos: u32,
}

#[verifier::external_type_specification]
#[verifier::external_body]
pub struct ExTimeDelta(chrono::TimeDelta);

#[verifier::external_type_specification]
#[verifier::external_body]
pub struct ExOutOfRangeError(chrono::OutOfRangeError);

/// The whole seconds of the longest span a `TimeDelta` holds
/// (`i64::MAX` milliseconds).
pub const DELTA_MAX_SECS: u64 = 9_223_372_036_854_775;

/// The nanoseconds beyond [`DELTA_MAX_SECS`] of the longest span.
pub const DELTA_MAX_NANOS: u32 = 807_000_000;

/// Whether a span of `secs` seconds and `nanos` nanoseconds fits in a
/// `TimeDelta`.
pub open spec fn fits_time_delta(secs: u64, nanos: u32) -> bool {
    secs < DELTA_MAX_SECS || (secs == DELTA_MAX_SECS && nanos <= DELTA_MAX_NANOS)
}

/// The `TimeDelta` that `TimeDelta::from_std` makes of a span that fits.
pub uninterp spec fn delta_of_span(secs: u64, nanos: u32) -> TimeDelta;

/// What `DateTime::<Utc>::checked_add_signed` gives for the moment of
/// `secs` and `nanos`: the moment `delta` later, as seconds and
/// nanoseconds, or `None` where that moment (or `now` itself) is out of
/// the range of `DateTime`.
pub uninterp spec fn checked_add_signed_of(secs: i64, nanos: u32, delta: TimeDelta) -> Option<(i64, u32)>;

/// The moment of a pair of seconds and nanoseconds.
pub open spec fn moment_of(pair: Option<(i64, u32)>) -> Option<Moment> {
    match pair {
        Some((secs, nanos)) => Some(Moment { secs, nanos }),
        None => None,
    }
}

/// `TimeDelta::from_std` on the span of `secs` seconds and `nanos`
/// nanoseconds: an error exactly where the span is longer than
/// `i64::MAX` milliseconds.
#[verifier::external_body]
fn time_delta_from_std(secs: u64, nanos: u32) -> (delta: Result<TimeDelta, OutOfRangeError>)
    requires
        nanos < 1_000_000_000,
    ensures
        delta.is_ok() == fits_time_delta(secs, nanos),
        delta matches Ok(d) ==> d == delta_of_span(secs, nanos),
{
    TimeDelta::from_std(std::time::Duration::new(secs, nanos))
}

/// `DateTime::<Utc>::checked_add_signed` on `now`, which is converted to
/// a `DateTime` and back: the result depends on its arguments alone;
/// which sums are in range is left to the name.
#[verifier::external_body]
fn date_checked_add(now: Moment, delta: TimeDelta) -> (later: Option<Moment>)
    ensures
        later == moment_of(checked_add_signed_of(now.secs, now.nanos, delta)),
{
    DateTime::<Utc>::from_timestamp(now.secs, now.nanos)
        .and_then(|t| t.checked_add_signed(delta))
        .map(|t| Moment { secs: t.timestamp(), nanos: t.timestamp_subsec_nanos() })
}

/// A ban duration that no time span can hold.
#[derive(Clone, Copy, PartialEq, Eq, Structural, Debug)]
pub struct DurationOutOfRange;

/// When a ban given at `now` for `duration` (seconds and nanoseconds)
/// ends: never (`None`) where no duration is given, or where the end
/// would lie beyond the last representable moment; an error where the
/// duration does not fit in a time span.
pub fn ban_end_date(now: Moment, duration: Option<(u64, u32)>) -> (end: Result<Option<Moment>, DurationOutOfRange>)
    requires
        duration matches Some((_, nanos)) ==> nanos < 1_000_000_000,
    ensures
        (match duration {
            None => end == Ok::<Option<Moment>, DurationOutOfRange>(None),
            Some((secs, nanos)) => if fits_time_delta(secs, nanos) {
                end == Ok::<Option<Moment>, DurationOutOfRange>(
                    moment_of(checked_add_signed_of(now.secs, now.nanos, delta_of_span(secs, nanos))),
                )
            } else {
                end == Err::<Option<Moment>, DurationOutOfRange>(DurationOutOfRange)
            },
        }),
{
    match duration {
        None => Ok(None),
        Some((secs, nanos)) => match time_delta_from_std(secs, nanos) {
            Ok(delta) => Ok(date_checked_add(now, delta)),
            Err(_) => Err(DurationOutOfRange),
        },
    }
}

} // verus!
