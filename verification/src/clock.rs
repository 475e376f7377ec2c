//! Points in time, as `chrono` reads and adds them.

use crate::influx::Timestamp;
use vstd::prelude::*;

verus! {

/// The first second that a date of `chrono` can hold, counted from the start of 1970.
pub const FIRST_SECOND: i64 = -8_334_601_228_800;

/// The last second that a date of `chrono` can hold, counted from the start of 1970.
pub const LAST_SECOND: i64 = 8_210_266_876_799;

/// What `DateTime::parse_from_rfc3339` reads in a text: the seconds since the start of 1970, and
/// the nanoseconds behind them. `None` is a text that is no date.
pub uninterp spec fn rfc3339_time(text: Seq<char>) -> Option<(i64, u32)>;

/// `DateTime::parse_from_rfc3339`.
///
/// Trusted: what is read depends on the text alone.
#[verifier::external_body]
fn read_rfc3339(text: &str) -> (time: Option<(i64, u32)>)
    ensures
        time == rfc3339_time(text@),
{
    match chrono::DateTime::parse_from_rfc3339(text) {
        Ok(time) => Some((time.timestamp(), time.timestamp_subsec_nanos())),
        Err(_) => None,
    }
}

/// Reads when a run started. `None` is a text that is no date.
pub fn parse_start_time(text: &str) -> (start: Option<Timestamp>)
    ensures
        match rfc3339_time(text@) {
            Some((seconds, nanos)) => start == Some(Timestamp { seconds, nanos }),
            None => start is None,
        },
{
    match read_rfc3339(text) {
        Some((seconds, nanos)) => Some(Timestamp { seconds, nanos }),
        None => None,
    }
}

/// Whether a date of `chrono` can hold that time. A second may have a leap second behind it where it
/// is the last one of a minute: the nanoseconds then go up to two seconds.
pub open spec fn is_date(time: Timestamp) -> bool {
    &&& FIRST_SECOND <= time.seconds <= LAST_SECOND
    &&& time.nanos < 2_000_000_000
    &&& time.nanos >= 1_000_000_000 ==> time.seconds % 60 == 59
}

/// The seconds and nanoseconds of a time that is so much later. A leap second goes on until it is
/// over, and does not count otherwise.
pub open spec fn later(start: Timestamp, seconds: u64, nanos: u32) -> (int, int) {
    if start.nanos >= 1_000_000_000 && seconds == 0 && start.nanos + nanos < 2_000_000_000 {
        (start.seconds as int, start.nanos + nanos)
    } else {
        let sum = start.nanos % 1_000_000_000 + nanos;
        (start.seconds + seconds + sum / 1_000_000_000, sum % 1_000_000_000)
    }
}

/// `DateTime::checked_add_signed` with a time that has passed.
///
/// Trusted: the sum is the later time, and there is one exactly where the start is a date and the
/// sum is not behind the last second that a date can hold.
#[verifier::external_body]
fn add_elapsed(start: Timestamp, seconds: u64, nanos: u32) -> (sum: Option<Timestamp>)
    requires
        nanos < 1_000_000_000,
    ensures
        match sum {
            Some(time) => is_date(start) && (time.seconds as int, time.nanos as int) == later(
                start,
                seconds,
                nanos,
            ) && time.seconds <= LAST_SECOND,
            None => !is_date(start) || later(start, seconds, nanos).0 > LAST_SECOND,
        },
{
    let start = chrono::DateTime::from_timestamp(start.seconds, start.nanos)?;
    let elapsed = chrono::Duration::from_std(std::time::Duration::new(seconds, nanos)).ok()?;
    let sum = start.checked_add_signed(elapsed)?;
    Some(Timestamp { seconds: sum.timestamp(), nanos: sum.timestamp_subsec_nanos() })
}

/// The time after so many seconds and nanoseconds. `None` means that no date can hold it.
pub fn time_after(start: Timestamp, seconds: u64, nanos: u32) -> (sum: Option<Timestamp>)
    requires
        nanos < 1_000_000_000,
    ensures
        match sum {
            Some(time) => is_date(start) && is_date(time) && (
                time.seconds as int,
                time.nanos as int,
            ) == later(start, seconds, nanos),
            None => !is_date(start) || later(start, seconds, nanos).0 > LAST_SECOND,
        },
{
    add_elapsed(start, seconds, nanos)
}

/// Waiting twice is waiting once for as long as both, where the start is not within a leap second.
pub proof fn waiting_adds_up(
    start: Timestamp,
    between: Timestamp,
    first: (u64, u32),
    second: (u64, u32),
    both: (u64, u32),
)
    requires
        start.nanos < 1_000_000_000,
        first.1 < 1_000_000_000,
        second.1 < 1_000_000_000,
        (between.seconds as int, between.nanos as int) == later(start, first.0, first.1),
        both.0 * 1_000_000_000 + both.1 == (first.0 + second.0) * 1_000_000_000 + first.1
            + second.1,
        both.1 < 1_000_000_000,
    ensures
        later(between, second.0, second.1) == later(start, both.0, both.1),
{
}

/// A time that is later by so much is that many nanoseconds later, with less than a second of them behind
/// the seconds, where the start is not within a leap second.
pub proof fn later_times_are_sums(start: Timestamp, seconds: u64, nanos: u32)
    requires
        start.nanos < 1_000_000_000,
    ensures
        ({
            let (sum_seconds, sum_nanos) = later(start, seconds, nanos);
            &&& sum_seconds * 1_000_000_000 + sum_nanos == (start.seconds + seconds)
                * 1_000_000_000 + start.nanos + nanos
            &&& 0 <= sum_nanos < 1_000_000_000
        }),
{
}

/// Within a leap second, a wait that ends in it adds its nanoseconds. A longer wait goes on from the
/// nanoseconds that the leap second has, as if they were those of the second before it.
pub proof fn leap_seconds_do_not_count(start: Timestamp, seconds: u64, nanos: u32)
    requires
        1_000_000_000 <= start.nanos < 2_000_000_000,
        nanos < 1_000_000_000,
    ensures
        seconds == 0 && start.nanos + nanos < 2_000_000_000 ==> later(start, seconds, nanos) == (
            start.seconds as int,
            start.nanos + nanos,
        ),
        seconds > 0 || start.nanos + nanos >= 2_000_000_000 ==> later(start, seconds, nanos)
            == later(
            Timestamp { seconds: start.seconds, nanos: (start.nanos - 1_000_000_000) as u32 },
            seconds,
            nanos,
        ),
{
}

/// A date lies between the first and the last second that can be held, and has less than a second behind its seconds, or less than
/// two in the last second of a minute.
pub proof fn dates_are_bounded(time: Timestamp)
    ensures
        is_date(time) <==> -8_334_601_228_800 <= time.seconds <= 8_210_266_876_799 && (time.nanos
            < 1_000_000_000 || (time.nanos < 2_000_000_000 && time.seconds % 60 == 59)),
{
}

} // verus!
